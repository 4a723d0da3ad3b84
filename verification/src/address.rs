//! Addresses that gateways listen at.

use vstd::prelude::*;

verus! {

/// An IP address.
#[derive(Debug, Clone, Copy, PartialEq, Eq, Structural)]
pub enum Ip {
    /// Four bytes, the first one in the highest bits.
    V4(u32),
    /// Sixteen bytes, the first one in the highest bits.
    V6(u128),
}

impl Ip {
    /// Whether packets to the address stay on the machine.
    pub open spec fn loops_back(self) -> bool {
        match self {
            Ip::V4(a) => a / 0x100_0000 == 127,
            Ip::V6(a) => a == 1,
        }
    }

    /// Whether packets to the address stay on the machine.
    pub fn is_loopback(&self) -> (b: bool)
        ensures
            b == self.loops_back(),
    {
        match self {
            Ip::V4(a) => *a / 0x100_0000 == 127,
            Ip::V6(a) => *a == 1,
        }
    }
}

/// An address and a port to listen at. Port 0 leaves the choice to the system.
#[derive(Debug, Clone, Copy, PartialEq, Eq, Structural)]
pub struct ListenAddr {
    /// The address.
    pub ip: Ip,
    /// The port.
    pub port: u16,
}

impl ListenAddr {
    /// The address 127.0.0.1, with a port of the system's choice.
    pub open spec fn any_loopback() -> ListenAddr {
        ListenAddr { ip: Ip::V4(0x7f00_0001), port: 0 }
    }

    /// The address 127.0.0.1, with a port of the system's choice.
    pub fn loopback() -> (a: Self)
        ensures
            a == ListenAddr::any_loopback(),
            a.ip.loops_back(),
    {
        ListenAddr { ip: Ip::V4(0x7f00_0001), port: 0 }
    }

    /// The address.
    pub fn ip(&self) -> (ip: Ip)
        ensures
            ip == self.ip,
    {
        self.ip
    }
}

/// The addresses from 127.0.0.0 to 127.255.255.255 loop back, and `::1`, and no others.
pub proof fn law_which_addresses_loop_back(ip: Ip)
    ensures
        ip matches Ip::V4(a) ==> (ip.loops_back() <==> 0x7f00_0000 <= a <= 0x7fff_ffff),
        ip matches Ip::V6(a) ==> (ip.loops_back() <==> a == 1),
{
}

} // verus!
