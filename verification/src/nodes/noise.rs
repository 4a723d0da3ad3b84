//! The random numbers behind a noise source.

use vstd::prelude::*;

verus! {

/// A 64-bit xorshift generator.
#[derive(Debug, Clone, Copy)]
pub struct Xorshift {
    state: u64,
}

/// The state that follows a state.
pub open spec fn xorshift(s: u64) -> u64 {
    let a = s ^ (s << 13u64);
    let b = a ^ (a >> 7u64);
    b ^ (b << 17u64)
}

impl View for Xorshift {
    type V = u64;

    closed spec fn view(&self) -> u64 {
        self.state
    }
}

impl Xorshift {
    /// A generator with a seed. The seed 0, which would yield nothing else, is
    /// replaced by 1.
    pub fn new(seed: u64) -> (g: Self)
        ensures
            g@ == if seed == 0 {
                1
            } else {
                seed
            },
    {
        Xorshift {
            state: if seed == 0 {
                1
            } else {
                seed
            },
        }
    }

    /// Moves on and yields the low half of the state.
    pub fn next(&mut self) -> (lo: u32)
        ensures
            final(self)@ == xorshift(old(self)@),
            lo == final(self)@ % 0x1_0000_0000,
    {
        let s: u64 = self.state;
        let a: u64 = s ^ (s << 13u64);
        let b: u64 = a ^ (a >> 7u64);
        let c: u64 = b ^ (b << 17u64);
        self.state = c;
        assert((c & 0xffff_ffff) == c % 0x1_0000_0000) by (bit_vector);
        (c & 0xffff_ffff) as u32
    }
}

/// A generator never comes to the state 0, from which it would not move.
pub proof fn law_state_is_never_zero(s: u64)
    requires
        s != 0,
    ensures
        xorshift(s) != 0,
{
    assert(s ^ (s << 13u64) != 0) by (bit_vector)
        requires
            s != 0,
    ;
    let a = s ^ (s << 13u64);
    assert(a ^ (a >> 7u64) != 0) by (bit_vector)
        requires
            a != 0,
    ;
    let b = a ^ (a >> 7u64);
    assert(b ^ (b << 17u64) != 0) by (bit_vector)
        requires
            b != 0,
    ;
}

/// The generator is linear: the state behind the exclusive or of two states is the
/// exclusive or of the states behind them.
pub proof fn law_the_generator_is_linear(s: u64, t: u64)
    ensures
        xorshift(s ^ t) == xorshift(s) ^ xorshift(t),
{
    assert({
        let u = s ^ t;
        let a = s ^ (s << 13u64);
        let b = a ^ (a >> 7u64);
        let c = t ^ (t << 13u64);
        let d = c ^ (c >> 7u64);
        let e = u ^ (u << 13u64);
        let f = e ^ (e >> 7u64);
        f ^ (f << 17u64) == (b ^ (b << 17u64)) ^ (d ^ (d << 17u64))
    }) by (bit_vector);
}

/// No two states lead to the same state.
pub proof fn law_states_stay_apart(s: u64, t: u64)
    requires
        xorshift(s) == xorshift(t),
    ensures
        s == t,
{
    law_the_generator_is_linear(s, t);
    let u = s ^ t;
    let c = xorshift(s);
    assert(c ^ c == 0) by (bit_vector);
    if u != 0 {
        law_state_is_never_zero(u);
    }
    assert(s == t) by (bit_vector)
        requires
            s ^ t == 0,
    ;
}

/// The next state is the exclusive or of eight copies of the state, shifted by each choice
/// of 13 up, 7 down and 17 up, in that order.
pub proof fn law_the_next_state_is_made_of_shifts(s: u64)
    ensures
        xorshift(s) == s ^ (s << 13u64) ^ (s >> 7u64) ^ ((s << 13u64) >> 7u64) ^ (s << 17u64) ^ ((s
            << 13u64) << 17u64) ^ ((s >> 7u64) << 17u64) ^ (((s << 13u64) >> 7u64) << 17u64),
{
    assert({
        let a = s ^ (s << 13u64);
        let b = a ^ (a >> 7u64);
        b ^ (b << 17u64) == s ^ (s << 13u64) ^ (s >> 7u64) ^ ((s << 13u64) >> 7u64) ^ (s << 17u64)
            ^ ((s << 13u64) << 17u64) ^ ((s >> 7u64) << 17u64) ^ (((s << 13u64) >> 7u64) << 17u64)
    }) by (bit_vector);
}

} // verus!
