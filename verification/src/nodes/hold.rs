//! Sample and hold, and the levels of a bit depth.

use super::kinds::{clamp_count, clamped};
use super::planar::ChannelProcessor;
use vstd::arithmetic::power2::pow2;
use vstd::prelude::*;

verus! {

/// The greatest hold, in samples.
pub const MAX_HOLD: usize = 256;

/// The greatest bit depth.
pub const MAX_BITS: u32 = 16;

/// What one channel holds.
pub struct Held<T> {
    /// The sample that is held.
    pub value: T,
    /// Samples since it was taken.
    pub age: nat,
}

impl<T> Held<T> {
    /// What is held after a sample, where every `hold`-th one is taken.
    pub open spec fn next(self, hold: nat, x: T) -> Held<T> {
        Held {
            value: if self.age == 0 {
                x
            } else {
                self.value
            },
            age: if self.age + 1 >= hold {
                0
            } else {
                self.age + 1
            },
        }
    }

    /// What is held after some samples.
    pub open spec fn after(self, hold: nat, xs: Seq<T>) -> Held<T>
        decreases xs.len(),
    {
        if xs.len() == 0 {
            self
        } else {
            self.after(hold, xs.drop_last()).next(hold, xs.last())
        }
    }
}

/// Takes every `hold`-th sample of a channel and repeats it in between.
pub struct SampleHold<T> {
    hold: usize,
    values: Vec<T>,
    ages: Vec<usize>,
}

impl<T> View for SampleHold<T> {
    type V = Seq<Held<T>>;

    closed spec fn view(&self) -> Seq<Held<T>> {
        Seq::new(self.values@.len(), |c: int| Held { value: self.values@[c], age: self.ages@[c] as nat })
    }
}

impl<T: Copy> SampleHold<T> {
    /// Samples for which one is held.
    pub closed spec fn spec_hold(&self) -> nat {
        self.hold as nat
    }

    /// That every channel has an age within the hold.
    pub closed spec fn is_wf(&self) -> bool {
        &&& 1 <= self.hold
        &&& self.values@.len() == self.ages@.len()
        &&& forall|c: int| 0 <= c < self.ages@.len() ==> (#[trigger] self.ages@[c]) < self.hold
    }

    /// A hold for each channel, and at least one. The number of samples is brought
    /// into the range from one to `MAX_HOLD`.
    pub fn new(hold: usize, channels: u16, silence: T) -> (s: Self)
        ensures
            s.is_wf(),
            s.spec_hold() == clamped(hold as int, 1, MAX_HOLD as int),
            s@ == Seq::new(
                if channels == 0 {
                    1
                } else {
                    channels as nat
                },
                |c: int| Held { value: silence, age: 0 },
            ),
    {
        let ch: usize = if channels == 0 {
            1
        } else {
            channels as usize
        };
        let mut values: Vec<T> = Vec::new();
        let mut ages: Vec<usize> = Vec::new();
        while values.len() < ch
            invariant
                values@.len() <= ch,
                values@.len() == ages@.len(),
                forall|c: int| 0 <= c < values@.len() ==> #[trigger] values@[c] == silence,
                forall|c: int| 0 <= c < ages@.len() ==> #[trigger] ages@[c] == 0,
            decreases ch - values@.len(),
        {
            values.push(silence);
            ages.push(0);
        }
        let s = SampleHold { hold: clamp_count(hold, 1, MAX_HOLD), values, ages };
        assert(s@ =~= Seq::new(ch as nat, |c: int| Held { value: silence, age: 0 }));
        s
    }
}

impl<T: Copy> ChannelProcessor<T> for SampleHold<T> {
    type State = (Seq<Held<T>>, nat);

    open spec fn wf(&self) -> bool {
        self.is_wf()
    }

    open spec fn state(&self) -> (Seq<Held<T>>, nat) {
        (self@, self.spec_hold())
    }

    open spec fn channels_of(s: (Seq<Held<T>>, nat)) -> usize {
        s.0.len() as usize
    }

    open spec fn next(s: (Seq<Held<T>>, nat), ch: usize, x: T) -> ((Seq<Held<T>>, nat), T) {
        let held = s.0[ch as int].next(s.1, x);
        ((s.0.update(ch as int, held), s.1), held.value)
    }

    fn process_sample(&mut self, x: T, ch: usize) -> (y: T) {
        let ghost before = *self;
        let age: usize = self.ages[ch];
        if age == 0 {
            self.values.set(ch, x);
        }
        let next: usize = if age + 1 == self.hold {
            0
        } else {
            age + 1
        };
        self.ages.set(ch, next);
        let y = self.values[ch];
        assert(self@ =~= before@.update(ch as int, before@[ch as int].next(self.hold as nat, x)));
        y
    }
}

/// Bits of a depth, brought into the range from one to `MAX_BITS`.
pub fn depth(bits: u32) -> (b: u32)
    ensures
        b == clamped(bits as int, 1, MAX_BITS as int),
{
    if bits < 1 {
        1
    } else if bits > MAX_BITS {
        MAX_BITS
    } else {
        bits
    }
}

/// Levels that a number of bits can tell apart.
pub fn levels(bits: u32) -> (n: u32)
    requires
        bits <= MAX_BITS,
    ensures
        n == pow2(bits as nat),
        n <= 65536,
{
    proof {
        vstd::arithmetic::power2::lemma2_to64();
        if bits < MAX_BITS {
            vstd::arithmetic::power2::lemma_pow2_strictly_increases(bits as nat, 16);
        }
        vstd::bits::lemma_u32_shl_is_mul(1, bits);
    }
    1u32 << bits
}

/// Out of each run of `hold` samples the first one is repeated.
pub proof fn law_runs_repeat<T>(start: Held<T>, hold: nat, xs: Seq<T>)
    requires
        hold >= 1,
        start.age == 0,
        0 < xs.len(),
    ensures
        start.after(hold, xs).value == xs[(xs.len() - 1) / (hold as int) * hold],
        start.after(hold, xs).age == xs.len() % hold,
    decreases xs.len(),
{
    let n = xs.len() as int;
    let h = hold as int;
    let rest = xs.drop_last();
    vstd::arithmetic::div_mod::lemma_fundamental_div_mod(n - 1, h);
    vstd::arithmetic::div_mod::lemma_mod_bound(n - 1, h);
    let q = (n - 1) / h;
    assert(h * q == q * h) by (nonlinear_arith);
    if n == 1 {
        assert(start.after(hold, rest) == start);
        vstd::arithmetic::div_mod::lemma_small_mod(0, hold);
    } else {
        law_runs_repeat(start, hold, rest);
    }
    let before = start.after(hold, rest);
    assert(before.age == (n - 1) % h);
    if (n - 1) % h + 1 == h {
        assert((q + 1) * h == q * h + h) by (nonlinear_arith);
        vstd::arithmetic::div_mod::lemma_fundamental_div_mod_converse(n, h, q + 1, 0);
    } else {
        vstd::arithmetic::div_mod::lemma_fundamental_div_mod_converse(n, h, q, (n - 1) % h + 1);
    }
    if before.age != 0 {
        vstd::arithmetic::div_mod::lemma_fundamental_div_mod_converse(n - 2, h, q, (n - 1) % h - 1);
        assert(0 <= q * h) by (nonlinear_arith)
            requires
                q * h == (n - 1) - (n - 1) % h,
                (n - 1) % h < h,
                n >= 1,
                q == (n - 1) / h,
                h > 0,
        ;
        assert(rest[q * h] == xs[q * h]);
    }
}

/// A sample of a channel is taken where the last one is as old as the hold, and else the
/// last one is repeated; the other channels stay as they are.
pub proof fn law_a_sample_is_taken_or_repeated<T: Copy>(
    s: (Seq<Held<T>>, nat),
    ch: usize,
    x: T,
    start: Held<T>,
    xs: Seq<T>,
    d: int,
)
    requires
        ch < s.0.len(),
        s.1 >= 1,
        start.age == 0,
        s.0[ch as int] == start.after(s.1, xs),
    ensures
        ({
            let (after, y) = <SampleHold<T> as ChannelProcessor<T>>::next(s, ch, x);
            let all = xs.push(x);
            &&& y == all[xs.len() as int / (s.1 as int) * s.1]
            &&& after.0[ch as int] == start.after(s.1, all)
            &&& after.0.len() == s.0.len()
            &&& 0 <= d < s.0.len() && d != ch ==> after.0[d] == s.0[d]
            &&& after.1 == s.1
        }),
{
    let all = xs.push(x);
    assert(all.drop_last() =~= xs);
    law_runs_repeat(start, s.1, all);
}

} // verus!
