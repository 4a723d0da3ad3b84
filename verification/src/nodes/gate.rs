//! The hold of a noise gate.

use vstd::prelude::*;

verus! {

/// Keeps a gate open for a number of samples after the signal was last over the
/// threshold, for every channel by itself.
pub struct HoldGate {
    hold: usize,
    counters: Vec<usize>,
}

/// Whether a gate is open, with `left` samples of hold.
pub open spec fn gate_opens(left: usize, above: bool) -> bool {
    above || left > 0
}

/// What is left of the hold after a sample.
pub open spec fn hold_left(hold: usize, left: usize, above: bool) -> usize {
    if above {
        hold
    } else if left > 0 {
        (left - 1) as usize
    } else {
        0
    }
}

/// What is left of the hold after `n` samples under the threshold.
pub open spec fn hold_after_quiet(hold: usize, left: usize, n: nat) -> usize
    decreases n,
{
    if n == 0 {
        left
    } else {
        hold_left(hold, hold_after_quiet(hold, left, (n - 1) as nat), false)
    }
}

impl View for HoldGate {
    type V = Seq<usize>;

    closed spec fn view(&self) -> Seq<usize> {
        self.counters@
    }
}

impl HoldGate {
    /// Samples for which a channel is held open.
    pub closed spec fn spec_hold(&self) -> usize {
        self.hold
    }

    /// A gate that is closed in every channel.
    pub fn new(hold: usize, channels: u16) -> (gate: Self)
        ensures
            gate.spec_hold() == hold,
            gate@ == Seq::new(channels as nat, |c: int| 0usize),
    {
        let ch: usize = channels as usize;
        let mut counters: Vec<usize> = Vec::new();
        while counters.len() < ch
            invariant
                counters@.len() <= ch,
                forall|c: int| 0 <= c < counters@.len() ==> #[trigger] counters@[c] == 0,
            decreases ch - counters@.len(),
        {
            counters.push(0);
        }
        let gate = HoldGate { hold, counters };
        assert(gate@ =~= Seq::new(channels as nat, |c: int| 0usize));
        gate
    }

    /// Whether a channel is open for a sample, given whether the signal is over the
    /// threshold.
    pub fn step(&mut self, ch: usize, above: bool) -> (open: bool)
        requires
            ch < old(self)@.len(),
        ensures
            open == gate_opens(old(self)@[ch as int], above),
            final(self).spec_hold() == old(self).spec_hold(),
            final(self)@ == old(self)@.update(
                ch as int,
                hold_left(old(self).spec_hold(), old(self)@[ch as int], above),
            ),
    {
        let left: usize = self.counters[ch];
        if above {
            self.counters.set(ch, self.hold);
            true
        } else if left > 0 {
            self.counters.set(ch, left - 1);
            true
        } else {
            assert(self.counters@ =~= self.counters@.update(ch as int, 0));
            false
        }
    }
}

/// After a sample over the threshold a channel stays open for as many quiet samples
/// as it is held, and closes on the next.
pub proof fn law_gate_is_held(hold: usize, left: usize, n: nat)
    ensures
        gate_opens(
            hold_after_quiet(hold, hold_left(hold, left, true), n),
            false,
        ) <==> n < hold,
    decreases n,
{
    lemma_quiet(hold, n);
}

proof fn lemma_quiet(hold: usize, n: nat)
    ensures
        hold_after_quiet(hold, hold, n) == if n < hold {
            hold - n
        } else {
            0
        },
    decreases n,
{
    if n > 0 {
        lemma_quiet(hold, (n - 1) as nat);
    }
}

/// A channel is open while the signal is over the threshold, whatever came before. A
/// channel in which it never was is closed, and stays so.
pub proof fn law_the_threshold_opens_the_gate(hold: usize, left: usize, n: nat)
    ensures
        gate_opens(left, true),
        !gate_opens(hold_after_quiet(hold, 0, n), false),
        hold_left(hold, left, true) == hold,
    decreases n,
{
    if n > 0 {
        law_the_threshold_opens_the_gate(hold, left, (n - 1) as nat);
        lemma_stays_closed(hold, (n - 1) as nat);
    }
}

proof fn lemma_stays_closed(hold: usize, n: nat)
    ensures
        hold_after_quiet(hold, 0, n) == 0,
    decreases n,
{
    if n > 0 {
        lemma_stays_closed(hold, (n - 1) as nat);
    }
}

/// A quiet sample takes one from what is left of the hold, down to none.
pub proof fn law_quiet_samples_use_up_the_hold(hold: usize, left: usize)
    ensures
        left > 0 ==> hold_left(hold, left, false) + 1 == left,
        left > 0 ==> gate_opens(left, false),
        hold_left(hold, 0, false) == 0,
{
}

} // verus!
