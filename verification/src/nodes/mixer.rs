//! A mixing bus with a gain for each input.

use super::planar::{fill, lesser};
use vstd::prelude::*;

verus! {

/// Gains of the inputs of a bus.
pub struct MixerNode<T> {
    gains: Vec<T>,
    zero: T,
    channels: u16,
}

impl<T> View for MixerNode<T> {
    type V = Seq<T>;

    closed spec fn view(&self) -> Seq<T> {
        self.gains@
    }
}

impl<T: Copy> MixerNode<T> {
    /// The gain of an input that has none.
    pub closed spec fn spec_zero(&self) -> T {
        self.zero
    }

    /// Channels of its ports.
    pub closed spec fn spec_channels(&self) -> u16 {
        self.channels
    }

    /// The gain of input `i`.
    pub open spec fn gain_of(&self, i: int) -> T {
        if 0 <= i < self@.len() {
            self@[i]
        } else {
            self.spec_zero()
        }
    }

    /// A bus of `n` inputs. Gains beyond `n` are dropped, and missing ones are
    /// `zero`.
    pub fn new(n: usize, gains: Vec<T>, channels: u16, zero: T) -> (bus: Self)
        ensures
            bus.spec_zero() == zero,
            bus.spec_channels() == channels,
            bus@ == Seq::new(
                n as nat,
                |i: int|
                    if i < gains@.len() {
                        gains@[i]
                    } else {
                        zero
                    },
            ),
    {
        let ghost given = gains@;
        let mut g = gains;
        if g.len() > n {
            g.truncate(n);
        }
        while g.len() < n
            invariant
                g@.len() <= n,
                forall|i: int|
                    0 <= i < g@.len() ==> #[trigger] g@[i] == if i < given.len() {
                        given[i]
                    } else {
                        zero
                    },
                g@.len() >= given.len() || g@.len() == n,
            decreases n - g@.len(),
        {
            g.push(zero);
        }
        MixerNode { gains: g, zero, channels }
    }

    /// Number of inputs.
    pub fn inputs(&self) -> (n: usize)
        ensures
            n == self@.len(),
    {
        self.gains.len()
    }

    /// Channels of its ports.
    pub fn channels(&self) -> (n: u16)
        ensures
            n == self.spec_channels(),
    {
        self.channels
    }

    /// Sets the gain of an input. One that the bus does not have is ignored.
    pub fn set_gain(&mut self, input: usize, gain: T)
        ensures
            final(self)@ == if input < old(self)@.len() {
                old(self)@.update(input as int, gain)
            } else {
                old(self)@
            },
            final(self).spec_zero() == old(self).spec_zero(),
            final(self).spec_channels() == old(self).spec_channels(),
    {
        if input < self.gains.len() {
            self.gains.set(input, gain);
        }
    }

    /// The gain of an input.
    pub fn gain(&self, input: usize) -> (g: T)
        ensures
            g == self.gain_of(input as int),
    {
        if input < self.gains.len() {
            self.gains[input]
        } else {
            self.zero
        }
    }

    /// See [`MixerNode::add_input`].
    fn add<F: Fn(T, T, T) -> T>(
        &self,
        input: usize,
        samples: &[T],
        out: &mut Vec<T>,
        weigh: &F,
    )
        requires
            forall|a: T, x: T, g: T| weigh.requires((a, x, g)),
        ensures
            final(out)@.len() == old(out)@.len(),
            forall|k: int|
                0 <= k < lesser(samples@.len(), old(out)@.len()) ==> weigh.ensures(
                    (old(out)@[k], samples@[k], self.gain_of(input as int)),
                    #[trigger] final(out)@[k],
                ),
            forall|k: int|
                samples@.len() <= k < old(out)@.len() ==> #[trigger] final(out)@[k] == old(out)@[k],
    {
        let ghost start = out@;
        let g = self.gain(input);
        let mut k: usize = 0;
        while k < samples.len() && k < out.len()
            invariant
                k <= samples@.len(),
                k <= out@.len(),
                out@.len() == start.len(),
                g == self.gain_of(input as int),
                forall|a: T, x: T, w: T| weigh.requires((a, x, w)),
                forall|j: int|
                    0 <= j < k ==> weigh.ensures((start[j], samples@[j], g), #[trigger] out@[j]),
                forall|j: int| k <= j < out@.len() ==> #[trigger] out@[j] == start[j],
            decreases samples@.len() - k,
        {
            let y = weigh(out[k], samples[k], g);
            out.set(k, y);
            k = k + 1;
        }
    }

    /// Adds an input to the bus, as far as both reach. What `weigh` makes of a
    /// sample on the bus, one of the input and the gain comes onto the bus.
    pub fn add_input<F: Fn(T, T, T) -> T>(
        &self,
        input: usize,
        samples: &[T],
        out: &mut Vec<T>,
        weigh: F,
    )
        requires
            forall|a: T, x: T, g: T| weigh.requires((a, x, g)),
        ensures
            final(out)@.len() == old(out)@.len(),
            forall|k: int|
                0 <= k < lesser(samples@.len(), old(out)@.len()) ==> weigh.ensures(
                    (old(out)@[k], samples@[k], self.gain_of(input as int)),
                    #[trigger] final(out)@[k],
                ),
            forall|k: int|
                samples@.len() <= k < old(out)@.len() ==> #[trigger] final(out)@[k] == old(out)@[k],
    {
        self.add(input, samples, out, &weigh);
    }

    /// Mixes inputs: the bus is silenced, and then each input is added with its gain, as
    /// [`MixerNode::add_input`] does, from the first on. `input` gives an input.
    pub fn mix<'a, G: Fn(usize) -> &'a [T], F: Fn(T, T, T) -> T>(
        &self,
        count: usize,
        input: G,
        out: &mut Vec<T>,
        silence: T,
        weigh: F,
    ) where T: 'a
        requires
            forall|i: usize| i < count ==> input.requires((i,)),
            forall|a: T, x: T, g: T| weigh.requires((a, x, g)),
        ensures
            final(out)@.len() == old(out)@.len(),
            exists|inputs: Seq<&'a [T]>| #[trigger]
                are_given(input, count, inputs) && is_mix(self, inputs, silence, weigh, final(out)@),
    {
        fill(out, silence);
        let ghost mut inputs: Seq<&'a [T]> = Seq::empty();
        let ghost n = out@.len();
        let mut i: usize = 0;
        while i < count
            invariant
                i <= count,
                out@.len() == n,
                forall|i: usize| i < count ==> input.requires((i,)),
                forall|a: T, x: T, g: T| weigh.requires((a, x, g)),
                are_given(input, i, inputs),
                is_mix(self, inputs, silence, weigh, out@),
            decreases count - i,
        {
            let samples = input(i);
            let ghost before = out@;
            let ghost given = inputs;
            self.add(i, samples, out, &weigh);
            proof {
                inputs = inputs.push(samples);
                assert(inputs.drop_last() =~= given);
                assert forall|k: int| 0 <= k < n implies comes_to(
                    self,
                    inputs,
                    silence,
                    weigh,
                    k,
                    #[trigger] out@[k],
                ) by {
                    assert(comes_to(self, given, silence, weigh, k, before[k]));
                    assert(inputs[i as int]@ == samples@);
                    assert(takes_on(
                        weigh,
                        samples@,
                        self.gain_of(i as int),
                        k,
                        before[k],
                        out@[k],
                    ));
                }
            }
            i = i + 1;
        }
    }
}

/// Whether these are inputs that `input` gave.
pub open spec fn are_given<'a, T: 'a, G: Fn(usize) -> &'a [T]>(
    input: G,
    count: usize,
    inputs: Seq<&'a [T]>,
) -> bool {
    &&& inputs.len() == count
    &&& forall|i: int| 0 <= i < count ==> input.ensures((i as usize,), #[trigger] inputs[i])
}

/// Whether sample `k` of a bus goes from `before` to `after` as an input is added with a
/// gain. It stays where the input does not reach.
pub open spec fn takes_on<T, F: Fn(T, T, T) -> T>(
    weigh: F,
    samples: Seq<T>,
    gain: T,
    k: int,
    before: T,
    after: T,
) -> bool {
    if k < samples.len() {
        weigh.ensures((before, samples[k], gain), after)
    } else {
        after == before
    }
}

/// Whether sample `k` of a bus comes to `value` with these inputs: silence, to which each
/// input that reaches so far was added with its gain.
pub open spec fn comes_to<T: Copy, F: Fn(T, T, T) -> T>(
    bus: &MixerNode<T>,
    inputs: Seq<&[T]>,
    silence: T,
    weigh: F,
    k: int,
    value: T,
) -> bool
    decreases inputs.len(),
{
    if inputs.len() == 0 {
        value == silence
    } else {
        let last = inputs.len() - 1;
        exists|before: T|
            comes_to(bus, inputs.drop_last(), silence, weigh, k, before) && #[trigger] takes_on(
                weigh,
                inputs[last]@,
                bus.gain_of(last),
                k,
                before,
                value,
            )
    }
}

/// Whether a bus holds the mix of these inputs.
pub open spec fn is_mix<T: Copy, F: Fn(T, T, T) -> T>(
    bus: &MixerNode<T>,
    inputs: Seq<&[T]>,
    silence: T,
    weigh: F,
    out: Seq<T>,
) -> bool {
    forall|k: int|
        0 <= k < out.len() ==> comes_to(bus, inputs, silence, weigh, k, #[trigger] out[k])
}

/// An input has the gain that the bus holds for it, and none where the bus holds none.
pub proof fn law_gains_of_inputs<T: Copy>(bus: &MixerNode<T>, i: int)
    ensures
        0 <= i < bus@.len() ==> bus.gain_of(i) == bus@[i],
        i >= bus@.len() ==> bus.gain_of(i) == bus.spec_zero(),
{
}

/// Whether the values `steps` lead from silence to the mix of sample `k`, one input after
/// the other: an input that reaches so far is added with its gain, and another leaves the
/// value as it is.
pub open spec fn adds_up<T: Copy, F: Fn(T, T, T) -> T>(
    bus: &MixerNode<T>,
    inputs: Seq<&[T]>,
    silence: T,
    weigh: F,
    k: int,
    steps: Seq<T>,
) -> bool {
    &&& steps.len() == inputs.len() + 1
    &&& steps[0] == silence
    &&& forall|i: int|
        #![trigger inputs[i]]
        0 <= i < inputs.len() ==> if k < inputs[i]@.len() {
            weigh.ensures(
                (
                    steps[i],
                    inputs[i]@[k],
                    if i < bus@.len() {
                        bus@[i]
                    } else {
                        bus.spec_zero()
                    },
                ),
                steps[i + 1],
            )
        } else {
            steps[i + 1] == steps[i]
        }
}

/// Each sample of a mix is what is reached from silence by adding every input once, in
/// their order, with its gain, as far as the input reaches.
pub proof fn law_every_input_is_added_once<T: Copy, F: Fn(T, T, T) -> T>(
    bus: &MixerNode<T>,
    inputs: Seq<&[T]>,
    silence: T,
    weigh: F,
    out: Seq<T>,
    k: int,
)
    requires
        is_mix(bus, inputs, silence, weigh, out),
        0 <= k < out.len(),
    ensures
        exists|steps: Seq<T>| #[trigger]
            adds_up(bus, inputs, silence, weigh, k, steps) && steps.last() == out[k],
{
    assert(comes_to(bus, inputs, silence, weigh, k, out[k]));
    let steps = lemma_steps(bus, inputs, silence, weigh, k, out[k]);
    assert(adds_up(bus, inputs, silence, weigh, k, steps));
}

proof fn lemma_steps<T: Copy, F: Fn(T, T, T) -> T>(
    bus: &MixerNode<T>,
    inputs: Seq<&[T]>,
    silence: T,
    weigh: F,
    k: int,
    value: T,
) -> (steps: Seq<T>)
    requires
        comes_to(bus, inputs, silence, weigh, k, value),
    ensures
        adds_up(bus, inputs, silence, weigh, k, steps),
        steps.last() == value,
    decreases inputs.len(),
{
    if inputs.len() == 0 {
        seq![silence]
    } else {
        let last = inputs.len() - 1;
        let rest = inputs.drop_last();
        let before = choose|before: T|
            comes_to(bus, rest, silence, weigh, k, before) && #[trigger] takes_on(
                weigh,
                inputs[last]@,
                bus.gain_of(last),
                k,
                before,
                value,
            );
        let front = lemma_steps(bus, rest, silence, weigh, k, before);
        let steps = front.push(value);
        assert forall|i: int|
            #![trigger inputs[i]]
            0 <= i < inputs.len() implies if k < inputs[i]@.len() {
            weigh.ensures(
                (
                    steps[i],
                    inputs[i]@[k],
                    if i < bus@.len() {
                        bus@[i]
                    } else {
                        bus.spec_zero()
                    },
                ),
                steps[i + 1],
            )
        } else {
            steps[i + 1] == steps[i]
        } by {
            if i < last {
                assert(rest[i] == inputs[i]);
            }
        }
        steps
    }
}

/// Without an input a mix is silent, whatever stood there before.
pub proof fn law_no_input_is_silence<T: Copy, F: Fn(T, T, T) -> T>(
    bus: &MixerNode<T>,
    silence: T,
    weigh: F,
    out: Seq<T>,
    k: int,
)
    requires
        is_mix(bus, Seq::<&[T]>::empty(), silence, weigh, out),
        0 <= k < out.len(),
    ensures
        out[k] == silence,
{
    assert(comes_to(bus, Seq::<&[T]>::empty(), silence, weigh, k, out[k]));
}

} // verus!
