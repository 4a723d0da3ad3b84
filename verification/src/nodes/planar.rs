//! Walking planar blocks: all samples of channel 0, then all of channel 1, and so
//! on.

use vstd::prelude::*;

verus! {

/// The lesser of two counts.
pub open spec fn lesser(a: nat, b: nat) -> nat {
    if a < b {
        a
    } else {
        b
    }
}

/// Frames per channel of `n` samples.
pub open spec fn frames_of(n: nat, channels: u16) -> nat {
    if channels == 0 {
        0
    } else {
        n / (channels as nat)
    }
}

/// Copies the samples of `input` over those of `out`, as far as both reach.
pub fn copy_samples<T: Copy>(input: &[T], out: &mut Vec<T>)
    ensures
        final(out)@.len() == old(out)@.len(),
        forall|i: int|
            0 <= i < old(out)@.len() ==> #[trigger] final(out)@[i] == if i < input@.len() {
                input@[i]
            } else {
                old(out)@[i]
            },
{
    let ghost start = out@;
    let mut i: usize = 0;
    while i < input.len() && i < out.len()
        invariant
            i <= input@.len(),
            i <= out@.len(),
            out@.len() == start.len(),
            forall|k: int|
                0 <= k < out@.len() ==> #[trigger] out@[k] == if k < i {
                    input@[k]
                } else {
                    start[k]
                },
        decreases input@.len() - i,
    {
        out.set(i, input[i]);
        i = i + 1;
    }
}

/// Sets every sample to `value`.
pub fn fill<T: Copy>(out: &mut Vec<T>, value: T)
    ensures
        final(out)@.len() == old(out)@.len(),
        forall|i: int| 0 <= i < old(out)@.len() ==> #[trigger] final(out)@[i] == value,
{
    let n: usize = out.len();
    let mut i: usize = 0;
    while i < n
        invariant
            i <= n,
            out@.len() == n,
            forall|k: int| 0 <= k < i ==> #[trigger] out@[k] == value,
        decreases n - i,
    {
        out.set(i, value);
        i = i + 1;
    }
}

/// Works on one sample after another, with a state of its own for every channel.
pub trait ChannelProcessor<T>: Sized {
    /// What is remembered from one sample to the next.
    type State;

    /// That what is kept fits together.
    spec fn wf(&self) -> bool;

    /// What is remembered.
    spec fn state(&self) -> Self::State;

    /// Channels that there is a state for.
    spec fn channels_of(s: Self::State) -> usize;

    /// The state after a sample of a channel, and what comes out.
    spec fn next(s: Self::State, ch: usize, x: T) -> (Self::State, T);

    /// Works on a sample of a channel.
    fn process_sample(&mut self, x: T, ch: usize) -> (y: T)
        requires
            old(self).wf(),
            ch < Self::channels_of(old(self).state()),
        ensures
            final(self).wf(),
            (final(self).state(), y) == Self::next(old(self).state(), ch, x),
            Self::channels_of(final(self).state()) == Self::channels_of(old(self).state()),
    ;
}

/// The state after the first `k` samples of a block, and what came out.
pub open spec fn planar_run<T, P: ChannelProcessor<T>>(
    s: P::State,
    input: Seq<T>,
    per_ch: nat,
    k: nat,
) -> (P::State, Seq<T>)
    decreases k,
{
    if k == 0 {
        (s, Seq::empty())
    } else {
        let before = planar_run::<T, P>(s, input, per_ch, (k - 1) as nat);
        let step = P::next(before.0, ((k - 1) / (per_ch as int)) as usize, input[k - 1]);
        (step.0, before.1.push(step.1))
    }
}

/// Works on a block, channel after channel. Of a block that does not divide evenly
/// among the channels the rest stays, as does what is beyond the shorter of the
/// two blocks.
pub fn process_planar<T: Copy, P: ChannelProcessor<T>>(
    p: &mut P,
    channels: u16,
    input: &[T],
    out: &mut Vec<T>,
)
    requires
        old(p).wf(),
        channels <= P::channels_of(old(p).state()),
    ensures
        final(p).wf(),
        P::channels_of(final(p).state()) == P::channels_of(old(p).state()),
        ({
            let per_ch = frames_of(lesser(input@.len(), old(out)@.len()), channels);
            let total = channels as nat * per_ch;
            let run = planar_run::<T, P>(old(p).state(), input@, per_ch, total);
            &&& final(p).state() == run.0
            &&& final(out)@ == run.1 + old(out)@.skip(total as int)
        }),
{
    let ghost start = p.state();
    let ghost before = out@;
    let n: usize = if input.len() < out.len() {
        input.len()
    } else {
        out.len()
    };
    if channels == 0 || n == 0 {
        proof {
            let per_ch = frames_of(n as nat, channels);
            assert(channels as nat * per_ch == 0) by (nonlinear_arith)
                requires
                    channels == 0 || per_ch == 0,
            ;
            assert(Seq::<T>::empty() + before.skip(0) =~= before);
        }
        return ;
    }
    let ch: usize = channels as usize;
    let per_ch: usize = n / ch;
    let ghost pc = per_ch as nat;
    proof {
        assert(ch * per_ch <= n) by (nonlinear_arith)
            requires
                per_ch == n / ch,
                ch > 0,
        ;
        assert(before.skip(0) =~= before);
        assert(Seq::<T>::empty() + before.skip(0) =~= before);
    }
    let mut c: usize = 0;
    while c < ch
        invariant
            c <= ch,
            ch == channels,
            p.wf(),
            ch <= P::channels_of(p.state()),
            P::channels_of(p.state()) == P::channels_of(start),
            pc == per_ch,
            n <= input@.len(),
            n <= before.len(),
            0 <= c * per_ch <= ch * per_ch <= n,
            ({
                let run = planar_run::<T, P>(start, input@, pc, (c * per_ch) as nat);
                &&& p.state() == run.0
                &&& run.1.len() == c * per_ch
                &&& out@ == run.1 + before.skip(c * per_ch)
            }),
        decreases ch - c,
    {
        let offset: usize = c * per_ch;
        proof {
            assert((c + 1) * per_ch == c * per_ch + per_ch) by (nonlinear_arith);
            assert((c + 1) * per_ch <= ch * per_ch) by (nonlinear_arith)
                requires
                    c < ch,
                    per_ch >= 0,
            ;
        }
        let mut i: usize = 0;
        while i < per_ch
            invariant
                c < ch,
                p.wf(),
                ch <= P::channels_of(p.state()),
                P::channels_of(p.state()) == P::channels_of(start),
                pc == per_ch,
                i <= per_ch,
                n <= input@.len(),
                n <= before.len(),
                offset == c * per_ch,
                offset + per_ch <= n,
                ({
                    let run = planar_run::<T, P>(start, input@, pc, (offset + i) as nat);
                    &&& p.state() == run.0
                    &&& run.1.len() == offset + i
                    &&& out@ == run.1 + before.skip(offset + i)
                }),
            decreases per_ch - i,
        {
            let idx: usize = offset + i;
            let ghost run = planar_run::<T, P>(start, input@, pc, idx as nat);
            proof {
                vstd::arithmetic::div_mod::lemma_fundamental_div_mod_converse(
                    idx as int,
                    per_ch as int,
                    c as int,
                    i as int,
                );
                assert(idx as int / per_ch as int == c);
            }
            let y = p.process_sample(input[idx], c);
            proof {
                let next = planar_run::<T, P>(start, input@, pc, (idx + 1) as nat);
                assert(next == (p.state(), run.1.push(y)));
                assert((run.1 + before.skip(idx as int)).update(idx as int, y) =~= run.1.push(y)
                    + before.skip(idx + 1));
            }
            out.set(idx, y);
            i = i + 1;
        }
        c = c + 1;
    }
}

/// Fills a block, channel after channel, with what comes out when silence goes in,
/// as a source does. Of a block that does not divide evenly among the channels the
/// rest stays.
pub fn generate_planar<T: Copy, P: ChannelProcessor<T>>(
    p: &mut P,
    channels: u16,
    silence: T,
    out: &mut Vec<T>,
)
    requires
        old(p).wf(),
        channels <= P::channels_of(old(p).state()),
    ensures
        final(p).wf(),
        P::channels_of(final(p).state()) == P::channels_of(old(p).state()),
        ({
            let per_ch = frames_of(old(out)@.len(), channels);
            let total = channels as nat * per_ch;
            let quiet = Seq::new(total, |i: int| silence);
            let run = planar_run::<T, P>(old(p).state(), quiet, per_ch, total);
            &&& final(p).state() == run.0
            &&& final(out)@ == run.1 + old(out)@.skip(total as int)
        }),
{
    let ghost start = p.state();
    let ghost before = out@;
    let n: usize = out.len();
    if channels == 0 {
        proof {
            assert(channels as nat * frames_of(n as nat, channels) == 0) by (nonlinear_arith)
                requires
                    channels == 0,
            ;
            assert(Seq::<T>::empty() + before.skip(0) =~= before);
        }
        return ;
    }
    let ch: usize = channels as usize;
    let per_ch: usize = n / ch;
    let ghost pc = per_ch as nat;
    let ghost total = channels as nat * pc;
    let ghost quiet = Seq::new(total, |i: int| silence);
    proof {
        assert(ch * per_ch <= n) by (nonlinear_arith)
            requires
                per_ch == n / ch,
                ch > 0,
        ;
        assert(Seq::<T>::empty() + before.skip(0) =~= before);
    }
    let mut c: usize = 0;
    while c < ch
        invariant
            c <= ch,
            ch == channels,
            p.wf(),
            ch <= P::channels_of(p.state()),
            P::channels_of(p.state()) == P::channels_of(start),
            pc == per_ch,
            n == before.len(),
            total == ch * per_ch,
            quiet == Seq::new(total, |i: int| silence),
            0 <= c * per_ch <= ch * per_ch <= n,
            ({
                let run = planar_run::<T, P>(start, quiet, pc, (c * per_ch) as nat);
                &&& p.state() == run.0
                &&& run.1.len() == c * per_ch
                &&& out@ == run.1 + before.skip(c * per_ch)
            }),
        decreases ch - c,
    {
        let offset: usize = c * per_ch;
        proof {
            assert((c + 1) * per_ch == c * per_ch + per_ch) by (nonlinear_arith);
            assert((c + 1) * per_ch <= ch * per_ch) by (nonlinear_arith)
                requires
                    c < ch,
                    per_ch >= 0,
            ;
        }
        let mut i: usize = 0;
        while i < per_ch
            invariant
                c < ch,
                p.wf(),
                ch <= P::channels_of(p.state()),
                P::channels_of(p.state()) == P::channels_of(start),
                pc == per_ch,
                i <= per_ch,
                n == before.len(),
                quiet == Seq::new(total, |i: int| silence),
                offset == c * per_ch,
                offset + per_ch <= total <= n,
                ({
                    let run = planar_run::<T, P>(start, quiet, pc, (offset + i) as nat);
                    &&& p.state() == run.0
                    &&& run.1.len() == offset + i
                    &&& out@ == run.1 + before.skip(offset + i)
                }),
            decreases per_ch - i,
        {
            let idx: usize = offset + i;
            let ghost run = planar_run::<T, P>(start, quiet, pc, idx as nat);
            proof {
                vstd::arithmetic::div_mod::lemma_fundamental_div_mod_converse(
                    idx as int,
                    per_ch as int,
                    c as int,
                    i as int,
                );
                assert(idx as int / per_ch as int == c);
                assert(quiet[idx as int] == silence);
            }
            let y = p.process_sample(silence, c);
            proof {
                let next = planar_run::<T, P>(start, quiet, pc, (idx + 1) as nat);
                assert(next == (p.state(), run.1.push(y)));
                assert((run.1 + before.skip(idx as int)).update(idx as int, y) =~= run.1.push(y)
                    + before.skip(idx + 1));
            }
            out.set(idx, y);
            i = i + 1;
        }
        c = c + 1;
    }
}

/// That the `i`-th samples of the two halves of a block came out of `f`.
pub open spec fn pair_mapped<T, F: Fn(T, T) -> (T, T)>(
    f: F,
    input: Seq<T>,
    out: Seq<T>,
    half: int,
    i: int,
) -> bool {
    f.ensures((input[i], input[half + i]), (out[i], out[half + i]))
}

/// Works on pairs of samples, one of each half of a planar stereo block, as a
/// width control does. A block that is not stereo is copied, as is what does not
/// divide evenly.
pub fn map_stereo<T: Copy, F: Fn(T, T) -> (T, T)>(
    channels: u16,
    input: &[T],
    out: &mut Vec<T>,
    f: F,
)
    requires
        forall|l: T, r: T| f.requires((l, r)),
    ensures
        final(out)@.len() == old(out)@.len(),
        ({
            let n = lesser(input@.len(), old(out)@.len());
            let half = n / 2;
            &&& forall|i: int|
                n <= i < old(out)@.len() ==> #[trigger] final(out)@[i] == old(out)@[i]
            &&& channels != 2 ==> forall|i: int|
                0 <= i < n ==> #[trigger] final(out)@[i] == input@[i]
            &&& channels == 2 ==> forall|i: int|
                2 * half <= i < n ==> #[trigger] final(out)@[i] == input@[i]
            &&& channels == 2 ==> forall|i: int|
                0 <= i < half ==> #[trigger] pair_mapped(f, input@, final(out)@, half as int, i)
        }),
{
    let ghost before = out@;
    copy_samples(input, out);
    let n: usize = if input.len() < out.len() {
        input.len()
    } else {
        out.len()
    };
    if channels != 2 {
        return ;
    }
    let half: usize = n / 2;
    let mut i: usize = 0;
    while i < half
        invariant
            i <= half,
            half == n / 2,
            n <= input@.len(),
            n <= out@.len(),
            out@.len() == before.len(),
            forall|l: T, r: T| f.requires((l, r)),
            forall|k: int| n <= k < before.len() ==> #[trigger] out@[k] == before[k],
            forall|k: int| 2 * half <= k < n ==> #[trigger] out@[k] == input@[k],
            forall|k: int|
                0 <= k < i ==> #[trigger] pair_mapped(f, input@, out@, half as int, k),
        decreases half - i,
    {
        let ghost done = out@;
        let (l, r) = f(input[i], input[half + i]);
        out.set(i, l);
        out.set(half + i, r);
        proof {
            assert forall|k: int| 0 <= k < i + 1 implies #[trigger] pair_mapped(
                f,
                input@,
                out@,
                half as int,
                k,
            ) by {
                if k < i {
                    assert(pair_mapped(f, input@, done, half as int, k));
                    assert(out@[k] == done[k]);
                    assert(out@[half + k] == done[half + k]);
                }
            }
        }
        i = i + 1;
    }
}

/// Works on each sample by itself, as far as both blocks reach.
pub fn map_samples<T: Copy, F: Fn(T) -> T>(input: &[T], out: &mut Vec<T>, f: F)
    requires
        forall|x: T| f.requires((x,)),
    ensures
        final(out)@.len() == old(out)@.len(),
        forall|i: int|
            0 <= i < lesser(input@.len(), old(out)@.len()) ==> f.ensures(
                (input@[i],),
                #[trigger] final(out)@[i],
            ),
        forall|i: int|
            input@.len() <= i < old(out)@.len() ==> #[trigger] final(out)@[i] == old(out)@[i],
{
    let ghost start = out@;
    let mut i: usize = 0;
    while i < input.len() && i < out.len()
        invariant
            i <= input@.len(),
            i <= out@.len(),
            out@.len() == start.len(),
            forall|x: T| f.requires((x,)),
            forall|k: int| 0 <= k < i ==> f.ensures((input@[k],), #[trigger] out@[k]),
            forall|k: int| i <= k < out@.len() ==> #[trigger] out@[k] == start[k],
        decreases input@.len() - i,
    {
        let y = f(input[i]);
        out.set(i, y);
        i = i + 1;
    }
}

/// The lesser of two counts is one of them, and none is less.
pub proof fn law_lesser(a: nat, b: nat)
    ensures
        lesser(a, b) <= a,
        lesser(a, b) <= b,
        lesser(a, b) == a || lesser(a, b) == b,
{
}

/// A block has as many frames as it has whole samples for every channel, and none without
/// channels.
pub proof fn law_frames_of_a_block(n: nat, channels: u16)
    ensures
        channels > 0 ==> channels * frames_of(n, channels) <= n < channels * (frames_of(n, channels)
            + 1),
        channels == 0 ==> frames_of(n, channels) == 0,
{
    if channels > 0 {
        let ch = channels as int;
        vstd::arithmetic::div_mod::lemma_fundamental_div_mod(n as int, ch);
        vstd::arithmetic::div_mod::lemma_mod_bound(n as int, ch);
        assert(ch * (n as int / ch + 1) == ch * (n as int / ch) + ch) by (nonlinear_arith);
    }
}

/// A block is worked on sample by sample, from the first to the last: sample `i` of
/// channel `c` meets the state that all samples before it have left, as a sample of that
/// channel, and what comes out takes its place.
pub proof fn law_samples_are_worked_on_in_order<T, P: ChannelProcessor<T>>(
    s: P::State,
    input: Seq<T>,
    per_ch: nat,
    c: usize,
    i: nat,
)
    requires
        i < per_ch,
    ensures
        planar_run::<T, P>(s, input, per_ch, 0) == (s, Seq::<T>::empty()),
        ({
            let k = c * per_ch + i;
            let before = planar_run::<T, P>(s, input, per_ch, k as nat);
            let after = planar_run::<T, P>(s, input, per_ch, (k + 1) as nat);
            let step = P::next(before.0, c, input[k]);
            &&& after.0 == step.0
            &&& after.1 == before.1.push(step.1)
        }),
{
    let k = c * per_ch + i;
    assert(0 <= c * per_ch) by (nonlinear_arith)
        requires
            c >= 0,
            per_ch >= 0,
    ;
    vstd::arithmetic::div_mod::lemma_fundamental_div_mod_converse(
        k,
        per_ch as int,
        c as int,
        i as int,
    );
}

/// A pair of samples that lie at the same place of the two halves of a block comes out at
/// the same two places.
pub proof fn law_pairs_stay_in_place<T, F: Fn(T, T) -> (T, T)>(
    f: F,
    input: Seq<T>,
    out: Seq<T>,
    half: int,
    i: int,
)
    requires
        pair_mapped(f, input, out, half, i),
    ensures
        f.ensures((input[i], input[i + half]), (out[i], out[i + half])),
{
}

} // verus!
