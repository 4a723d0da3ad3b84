//! Routing the channels of a frame: swap, mute, pan, mono and stereo.

use super::planar::{copy_samples, lesser};
use vstd::prelude::*;

verus! {

/// What to do with the first two channels of a frame.
#[derive(Debug, Clone, Copy, PartialEq)]
pub enum ChannelMode<P> {
    /// Leave them as they are.
    Passthrough,
    /// Exchange them.
    Swap,
    /// Silence the left one.
    MuteLeft,
    /// Silence the right one.
    MuteRight,
    /// Weigh them by a position between left and right.
    Pan(P),
    /// Copy the left one over the right one.
    MonoToStereo,
    /// Replace both by their mean.
    StereoToMono,
}

/// Routes the first two channels of each frame.
pub struct ChannelMapNode<P> {
    channels: u16,
    mode: ChannelMode<P>,
}

/// That a mode makes `(l2, r2)` of the pair `(l, r)`. How to pan and how to take a
/// mean is up to `pan` and `mean`.
pub open spec fn routed<T, P, F: Fn(P, T, T) -> (T, T), G: Fn(T, T) -> T>(
    mode: ChannelMode<P>,
    silence: T,
    pan: F,
    mean: G,
    l: T,
    r: T,
    l2: T,
    r2: T,
) -> bool {
    match mode {
        ChannelMode::Passthrough => l2 == l && r2 == r,
        ChannelMode::Swap => l2 == r && r2 == l,
        ChannelMode::MuteLeft => l2 == silence && r2 == r,
        ChannelMode::MuteRight => l2 == l && r2 == silence,
        ChannelMode::Pan(p) => pan.ensures((p, l, r), (l2, r2)),
        ChannelMode::MonoToStereo => l2 == l && r2 == l,
        ChannelMode::StereoToMono => l2 == r2 && mean.ensures((l, r), l2),
    }
}

/// That frame `f` of a block of interleaved samples was routed.
pub open spec fn frame_routed<T, P, F: Fn(P, T, T) -> (T, T), G: Fn(T, T) -> T>(
    mode: ChannelMode<P>,
    silence: T,
    pan: F,
    mean: G,
    input: Seq<T>,
    out: Seq<T>,
    channels: int,
    f: int,
) -> bool {
    &&& routed(
        mode,
        silence,
        pan,
        mean,
        input[f * channels],
        input[f * channels + 1],
        out[f * channels],
        out[f * channels + 1],
    )
    &&& forall|c: int|
        2 <= c < channels ==> #[trigger] out[f * channels + c] == input[f * channels + c]
}

impl<P: Copy> ChannelMapNode<P> {
    /// The mode.
    pub closed spec fn spec_mode(&self) -> ChannelMode<P> {
        self.mode
    }

    /// Channels of its ports.
    pub closed spec fn spec_channels(&self) -> u16 {
        self.channels
    }

    /// A node with ports of `channels` channels.
    pub fn new(channels: u16, mode: ChannelMode<P>) -> (node: Self)
        ensures
            node.spec_channels() == channels,
            node.spec_mode() == mode,
    {
        ChannelMapNode { channels, mode }
    }

    /// Channels of its ports.
    pub fn channels(&self) -> (n: u16)
        ensures
            n == self.spec_channels(),
    {
        self.channels
    }

    /// Changes the mode.
    pub fn set_mode(&mut self, mode: ChannelMode<P>)
        ensures
            final(self).spec_mode() == mode,
            final(self).spec_channels() == old(self).spec_channels(),
    {
        self.mode = mode;
    }

    /// One pair of samples, routed.
    fn route<T: Copy, F: Fn(P, T, T) -> (T, T), G: Fn(T, T) -> T>(
        &self,
        silence: T,
        pan: &F,
        mean: &G,
        l: T,
        r: T,
    ) -> (pair: (T, T))
        requires
            forall|p: P, a: T, b: T| pan.requires((p, a, b)),
            forall|a: T, b: T| mean.requires((a, b)),
        ensures
            routed(self.spec_mode(), silence, *pan, *mean, l, r, pair.0, pair.1),
    {
        match self.mode {
            ChannelMode::Passthrough => (l, r),
            ChannelMode::Swap => (r, l),
            ChannelMode::MuteLeft => (silence, r),
            ChannelMode::MuteRight => (l, silence),
            ChannelMode::Pan(p) => pan(p, l, r),
            ChannelMode::MonoToStereo => (l, l),
            ChannelMode::StereoToMono => {
                let m = mean(l, r);
                (m, m)
            },
        }
    }

    /// Copies the input to the output, as far as both reach, and routes each whole
    /// frame of it. With fewer than two channels there is nothing to route.
    pub fn process<T: Copy, F: Fn(P, T, T) -> (T, T), G: Fn(T, T) -> T>(
        &self,
        channels: u16,
        input: &[T],
        out: &mut Vec<T>,
        silence: T,
        pan: F,
        mean: G,
    )
        requires
            forall|p: P, a: T, b: T| pan.requires((p, a, b)),
            forall|a: T, b: T| mean.requires((a, b)),
        ensures
            final(out)@.len() == old(out)@.len(),
            forall|i: int|
                input@.len() <= i < old(out)@.len() ==> #[trigger] final(out)@[i] == old(out)@[i],
            channels < 2 ==> forall|i: int|
                0 <= i < lesser(input@.len(), old(out)@.len()) ==> #[trigger] final(out)@[i]
                    == input@[i],
            channels >= 2 ==> ({
                let n = lesser(input@.len(), old(out)@.len());
                let frames = n / channels as nat;
                &&& forall|f: int|
                    0 <= f < frames ==> #[trigger] frame_routed(
                        self.spec_mode(),
                        silence,
                        pan,
                        mean,
                        input@,
                        final(out)@,
                        channels as int,
                        f,
                    )
                &&& forall|i: int|
                    frames * channels <= i < n ==> #[trigger] final(out)@[i] == input@[i]
            }),
            self.spec_mode() is Passthrough ==> forall|i: int|
                0 <= i < lesser(input@.len(), old(out)@.len()) ==> #[trigger] final(out)@[i]
                    == input@[i],
    {
        let ghost before = out@;
        copy_samples(input, out);
        let n: usize = if input.len() < out.len() {
            input.len()
        } else {
            out.len()
        };
        if channels < 2 {
            return ;
        }
        let ch: usize = channels as usize;
        let frames: usize = n / ch;
        proof {
            assert(frames * ch <= n) by (nonlinear_arith)
                requires
                    frames == n / ch,
                    ch > 0,
            ;
        }
        let mut f: usize = 0;
        while f < frames
            invariant
                f <= frames,
                ch == channels,
                ch >= 2,
                frames * ch <= n,
                n <= input@.len(),
                n <= out@.len(),
                out@.len() == before.len(),
                forall|p: P, a: T, b: T| pan.requires((p, a, b)),
                forall|a: T, b: T| mean.requires((a, b)),
                forall|i: int| n <= i < before.len() ==> #[trigger] out@[i] == before[i],
                forall|i: int| f * ch <= i < n ==> #[trigger] out@[i] == input@[i],
                forall|g: int|
                    0 <= g < f ==> #[trigger] frame_routed(
                        self.spec_mode(),
                        silence,
                        pan,
                        mean,
                        input@,
                        out@,
                        channels as int,
                        g,
                    ),
            decreases frames - f,
        {
            let ghost done = out@;
            proof {
                assert((f + 1) * ch == f * ch + ch) by (nonlinear_arith);
                assert((f + 1) * ch <= frames * ch) by (nonlinear_arith)
                    requires
                        f < frames,
                        ch >= 0,
                ;
                assert(0 <= f * ch) by (nonlinear_arith)
                    requires
                        f >= 0,
                        ch >= 0,
                ;
            }
            let at: usize = f * ch;
            let (l, r) = self.route(silence, &pan, &mean, input[at], input[at + 1]);
            out.set(at, l);
            out.set(at + 1, r);
            proof {
                assert forall|g: int| 0 <= g < f + 1 implies #[trigger] frame_routed(
                    self.spec_mode(),
                    silence,
                    pan,
                    mean,
                    input@,
                    out@,
                    channels as int,
                    g,
                ) by {
                    if g < f {
                        assert(frame_routed(
                            self.spec_mode(),
                            silence,
                            pan,
                            mean,
                            input@,
                            done,
                            channels as int,
                            g,
                        ));
                        assert(0 <= g * ch && g * ch + ch <= f * ch) by (nonlinear_arith)
                            requires
                                0 <= g < f,
                                ch >= 0,
                        ;
                        assert forall|c: int| 2 <= c < channels implies #[trigger] out@[g * channels
                            + c] == input@[g * channels + c] by {
                            assert(done[g * channels + c] == input@[g * channels + c]);
                        }
                    }
                }
            }
            f = f + 1;
        }
        proof {
            if self.spec_mode() is Passthrough {
                law_passthrough_copies(silence, pan, mean, input@, out@, ch as int, frames as int);
            }
        }
    }
}

/// Where every frame is left as it is, every sample of the output is the sample at the
/// same place of the input, whatever the channel count.
pub proof fn law_passthrough_copies<T, P, F: Fn(P, T, T) -> (T, T), G: Fn(T, T) -> T>(
    silence: T,
    pan: F,
    mean: G,
    input: Seq<T>,
    out: Seq<T>,
    channels: int,
    frames: int,
)
    requires
        channels >= 2,
        frames >= 0,
        frames * channels <= input.len(),
        frames * channels <= out.len(),
        forall|f: int|
            0 <= f < frames ==> #[trigger] frame_routed(
                ChannelMode::<P>::Passthrough,
                silence,
                pan,
                mean,
                input,
                out,
                channels,
                f,
            ),
    ensures
        forall|i: int| 0 <= i < frames * channels ==> #[trigger] out[i] == input[i],
{
    assert forall|i: int| 0 <= i < frames * channels implies #[trigger] out[i] == input[i] by {
        let f = i / channels;
        let c = i % channels;
        vstd::arithmetic::div_mod::lemma_fundamental_div_mod(i, channels);
        assert(channels * f == f * channels) by (nonlinear_arith);
        assert(0 <= f < frames) by (nonlinear_arith)
            requires
                i == f * channels + c,
                0 <= c < channels,
                0 <= i < frames * channels,
                channels >= 2,
        ;
        assert(frame_routed(
            ChannelMode::<P>::Passthrough,
            silence,
            pan,
            mean,
            input,
            out,
            channels,
            f,
        ));
        assert(out[f * channels + c] == input[f * channels + c]);
    }
}

/// Where the samples of a routed frame come from: each mode but for the pan and the mean
/// only moves samples about or silences them, and no mode touches the third channel or
/// one behind it.
pub proof fn law_where_samples_come_from<T, P, F: Fn(P, T, T) -> (T, T), G: Fn(T, T) -> T>(
    mode: ChannelMode<P>,
    silence: T,
    pan: F,
    mean: G,
    input: Seq<T>,
    out: Seq<T>,
    channels: int,
    f: int,
)
    requires
        channels >= 2,
        frame_routed(mode, silence, pan, mean, input, out, channels, f),
    ensures
        mode is Passthrough || mode is MuteRight || mode is MonoToStereo ==> out[f * channels]
            == input[f * channels],
        mode is Passthrough || mode is MuteLeft ==> out[f * channels + 1] == input[f * channels
            + 1],
        mode is Swap ==> out[f * channels] == input[f * channels + 1],
        mode is Swap ==> out[f * channels + 1] == input[f * channels],
        mode is MuteLeft ==> out[f * channels] == silence,
        mode is MuteRight ==> out[f * channels + 1] == silence,
        mode is MonoToStereo ==> out[f * channels + 1] == input[f * channels],
        mode is StereoToMono ==> out[f * channels] == out[f * channels + 1] && mean.ensures(
            (input[f * channels], input[f * channels + 1]),
            out[f * channels],
        ),
        mode matches ChannelMode::Pan(p) ==> pan.ensures(
            (p, input[f * channels], input[f * channels + 1]),
            (out[f * channels], out[f * channels + 1]),
        ),
        forall|c: int|
            2 <= c < channels ==> #[trigger] out[f * channels + c] == input[f * channels + c],
{
}

/// Swapping twice changes nothing.
pub proof fn law_swap_undoes_itself<T, P, F: Fn(P, T, T) -> (T, T), G: Fn(T, T) -> T>(
    silence: T,
    pan: F,
    mean: G,
    first: (T, T),
    second: (T, T),
    third: (T, T),
)
    requires
        routed(ChannelMode::<P>::Swap, silence, pan, mean, first.0, first.1, second.0, second.1),
        routed(ChannelMode::<P>::Swap, silence, pan, mean, second.0, second.1, third.0, third.1),
    ensures
        third == first,
{
}

/// Muting either side, spreading mono and leaving things as they are have no
/// further effect when they are done again.
pub proof fn law_routing_again_changes_nothing<
    T,
    P,
    F: Fn(P, T, T) -> (T, T),
    G: Fn(T, T) -> T,
>(
    mode: ChannelMode<P>,
    silence: T,
    pan: F,
    mean: G,
    first: (T, T),
    second: (T, T),
    third: (T, T),
)
    requires
        mode is Passthrough || mode is MuteLeft || mode is MuteRight || mode is MonoToStereo,
        routed(mode, silence, pan, mean, first.0, first.1, second.0, second.1),
        routed(mode, silence, pan, mean, second.0, second.1, third.0, third.1),
    ensures
        third == second,
{
}

} // verus!
