//! Playing back a buffer that was decoded beforehand.
//!
//! The buffer is planar: all frames of channel 0, then all of channel 1, and so on.

use super::planar::fill;
use vstd::prelude::*;

verus! {

/// A block of planar samples with its format.
pub struct Block<T> {
    /// Channels in the block.
    pub channels: u16,
    /// Frames per second.
    pub sample_rate: u32,
    /// The samples.
    pub samples: Vec<T>,
}

/// What a file source plays, and how far it has come.
#[verifier::ext_equal]
pub struct Playback<T> {
    /// The buffer.
    pub samples: Seq<T>,
    /// Channels in the buffer.
    pub channels: u16,
    /// Frames per second.
    pub sample_rate: u32,
    /// Whether playback starts over at the end.
    pub looping: bool,
    /// Frames that were played, counted from the start of the buffer.
    pub position: nat,
    /// Whether playback is over.
    pub ended: bool,
}

impl<T> Playback<T> {
    /// Frames in the buffer.
    pub open spec fn total(self) -> nat {
        self.samples.len() / (if self.channels == 0 {
            1
        } else {
            self.channels as nat
        })
    }

    /// That there is nothing to play any more.
    pub open spec fn is_silent(self) -> bool {
        self.channels == 0 || self.ended || self.total() == 0
    }

    /// The sample of channel `c` that lies `i` frames ahead.
    pub open spec fn ahead(self, c: int, i: int, silence: T) -> T {
        let total = self.total() as int;
        let at = self.position + i;
        if self.is_silent() {
            silence
        } else if at < total {
            self.samples[c * total + at]
        } else if self.looping {
            self.samples[c * total + at % total]
        } else {
            silence
        }
    }

    /// What is left to play after `n` more frames.
    pub open spec fn after(self, n: nat) -> Playback<T> {
        if self.is_silent() {
            self
        } else if self.looping {
            Playback { position: (self.position + n) % self.total(), ..self }
        } else if self.position + n < self.total() {
            Playback { position: self.position + n, ..self }
        } else {
            Playback { position: self.total(), ended: true, ..self }
        }
    }

    /// That the position is within the buffer, and at its end only where playback
    /// is over.
    pub open spec fn is_valid(self) -> bool {
        &&& self.samples.len() == 0 || self.channels == 0 ==> self.ended && self.position == 0
        &&& self.position <= self.total()
        &&& !self.is_silent() ==> self.position < self.total()
        &&& self.looping && self.ended ==> self.samples.len() == 0 || self.channels == 0
    }
}

/// A source that plays back a buffer.
pub struct FileSource<T> {
    samples: Vec<T>,
    channels: u16,
    sample_rate: u32,
    looping: bool,
    read_pos: usize,
    ended: bool,
}

impl<T> View for FileSource<T> {
    type V = Playback<T>;

    closed spec fn view(&self) -> Playback<T> {
        Playback {
            samples: self.samples@,
            channels: self.channels,
            sample_rate: self.sample_rate,
            looping: self.looping,
            position: self.read_pos as nat,
            ended: self.ended,
        }
    }
}

impl<T> FileSource<T> {
    /// That the position is within the buffer.
    #[verifier::type_invariant]
    closed spec fn inv(self) -> bool {
        self@.is_valid()
    }
}

impl<T: Copy> FileSource<T> {
    /// A source at the start of a planar buffer. With an empty buffer, or no
    /// channels, playback is over at once.
    pub fn new(samples: Vec<T>, channels: u16, sample_rate: u32, looping: bool) -> (source: Self)
        ensures
            source@ == (Playback {
                samples: samples@,
                channels,
                sample_rate,
                looping,
                position: 0,
                ended: samples@.len() == 0 || channels == 0,
            }),
            source@.is_valid(),
    {
        let ended = samples.len() == 0 || channels == 0;
        FileSource { samples, channels, sample_rate, looping, read_pos: 0, ended }
    }

    /// Whether playback is over.
    pub fn is_ended(&self) -> (b: bool)
        ensures
            b == self@.ended,
            self@.is_valid(),
    {
        proof {
            use_type_invariant(self);
        }
        self.ended
    }

    /// The position, in frames.
    pub fn position(&self) -> (n: usize)
        ensures
            n == self@.position,
            self@.is_valid(),
    {
        proof {
            use_type_invariant(self);
        }
        self.read_pos
    }

    /// Frames in the buffer.
    pub fn total_frames(&self) -> (n: usize)
        ensures
            n == self@.total(),
    {
        if self.channels == 0 {
            self.samples.len()
        } else {
            self.samples.len() / (self.channels as usize)
        }
    }

    /// Channels in the buffer.
    pub fn channels(&self) -> (n: u16)
        ensures
            n == self@.channels,
    {
        self.channels
    }

    /// What a source at the start of the same buffer is made from.
    pub fn into_parts(self) -> (parts: (Vec<T>, u16, u32, bool))
        ensures
            parts.0@ == self@.samples,
            parts.1 == self@.channels,
            parts.2 == self@.sample_rate,
            parts.3 == self@.looping,
    {
        (self.samples, self.channels, self.sample_rate, self.looping)
    }

    /// Fills a block with what comes next, and moves on by the frames of the block.
    /// A block that does not divide evenly among the channels keeps its rest, unless
    /// there is nothing to play: then all of it becomes `silence`.
    pub fn process(&mut self, out: &mut Block<T>, silence: T)
        ensures
            final(out).channels == old(self)@.channels,
            final(out).sample_rate == old(self)@.sample_rate,
            final(out).samples@.len() == old(out).samples@.len(),
            old(self)@.is_valid(),
            final(self)@.is_valid(),
            old(self)@.is_silent() ==> {
                &&& final(self)@ == old(self)@
                &&& forall|k: int|
                    0 <= k < old(out).samples@.len() ==> #[trigger] final(out).samples@[k]
                        == silence
            },
            !old(self)@.is_silent() ==> {
                let channels = old(self)@.channels as int;
                let per_ch = old(out).samples@.len() as int / channels;
                &&& final(self)@ == old(self)@.after(per_ch as nat)
                &&& forall|c: int, i: int|
                    0 <= c < channels && 0 <= i < per_ch ==> #[trigger] sample_at(
                        final(out).samples@,
                        per_ch,
                        c,
                        i,
                    ) == old(self)@.ahead(c, i, silence)
                &&& forall|k: int|
                    channels * per_ch <= k < old(out).samples@.len()
                        ==> #[trigger] final(out).samples@[k] == old(out).samples@[k]
            },
    {
        proof {
            use_type_invariant(&*self);
        }
        let ghost before = self@;
        let ghost start = out.samples@;
        let n: usize = out.samples.len();
        out.channels = self.channels;
        out.sample_rate = self.sample_rate;
        let stride: usize = self.total_frames();
        if self.channels == 0 || self.ended || stride == 0 {
            fill(&mut out.samples, silence);
            return ;
        }
        let ch: usize = self.channels as usize;
        let len: usize = self.samples.len();
        let per_ch: usize = n / ch;
        proof {
            lemma_share(n as int, ch as int);
            lemma_share(self.samples@.len() as int, ch as int);
        }
        let mut c: usize = 0;
        while c < ch
            invariant
                c <= ch,
                ch == self.channels,
                self@ == before,
                before.is_valid(),
                !before.is_silent(),
                stride == before.total(),
                ch * per_ch <= n,
                ch * stride <= len,
                len == self.samples@.len(),
                out.channels == before.channels,
                out.sample_rate == before.sample_rate,
                out.samples@.len() == n,
                start.len() == n,
                forall|d: int, i: int|
                    0 <= d < c && 0 <= i < per_ch ==> #[trigger] sample_at(
                        out.samples@,
                        per_ch as int,
                        d,
                        i,
                    ) == before.ahead(d, i, silence),
                forall|k: int| c * per_ch <= k < n ==> #[trigger] out.samples@[k] == start[k],
            decreases ch - c,
        {
            proof {
                lemma_row(c as int, ch as int, per_ch as int);
                lemma_row(c as int, ch as int, stride as int);
                vstd::arithmetic::div_mod::lemma_small_mod(before.position, stride as nat);
            }
            let out_offset: usize = c * per_ch;
            let buf_offset: usize = c * stride;
            let mut at: usize = self.read_pos;
            let mut i: usize = 0;
            while i < per_ch
                invariant
                    c < ch,
                    ch == self.channels,
                    self@ == before,
                    before.is_valid(),
                    !before.is_silent(),
                    stride == before.total(),
                    i <= per_ch,
                    out_offset == c * per_ch,
                    out_offset + per_ch <= n,
                    buf_offset == c * stride,
                    buf_offset + stride <= len,
                    len == self.samples@.len(),
                    before.looping ==> at == (before.position + i) % (stride as int) && at < stride,
                    !before.looping && before.position + i < stride ==> at == before.position + i,
                    !before.looping && before.position + i >= stride ==> at == stride,
                    out.channels == before.channels,
                    out.sample_rate == before.sample_rate,
                    out.samples@.len() == n,
                    start.len() == n,
                    forall|d: int, j: int|
                        0 <= d < c && 0 <= j < per_ch ==> #[trigger] sample_at(
                            out.samples@,
                            per_ch as int,
                            d,
                            j,
                        ) == before.ahead(d, j, silence),
                    forall|j: int|
                        0 <= j < i ==> #[trigger] sample_at(
                            out.samples@,
                            per_ch as int,
                            c as int,
                            j,
                        ) == before.ahead(c as int, j, silence),
                    forall|k: int|
                        out_offset + i <= k < n ==> #[trigger] out.samples@[k] == start[k],
                decreases per_ch - i,
            {
                let ghost done = out.samples@;
                let y = if at < stride {
                    self.samples[buf_offset + at]
                } else {
                    silence
                };
                out.samples.set(out_offset + i, y);
                proof {
                    if before.position + i < stride {
                        vstd::arithmetic::div_mod::lemma_small_mod(
                            (before.position + i) as nat,
                            stride as nat,
                        );
                    }
                    assert(y == before.ahead(c as int, i as int, silence));
                    assert forall|d: int, j: int|
                        0 <= d < c && 0 <= j < per_ch implies #[trigger] sample_at(
                        out.samples@,
                        per_ch as int,
                        d,
                        j,
                    ) == before.ahead(d, j, silence) by {
                        lemma_row(d, c as int, per_ch as int);
                        assert(sample_at(done, per_ch as int, d, j) == before.ahead(d, j, silence));
                    }
                    assert forall|j: int| 0 <= j < i + 1 implies #[trigger] sample_at(
                        out.samples@,
                        per_ch as int,
                        c as int,
                        j,
                    ) == before.ahead(c as int, j, silence) by {
                        if j < i {
                            assert(sample_at(done, per_ch as int, c as int, j) == before.ahead(
                                c as int,
                                j,
                                silence,
                            ));
                        }
                    }
                    lemma_next_mod(before.position + i, stride as int);
                }
                if at < stride {
                    at = at + 1;
                    if self.looping && at == stride {
                        at = 0;
                    }
                }
                i = i + 1;
            }
            proof {
                assert((c + 1) * per_ch == c * per_ch + per_ch) by (nonlinear_arith);
                assert forall|d: int, j: int|
                    0 <= d < c + 1 && 0 <= j < per_ch implies #[trigger] sample_at(
                    out.samples@,
                    per_ch as int,
                    d,
                    j,
                ) == before.ahead(d, j, silence) by {
                    if d == c {
                        assert(sample_at(out.samples@, per_ch as int, c as int, j) == before.ahead(
                            c as int,
                            j,
                            silence,
                        ));
                    }
                }
            }
            c = c + 1;
        }
        let room: usize = stride - self.read_pos;
        if self.looping {
            proof {
                lemma_wrap(before.position as int, per_ch as int, stride as int);
            }
            let step: usize = per_ch % stride;
            self.read_pos = if step < room {
                self.read_pos + step
            } else {
                step - room
            };
        } else if per_ch < room {
            self.read_pos = self.read_pos + per_ch;
        } else {
            self.ended = true;
            self.read_pos = stride;
        }
    }
}

/// The samples of channel `c` in a planar chunk of `channels` channels.
pub open spec fn plane<T>(chunk: Seq<T>, channels: nat, c: nat) -> Seq<T> {
    let per_ch = chunk.len() / channels;
    chunk.subrange((c * per_ch) as int, (c * per_ch + per_ch) as int)
}

/// The samples of channel `c` in the first `k` chunks.
pub open spec fn channel_line<T>(chunks: Seq<Vec<T>>, channels: nat, c: nat, k: nat) -> Seq<T>
    decreases k,
{
    if k == 0 {
        Seq::empty()
    } else {
        channel_line(chunks, channels, c, (k - 1) as nat) + plane(chunks[k - 1]@, channels, c)
    }
}

/// The first `n` channels of all chunks, one channel after the other.
pub open spec fn joined<T>(chunks: Seq<Vec<T>>, channels: nat, n: nat) -> Seq<T>
    decreases n,
{
    if n == 0 {
        Seq::empty()
    } else {
        joined(chunks, channels, (n - 1) as nat) + channel_line(
            chunks,
            channels,
            (n - 1) as nat,
            chunks.len(),
        )
    }
}

/// The channels that a buffer is divided into: at least one.
pub open spec fn parts_of(channels: u16) -> nat {
    if channels == 0 {
        1
    } else {
        channels as nat
    }
}

/// Joins the planar chunks that a decoder handed out into one planar buffer. What
/// does not divide evenly among the channels is dropped from a chunk.
pub fn join_chunks<T: Copy>(chunks: &Vec<Vec<T>>, channels: u16) -> (buffer: Vec<T>)
    ensures
        buffer@ == joined(chunks@, parts_of(channels), parts_of(channels)),
{
    let ch: usize = if channels == 0 {
        1
    } else {
        channels as usize
    };
    let mut buffer: Vec<T> = Vec::new();
    let mut c: usize = 0;
    while c < ch
        invariant
            c <= ch,
            ch == parts_of(channels),
            buffer@ == joined(chunks@, ch as nat, c as nat),
        decreases ch - c,
    {
        let ghost before = buffer@;
        let mut k: usize = 0;
        while k < chunks.len()
            invariant
                c < ch,
                k <= chunks@.len(),
                buffer@ == before + channel_line(chunks@, ch as nat, c as nat, k as nat),
            decreases chunks@.len() - k,
        {
            let chunk = &chunks[k];
            let len: usize = chunk.len();
            let per_ch: usize = len / ch;
            proof {
                lemma_share(len as int, ch as int);
                lemma_row(c as int, ch as int, per_ch as int);
            }
            let offset: usize = c * per_ch;
            let ghost so_far = buffer@;
            let mut i: usize = 0;
            while i < per_ch
                invariant
                    i <= per_ch,
                    offset + per_ch <= len,
                    len == chunk@.len(),
                    buffer@ == so_far + chunk@.subrange(offset as int, offset + i),
                decreases per_ch - i,
            {
                buffer.push(chunk[offset + i]);
                assert(chunk@.subrange(offset as int, offset + i + 1) =~= chunk@.subrange(
                    offset as int,
                    offset + i,
                ).push(chunk@[offset + i]));
                i = i + 1;
            }
            assert(plane(chunks@[k as int]@, ch as nat, c as nat) == chunk@.subrange(
                offset as int,
                offset + per_ch,
            ));
            assert(so_far + plane(chunk@, ch as nat, c as nat) =~= before + channel_line(
                chunks@,
                ch as nat,
                c as nat,
                (k + 1) as nat,
            ));
            k = k + 1;
        }
        c = c + 1;
    }
    buffer
}

/// A source for what a decoder handed out. There is none for a stream without
/// frames.
pub fn source_of_chunks<T: Copy>(
    chunks: &Vec<Vec<T>>,
    channels: u16,
    sample_rate: u32,
    looping: bool,
) -> (source: Option<FileSource<T>>)
    ensures
        ({
            let samples = joined(chunks@, parts_of(channels), parts_of(channels));
            match source {
                None => samples.len() == 0,
                Some(source) => samples.len() > 0 && source@ == (Playback {
                    samples,
                    channels,
                    sample_rate,
                    looping,
                    position: 0,
                    ended: channels == 0,
                }),
            }
        }),
{
    let samples = join_chunks(chunks, channels);
    if samples.len() == 0 {
        None
    } else {
        Some(FileSource::new(samples, channels, sample_rate, looping))
    }
}

/// Playing two blocks in a row gives what one block of both lengths gives.
pub proof fn law_playback_is_continuous<T>(
    p: Playback<T>,
    a: nat,
    b: nat,
    c: int,
    i: nat,
    silence: T,
)
    requires
        p.is_valid(),
    ensures
        p.after(a).after(b) == p.after(a + b),
        p.after(a).ahead(c, i as int, silence) == p.ahead(c, (a + i) as int, silence),
{
    if !p.is_silent() && p.looping {
        let t = p.total();
        let q = p.after(a);
        let played = (p.position + a) as int;
        vstd::arithmetic::div_mod::lemma_mod_bound(played, t as int);
        vstd::arithmetic::div_mod::lemma_add_mod_noop_right(b as int, played, t as int);
        vstd::arithmetic::div_mod::lemma_add_mod_noop_right(i as int, played, t as int);
        assert(q.position == (p.position + a) % t);
        assert((q.position + b) % t == (p.position + a + b) % t);
        assert((q.position + i) % t == (p.position + a + i) % t);
        if q.position + i < t {
            vstd::arithmetic::div_mod::lemma_small_mod(q.position + i, t);
        }
        if p.position + a + i < t {
            vstd::arithmetic::div_mod::lemma_small_mod(p.position + a + i, t);
        }
    }
}

/// A source that loops never ends once it plays, and one that does not has ended
/// when as many frames were played as the buffer has.
pub proof fn law_when_playback_ends<T>(p: Playback<T>, n: nat)
    requires
        p.is_valid(),
    ensures
        p.after(n).is_valid(),
        p.looping && !p.ended ==> !p.after(n).ended,
        !p.looping && !p.is_silent() ==> (p.after(n).ended <==> p.position + n >= p.total()),
{
    if !p.is_silent() && p.looping {
        vstd::arithmetic::div_mod::lemma_mod_bound((p.position + n) as int, p.total() as int);
    }
}

/// The `i`-th sample of channel `c` in a planar block.
pub open spec fn sample_at<T>(samples: Seq<T>, per_ch: int, c: int, i: int) -> T {
    samples[c * per_ch + i]
}

proof fn lemma_share(n: int, ch: int)
    requires
        n >= 0,
        ch > 0,
    ensures
        0 <= n / ch,
        ch * (n / ch) <= n,
{
    vstd::arithmetic::div_mod::lemma_fundamental_div_mod(n, ch);
    vstd::arithmetic::div_mod::lemma_mod_bound(n, ch);
    vstd::arithmetic::div_mod::lemma_div_pos_is_pos(n, ch);
}

proof fn lemma_row(c: int, ch: int, per_ch: int)
    requires
        0 <= c < ch,
        per_ch >= 0,
    ensures
        0 <= c * per_ch,
        c * per_ch + per_ch <= ch * per_ch,
{
    assert(0 <= c * per_ch && c * per_ch + per_ch <= ch * per_ch) by (nonlinear_arith)
        requires
            0 <= c < ch,
            per_ch >= 0,
    ;
}

proof fn lemma_next_mod(x: int, m: int)
    requires
        x >= 0,
        m > 0,
    ensures
        (x + 1) % m == if x % m + 1 == m {
            0
        } else {
            x % m + 1
        },
{
    vstd::arithmetic::div_mod::lemma_fundamental_div_mod(x, m);
    vstd::arithmetic::div_mod::lemma_mod_bound(x, m);
    let q = x / m;
    if x % m + 1 == m {
        assert(m * (q + 1) == m * q + m) by (nonlinear_arith);
        assert(m * (q + 1) == (q + 1) * m) by (nonlinear_arith);
        vstd::arithmetic::div_mod::lemma_fundamental_div_mod_converse(x + 1, m, q + 1, 0);
    } else {
        assert(m * q == q * m) by (nonlinear_arith);
        vstd::arithmetic::div_mod::lemma_fundamental_div_mod_converse(x + 1, m, q, x % m + 1);
    }
}

proof fn lemma_wrap(p: int, n: int, m: int)
    requires
        0 <= p < m,
        n >= 0,
    ensures
        0 <= n % m < m,
        (p + n) % m == if p + n % m < m {
            p + n % m
        } else {
            p + n % m - m
        },
{
    vstd::arithmetic::div_mod::lemma_fundamental_div_mod(n, m);
    vstd::arithmetic::div_mod::lemma_mod_bound(n, m);
    let q = n / m;
    assert(m * q == q * m) by (nonlinear_arith);
    if p + n % m < m {
        vstd::arithmetic::div_mod::lemma_fundamental_div_mod_converse(p + n, m, q, p + n % m);
    } else {
        assert((q + 1) * m == q * m + m) by (nonlinear_arith);
        vstd::arithmetic::div_mod::lemma_fundamental_div_mod_converse(
            p + n,
            m,
            q + 1,
            p + n % m - m,
        );
    }
}

/// What is heard of a buffer of `total` frames that is not over: the frames from the
/// position on, each channel from its own part of the buffer. Behind the last frame a
/// source that loops starts over at the first, and any other is silent.
pub proof fn law_what_is_heard<T>(
    p: Playback<T>,
    total: int,
    c: int,
    i: int,
    rounds: int,
    frame: int,
    silence: T,
)
    requires
        p.channels > 0,
        !p.ended,
        total > 0,
        p.channels * total <= p.samples.len() < p.channels * (total + 1),
        0 <= i,
        p.position + i == rounds * total + frame,
        0 <= rounds,
        0 <= frame < total,
    ensures
        rounds == 0 || p.looping ==> p.ahead(c, i, silence) == p.samples[c * total + frame],
        rounds > 0 && !p.looping ==> p.ahead(c, i, silence) == silence,
{
    lemma_total(p, total);
    vstd::arithmetic::div_mod::lemma_fundamental_div_mod_converse(
        p.position + i,
        total,
        rounds,
        frame,
    );
    if rounds > 0 {
        assert(rounds * total >= total) by (nonlinear_arith)
            requires
                rounds > 0,
                total > 0,
        ;
    } else {
        assert(rounds * total == 0) by (nonlinear_arith)
            requires
                rounds == 0,
        ;
    }
}

/// Where playback is over, there are no channels, or there are fewer samples than
/// channels, nothing is heard and nothing changes.
pub proof fn law_when_nothing_is_heard<T>(p: Playback<T>, c: int, i: int, n: nat, silence: T)
    requires
        p.ended || p.channels == 0 || p.samples.len() < p.channels,
    ensures
        p.ahead(c, i, silence) == silence,
        p.after(n) == p,
{
    if p.channels > 0 && p.samples.len() < p.channels {
        vstd::arithmetic::div_mod::lemma_basic_div(p.samples.len() as int, p.channels as int);
    }
}

/// How far playback of a buffer of `total` frames has come after some more frames: a
/// source that loops is that many frames further round the buffer, any other stops at the
/// end. Nothing else changes.
pub proof fn law_how_far_playback_comes<T>(
    p: Playback<T>,
    total: int,
    n: nat,
    rounds: int,
    frame: int,
)
    requires
        p.channels > 0,
        !p.ended,
        total > 0,
        p.channels * total <= p.samples.len() < p.channels * (total + 1),
        p.position + n == rounds * total + frame,
        0 <= rounds,
        0 <= frame < total,
    ensures
        p.looping ==> p.after(n) == (Playback { position: frame as nat, ..p }),
        !p.looping && rounds == 0 ==> p.after(n) == (Playback { position: frame as nat, ..p }),
        !p.looping && rounds > 0 ==> p.after(n) == (Playback {
            position: total as nat,
            ended: true,
            ..p
        }),
{
    lemma_total(p, total);
    vstd::arithmetic::div_mod::lemma_fundamental_div_mod_converse(
        (p.position + n) as int,
        total,
        rounds,
        frame,
    );
    if rounds > 0 {
        assert(rounds * total >= total) by (nonlinear_arith)
            requires
                rounds > 0,
                total > 0,
        ;
    } else {
        assert(rounds * total == 0) by (nonlinear_arith)
            requires
                rounds == 0,
        ;
    }
}

/// A buffer has as many frames as it has whole samples for every channel.
pub proof fn law_frames_of_a_buffer<T>(p: Playback<T>)
    ensures
        p.channels > 0 ==> p.channels * p.total() <= p.samples.len() < p.channels * (p.total() + 1),
        p.channels == 0 ==> p.total() == p.samples.len(),
{
    if p.channels > 0 {
        let ch = p.channels as int;
        let n = p.samples.len() as int;
        vstd::arithmetic::div_mod::lemma_fundamental_div_mod(n, ch);
        vstd::arithmetic::div_mod::lemma_mod_bound(n, ch);
        assert(ch * (n / ch + 1) == ch * (n / ch) + ch) by (nonlinear_arith);
    }
}

proof fn lemma_total<T>(p: Playback<T>, total: int)
    requires
        p.channels > 0,
        total >= 0,
        p.channels * total <= p.samples.len() < p.channels * (total + 1),
    ensures
        p.total() == total,
{
    let ch = p.channels as int;
    let rest = p.samples.len() - ch * total;
    assert(ch * (total + 1) == ch * total + ch) by (nonlinear_arith);
    assert(ch * total == total * ch) by (nonlinear_arith);
    vstd::arithmetic::div_mod::lemma_fundamental_div_mod_converse(
        p.samples.len() as int,
        ch,
        total,
        rest,
    );
}

/// Frames in the first `k` chunks.
pub open spec fn frames_before<T>(chunks: Seq<Vec<T>>, channels: nat, k: nat) -> nat
    decreases k,
{
    if k == 0 {
        0
    } else {
        frames_before(chunks, channels, (k - 1) as nat) + chunks[k - 1]@.len() / channels
    }
}

/// Where a sample of a chunk comes to stand in the joined buffer: with its channel, behind
/// the frames of the chunks before its own.
pub proof fn law_where_chunks_come_to_stand<T>(
    chunks: Seq<Vec<T>>,
    channels: u16,
    k: int,
    c: int,
    i: int,
)
    requires
        0 <= k < chunks.len(),
        0 <= c < parts_of(channels),
        0 <= i < chunks[k]@.len() / parts_of(channels),
    ensures
        ({
            let ch = parts_of(channels);
            let total = frames_before(chunks, ch, chunks.len());
            let per_ch = chunks[k]@.len() / ch;
            let at = c * total + frames_before(chunks, ch, k as nat) + i;
            &&& joined(chunks, ch, ch).len() == ch * total
            &&& 0 <= at < joined(chunks, ch, ch).len()
            &&& joined(chunks, ch, ch)[at] == chunks[k]@[c * per_ch + i]
        }),
{
    let ch = parts_of(channels);
    let total = frames_before(chunks, ch, chunks.len());
    lemma_joined(chunks, ch, ch, c, frames_before(chunks, ch, k as nat) + i);
    lemma_line(chunks, ch, c as nat, chunks.len(), k, i);
    lemma_row(c, ch as int, total as int);
}

/// There is a channel for every part, and one where there are none.
pub proof fn law_parts_of_a_buffer(channels: u16)
    ensures
        channels > 0 ==> parts_of(channels) == channels,
        channels == 0 ==> parts_of(channels) == 1,
{
}

proof fn lemma_line<T>(chunks: Seq<Vec<T>>, channels: nat, c: nat, n: nat, k: int, i: int)
    requires
        c < channels,
        n <= chunks.len(),
        0 <= k < n,
        0 <= i < chunks[k]@.len() / channels,
    ensures
        frames_before(chunks, channels, k as nat) + i < frames_before(chunks, channels, n),
        channel_line(chunks, channels, c, n).len() == frames_before(chunks, channels, n),
        channel_line(chunks, channels, c, n)[frames_before(chunks, channels, k as nat) + i]
            == chunks[k]@[c * (chunks[k]@.len() / channels) + i],
    decreases n,
{
    let last = n - 1;
    let per_ch = chunks[last]@.len() / channels;
    lemma_share(chunks[last]@.len() as int, channels as int);
    lemma_row(c as int, channels as int, per_ch as int);
    lemma_line_len(chunks, channels, c, last as nat);
    if k < last {
        lemma_line(chunks, channels, c, last as nat, k, i);
    }
}

proof fn lemma_line_len<T>(chunks: Seq<Vec<T>>, channels: nat, c: nat, n: nat)
    requires
        c < channels,
        n <= chunks.len(),
    ensures
        channel_line(chunks, channels, c, n).len() == frames_before(chunks, channels, n),
    decreases n,
{
    if n > 0 {
        let last = n - 1;
        let per_ch = chunks[last]@.len() / channels;
        lemma_share(chunks[last]@.len() as int, channels as int);
        lemma_row(c as int, channels as int, per_ch as int);
        lemma_line_len(chunks, channels, c, last as nat);
    }
}

proof fn lemma_joined<T>(chunks: Seq<Vec<T>>, channels: nat, n: nat, c: int, j: int)
    requires
        n <= channels,
        0 <= c < channels,
        0 <= j,
    ensures
        ({
            let total = frames_before(chunks, channels, chunks.len());
            &&& joined(chunks, channels, n).len() == n * total
            &&& c < n && j < total ==> joined(chunks, channels, n)[c * total + j] == channel_line(
                chunks,
                channels,
                c as nat,
                chunks.len(),
            )[j]
        }),
    decreases n,
{
    let total = frames_before(chunks, channels, chunks.len());
    if n > 0 {
        let last = (n - 1) as nat;
        lemma_joined(chunks, channels, last, c, j);
        lemma_line_len(chunks, channels, last, chunks.len());
        assert(n * total == last * total + total) by (nonlinear_arith)
            requires
                n == last + 1,
        ;
        if c < last {
            assert(0 <= c * total && c * total + total <= last * total) by (nonlinear_arith)
                requires
                    0 <= c < last,
                    total >= 0,
            ;
        }
    } else {
        assert(n * total == 0) by (nonlinear_arith)
            requires
                n == 0,
        ;
    }
}

} // verus!
