//! The callbacks of the plugin: the table of them, the position of the stream,
//! and the copying between ALSA's channel areas and interleaved samples.
//!
//! A channel area says where one channel lies in the user's buffer: a start
//! address, and in bits the place of its first sample and the distance from one
//! sample to the next. The buffer is taken as the bytes that it consists of.

use crate::wire::{le_bytes, le_word, lemma_word_round_trip, read_word};
use vstd::prelude::*;

verus! {

/// `SND_PCM_IOPLUG_VERSION`, protocol 1.0.2.
pub const SND_PCM_IOPLUG_VERSION: u32 = 0x01_00_02;

/// `SND_PCM_IOPLUG_HW_ACCESS`.
pub const HW_ACCESS: i32 = 0;

/// `SND_PCM_IOPLUG_HW_FORMAT`.
pub const HW_FORMAT: i32 = 1;

/// `SND_PCM_IOPLUG_HW_CHANNELS`.
pub const HW_CHANNELS: i32 = 2;

/// `SND_PCM_IOPLUG_HW_RATE`.
pub const HW_RATE: i32 = 3;

/// `SND_PCM_ACCESS_RW_INTERLEAVED`.
pub const SND_PCM_ACCESS_RW_INTERLEAVED: u32 = 3;

/// `SND_PCM_FORMAT_FLOAT_LE`.
pub const SND_PCM_FORMAT_FLOAT_LE: u32 = 14;

/// `SND_PCM_STREAM_PLAYBACK`.
pub const SND_PCM_STREAM_PLAYBACK: i32 = 0;

/// `SND_PCM_STREAM_CAPTURE`.
pub const SND_PCM_STREAM_CAPTURE: i32 = 1;

/// `POLLIN`.
pub const POLLIN: u32 = 0x001;

/// `POLLOUT`.
pub const POLLOUT: u32 = 0x004;

/// `EIO`.
pub const EIO: i32 = 5;

/// `EINVAL`.
pub const EINVAL: i32 = 22;

/// `ENODEV`.
pub const ENODEV: i32 = 19;

/// `ENOENT`.
pub const ENOENT: i32 = 2;

/// Which callbacks of the table are set, in the order of the table.
#[derive(Debug, Clone, Copy, PartialEq, Eq, Structural)]
pub struct CallbackTable {
    /// Start the stream.
    pub start: bool,
    /// Stop the stream.
    pub stop: bool,
    /// Position of the stream.
    pub pointer: bool,
    /// Move frames.
    pub transfer: bool,
    /// Close the stream.
    pub close: bool,
    /// Hardware parameters were chosen.
    pub hw_params: bool,
    /// Hardware parameters were freed.
    pub hw_free: bool,
    /// Software parameters were chosen.
    pub sw_params: bool,
    /// Prepare the stream.
    pub prepare: bool,
    /// Drain the stream.
    pub drain: bool,
    /// Pause the stream.
    pub pause: bool,
    /// Resume the stream.
    pub resume: bool,
    /// Count of poll descriptors.
    pub poll_descriptors_count: bool,
    /// Poll descriptors.
    pub poll_descriptors: bool,
    /// Poll events.
    pub poll_revents: bool,
    /// Describe the stream.
    pub dump: bool,
    /// Delay of the stream.
    pub delay: bool,
    /// Channel maps that exist.
    pub query_chmaps: bool,
    /// Channel map in use.
    pub get_chmap: bool,
    /// Set the channel map.
    pub set_chmap: bool,
}

/// The table of the plugin: five callbacks are set.
pub fn callbacks() -> (t: CallbackTable)
    ensures
        t.start && t.stop && t.pointer && t.transfer && t.close,
        !t.hw_params && !t.hw_free && !t.sw_params && !t.prepare && !t.drain && !t.pause
            && !t.resume && !t.poll_descriptors_count && !t.poll_descriptors && !t.poll_revents
            && !t.dump && !t.delay && !t.query_chmaps && !t.get_chmap && !t.set_chmap,
{
    CallbackTable {
        start: true,
        stop: true,
        pointer: true,
        transfer: true,
        close: true,
        hw_params: false,
        hw_free: false,
        sw_params: false,
        prepare: false,
        drain: false,
        pause: false,
        resume: false,
        poll_descriptors_count: false,
        poll_descriptors: false,
        poll_revents: false,
        dump: false,
        delay: false,
        query_chmaps: false,
        get_chmap: false,
        set_chmap: false,
    }
}

/// The position of a stream in a buffer, after `hw_frames` frames; 0 before a
/// buffer has been negotiated.
pub open spec fn position(hw_frames: u64, buffer: u64) -> u64 {
    if buffer == 0 {
        0
    } else {
        hw_frames % buffer
    }
}

/// The position of a stream in its buffer.
pub fn pointer(hw_frames: u64, buffer: u64) -> (p: i64)
    ensures
        p == position(hw_frames, buffer) as i64,
        buffer <= i64::MAX ==> p == position(hw_frames, buffer),
{
    if buffer == 0 {
        return 0;
    }
    (hw_frames % buffer) as i64
}

/// The position is always inside the buffer, and a transfer moves it on by its
/// frames, around the end of the buffer, as long as the counter of frames does
/// not wrap around itself.
pub proof fn law_position_moves_on(hw_frames: u64, size: u64, buffer: u64)
    requires
        buffer > 0,
        hw_frames + size <= u64::MAX,
    ensures
        position(hw_frames, buffer) < buffer,
        position((hw_frames + size) as u64, buffer) == (position(hw_frames, buffer) + size)
            % (buffer as int),
{
    vstd::arithmetic::div_mod::lemma_add_mod_noop(hw_frames as int, size as int, buffer as int);
    vstd::arithmetic::div_mod::lemma_add_mod_noop_right(
        size as int,
        hw_frames as int,
        buffer as int,
    );
}

/// The counter of frames after a transfer.
pub fn advance(hw_frames: u64, size: u64) -> (n: u64)
    ensures
        n == (hw_frames + size) % 0x1_0000_0000_0000_0000,
{
    hw_frames.wrapping_add(size)
}

/// Errors of a transfer before anything is moved.
#[derive(Debug, Clone, Copy, PartialEq, Eq, Structural)]
pub enum TransferError {
    /// There are more samples than can be counted.
    FrameCountOverflow,
}

/// The samples of a transfer of `size` frames.
pub fn sample_count(size: u64, channels: usize) -> (r: Result<usize, TransferError>)
    ensures
        if size * channels <= usize::MAX {
            r == Ok::<usize, TransferError>((size * channels) as usize)
        } else {
            r == Err::<usize, TransferError>(TransferError::FrameCountOverflow)
        },
{
    match size.checked_mul(channels as u64) {
        None => Err(TransferError::FrameCountOverflow),
        Some(n) => {
            if n > usize::MAX as u64 {
                return Err(TransferError::FrameCountOverflow);
            }
            Ok(n as usize)
        },
    }
}

/// Where one channel lies in the user's buffer.
#[derive(Debug, Clone, Copy, PartialEq, Eq, Structural)]
pub struct ChannelArea {
    /// Start of the channel's memory, as a place in the buffer's bytes.
    pub addr: usize,
    /// Place of the first sample, in bits.
    pub first: u32,
    /// Distance from one sample to the next, in bits.
    pub step: u32,
}

/// The place of a sample in the buffer's bytes.
pub open spec fn place(area: ChannelArea, frame: int) -> int {
    area.addr + (area.first + frame * area.step) / 8
}

/// Whether every sample of a transfer lies inside a buffer of `len` bytes.
pub open spec fn areas_fit(
    len: nat,
    areas: Seq<ChannelArea>,
    offset: u64,
    size: u64,
    channels: usize,
) -> bool {
    &&& channels <= areas.len()
    &&& offset + size <= u64::MAX
    &&& size * channels <= usize::MAX
    &&& forall|frame: int, ch: int|
        #![trigger place(areas[ch], offset + frame)]
        0 <= frame < size && 0 <= ch < channels ==> {
            &&& place(areas[ch], offset + frame) + 4 <= len
            &&& areas[ch].first + (offset + frame) * areas[ch].step <= u64::MAX
        }
}

/// Where one channel lies in memory, as ALSA says it.
#[derive(Debug, Clone, Copy, PartialEq, Eq, Structural)]
pub struct RawArea {
    /// Address of the channel's memory.
    pub addr: u64,
    /// Place of the first sample, in bits.
    pub first: u32,
    /// Distance from one sample to the next, in bits.
    pub step: u32,
}

/// The memory of a transfer.
pub struct Region {
    /// Address of its first byte.
    pub base: u64,
    /// Count of its bytes.
    pub len: usize,
    /// The channels in it.
    pub areas: Vec<ChannelArea>,
}

/// Whether a channel in a region is the channel that ALSA means.
pub open spec fn same_area(base: u64, area: ChannelArea, raw: RawArea) -> bool {
    base + area.addr == raw.addr && area.first == raw.first && area.step == raw.step
}

proof fn lemma_place_grows(area: ChannelArea, f: int, g: int)
    requires
        0 <= f <= g,
    ensures
        place(area, f) <= place(area, g),
        area.first + f * area.step <= area.first + g * area.step,
{
    assert(f * area.step <= g * area.step) by (nonlinear_arith)
        requires
            0 <= f <= g,
            area.step >= 0,
    ;
}

/// The lowest address of some channels.
pub open spec fn lowest(raw: Seq<RawArea>) -> u64
    decreases raw.len(),
{
    if raw.len() == 0 {
        u64::MAX
    } else if raw.last().addr < lowest(raw.drop_last()) {
        raw.last().addr
    } else {
        lowest(raw.drop_last())
    }
}

/// The bit, counted from the start of a channel's memory, at which the last sample
/// of a transfer begins.
pub open spec fn last_bit(raw: RawArea, offset: u64, size: u64) -> int {
    raw.first + (offset + size - 1) * raw.step
}

/// The end of what a transfer touches of a channel, counted in bytes from `base`.
pub open spec fn end_of(base: u64, raw: RawArea, offset: u64, size: u64) -> int {
    if size == 0 {
        0
    } else {
        raw.addr - base + last_bit(raw, offset, size) / 8 + 4
    }
}

/// Whether the bytes that a transfer touches of a channel can be counted.
pub open spec fn is_countable(base: u64, raw: RawArea, offset: u64, size: u64) -> bool {
    &&& raw.addr - base <= usize::MAX
    &&& size > 0 ==> last_bit(raw, offset, size) <= u64::MAX && end_of(base, raw, offset, size)
        <= usize::MAX
}

/// The end of what a transfer touches of some channels, counted in bytes from
/// `base`.
pub open spec fn furthest(base: u64, raw: Seq<RawArea>, offset: u64, size: u64) -> int
    decreases raw.len(),
{
    if raw.len() == 0 {
        0
    } else {
        let rest = furthest(base, raw.drop_last(), offset, size);
        let end = end_of(base, raw.last(), offset, size);
        if end > rest {
            end
        } else {
            rest
        }
    }
}

/// Whether a transfer can be counted, in samples, frames and bytes.
pub open spec fn transfer_is_countable(raw: Seq<RawArea>, offset: u64, size: u64) -> bool {
    &&& size * raw.len() <= usize::MAX
    &&& offset + size <= u64::MAX
    &&& forall|ch: int|
        0 <= ch < raw.len() ==> is_countable(lowest(raw), #[trigger] raw[ch], offset, size)
}

/// The memory of a transfer of `size` frames from `offset` on: it holds every
/// sample. There is none where an address or a count is out of range.
pub fn region_of(raw: &[RawArea], offset: u64, size: u64) -> (r: Option<Region>)
    ensures
        r is Some <==> transfer_is_countable(raw@, offset, size),
        r matches Some(region) ==> {
            &&& region.base == lowest(raw@)
            &&& region.len == furthest(lowest(raw@), raw@, offset, size)
            &&& region.areas@.len() == raw@.len()
            &&& areas_fit(region.len as nat, region.areas@, offset, size, raw@.len() as usize)
            &&& forall|ch: int|
                0 <= ch < raw@.len() ==> same_area(
                    region.base,
                    #[trigger] region.areas@[ch],
                    raw@[ch],
                )
        },
{
    let channels: usize = raw.len();
    if sample_count(size, channels).is_err() || offset.checked_add(size).is_none() {
        return None;
    }
    let mut base: u64 = u64::MAX;
    let mut i: usize = 0;
    while i < raw.len()
        invariant
            i <= raw@.len(),
            base == lowest(raw@.take(i as int)),
            forall|k: int| 0 <= k < i ==> base <= (#[trigger] raw@[k]).addr,
        decreases raw@.len() - i,
    {
        assert(raw@.take(i as int + 1).drop_last() =~= raw@.take(i as int));
        if raw[i].addr < base {
            base = raw[i].addr;
        }
        i = i + 1;
    }
    assert(raw@.take(raw@.len() as int) =~= raw@);
    let mut areas: Vec<ChannelArea> = Vec::new();
    let mut len: usize = 0;
    let mut k: usize = 0;
    while k < raw.len()
        invariant
            k <= raw@.len(),
            areas@.len() == k,
            channels == raw@.len(),
            offset + size <= u64::MAX,
            base == lowest(raw@),
            len == furthest(base, raw@.take(k as int), offset, size),
            forall|j: int|
                0 <= j < k ==> is_countable(base, #[trigger] raw@[j], offset, size),
            forall|j: int| 0 <= j < raw@.len() ==> base <= (#[trigger] raw@[j]).addr,
            forall|j: int| 0 <= j < k ==> same_area(base, #[trigger] areas@[j], raw@[j]),
            forall|frame: int, ch: int|
                #![trigger place(areas@[ch], offset + frame)]
                0 <= frame < size && 0 <= ch < k ==> {
                    &&& place(areas@[ch], offset + frame) + 4 <= len
                    &&& areas@[ch].first + (offset + frame) * areas@[ch].step <= u64::MAX
                },
        decreases raw@.len() - k,
    {
        let a = raw[k];
        assert(base <= raw@[k as int].addr);
        assert(raw@.take(k as int + 1).drop_last() =~= raw@.take(k as int));
        proof {
            assert(0 <= (offset + size - 1) * a.step || size == 0) by (nonlinear_arith)
                requires
                    offset >= 0,
                    size >= 0,
                    a.step >= 0,
            ;
        }
        let start: u64 = a.addr - base;
        if start > usize::MAX as u64 {
            return None;
        }
        let area = ChannelArea { addr: start as usize, first: a.first, step: a.step };
        let ghost old_areas = areas@;
        let ghost old_len = len;
        if size > 0 {
            let last: u64 = offset + (size - 1);
            let bits: u64 = match last.checked_mul(a.step as u64) {
                Some(n) => match n.checked_add(a.first as u64) {
                    Some(b) => b,
                    None => {
                        return None;
                    },
                },
                None => {
                    return None;
                },
            };
            if bits / 8 > usize::MAX as u64 {
                return None;
            }
            let end: usize = match area.addr.checked_add((bits / 8) as usize) {
                Some(p) => match p.checked_add(4) {
                    Some(e) => e,
                    None => {
                        return None;
                    },
                },
                None => {
                    return None;
                },
            };
            if end > len {
                len = end;
            }
            proof {
                assert(end == place(area, last as int) + 4);
                assert forall|frame: int| 0 <= frame < size implies {
                    &&& #[trigger] place(area, offset + frame) + 4 <= len
                    &&& area.first + (offset + frame) * area.step <= u64::MAX
                } by {
                    lemma_place_grows(area, offset + frame, last as int);
                }
            }
        }
        areas.push(area);
        proof {
            assert forall|frame: int, ch: int|
                #![trigger place(areas@[ch], offset + frame)]
                0 <= frame < size && 0 <= ch < k + 1 implies {
                &&& place(areas@[ch], offset + frame) + 4 <= len
                &&& areas@[ch].first + (offset + frame) * areas@[ch].step <= u64::MAX
            } by {
                if ch < k {
                    assert(areas@[ch] == old_areas[ch]);
                    assert(place(old_areas[ch], offset + frame) + 4 <= old_len);
                } else {
                    assert(areas@[ch] == area);
                    assert(place(area, offset + frame) + 4 <= len);
                }
            }
        }
        k = k + 1;
    }
    Some(Region { base, len, areas })
}

/// Whether no two samples of a transfer share a byte.
pub open spec fn areas_are_apart(
    areas: Seq<ChannelArea>,
    offset: u64,
    size: u64,
    channels: usize,
) -> bool {
    forall|f: int, c: int, g: int, d: int|
        #![trigger place(areas[c], offset + f), place(areas[d], offset + g)]
        0 <= f < size && 0 <= g < size && 0 <= c < channels && 0 <= d < channels && !(f == g && c
            == d) ==> (place(areas[c], offset + f) + 4 <= place(areas[d], offset + g) || place(
            areas[d],
            offset + g,
        ) + 4 <= place(areas[c], offset + f))
}

/// The frame of a sample in interleaved order.
pub open spec fn frame_at(i: int, channels: usize) -> int {
    i / (channels as int)
}

/// The channel of a sample in interleaved order.
pub open spec fn channel_at(i: int, channels: usize) -> int {
    i % (channels as int)
}

/// The bytes `mem` with the word `x` at `at`.
pub open spec fn with_word(mem: Seq<u8>, at: int, x: u32) -> Seq<u8> {
    mem.update(at, le_bytes(x)[0]).update(at + 1, le_bytes(x)[1]).update(
        at + 2,
        le_bytes(x)[2],
    ).update(at + 3, le_bytes(x)[3])
}

/// The bytes of the buffer after the first `n` samples have been put in place.
pub open spec fn scattered(
    mem: Seq<u8>,
    samples: Seq<u32>,
    areas: Seq<ChannelArea>,
    offset: u64,
    channels: usize,
    n: nat,
) -> Seq<u8>
    decreases n,
{
    if n == 0 {
        mem
    } else {
        let i = n - 1;
        with_word(
            scattered(mem, samples, areas, offset, channels, (n - 1) as nat),
            place(areas[channel_at(i, channels)], offset + frame_at(i, channels)),
            samples[i],
        )
    }
}

proof fn lemma_index(frame: int, ch: int, channels: int, size: int)
    requires
        0 <= frame < size,
        0 <= ch < channels,
    ensures
        (frame * channels + ch) / channels == frame,
        (frame * channels + ch) % channels == ch,
        0 <= frame * channels + ch < size * channels,
{
    vstd::arithmetic::div_mod::lemma_fundamental_div_mod_converse(
        frame * channels + ch,
        channels,
        frame,
        ch,
    );
    assert(frame * channels + ch < size * channels) by (nonlinear_arith)
        requires
            0 <= frame < size,
            0 <= ch < channels,
    ;
    assert(0 <= frame * channels) by (nonlinear_arith)
        requires
            0 <= frame,
            0 <= ch < channels,
    ;
}

proof fn lemma_coordinates(i: int, channels: int, size: int)
    requires
        0 <= i < size * channels,
        channels > 0,
    ensures
        0 <= i / channels < size,
        0 <= i % channels < channels,
{
    assert(0 <= i / channels < size) by (nonlinear_arith)
        requires
            0 <= i < size * channels,
            channels > 0,
    ;
}

/// The place of a sample, computed.
fn sample_place(area: &ChannelArea, frame: u64) -> (p: usize)
    requires
        area.first + frame * area.step <= u64::MAX,
        place(*area, frame as int) <= usize::MAX,
    ensures
        p == place(*area, frame as int),
{
    assert(0 <= frame * area.step) by (nonlinear_arith)
        requires
            frame >= 0,
            area.step >= 0,
    ;
    let bits: u64 = area.first as u64 + frame * area.step as u64;
    area.addr + (bits / 8) as usize
}

/// Copies channel areas into interleaved samples.
pub fn gather_interleaved(
    memory: &[u8],
    areas: &[ChannelArea],
    offset: u64,
    size: u64,
    channels: usize,
) -> (samples: Vec<u32>)
    requires
        areas_fit(memory@.len(), areas@, offset, size, channels),
    ensures
        samples@.len() == size * channels,
        forall|i: int|
            0 <= i < size * channels ==> #[trigger] samples@[i] == le_word(
                memory@,
                place(areas@[channel_at(i, channels)], offset + frame_at(i, channels)),
            ),
{
    let mut samples: Vec<u32> = Vec::new();
    let len: usize = memory.len();
    let mut frame: u64 = 0;
    while frame < size
        invariant
            frame <= size,
            len == memory@.len(),
            areas_fit(memory@.len(), areas@, offset, size, channels),
            samples@.len() == frame * channels,
            forall|i: int|
                0 <= i < frame * channels ==> #[trigger] samples@[i] == le_word(
                    memory@,
                    place(areas@[channel_at(i, channels)], offset + frame_at(i, channels)),
                ),
        decreases size - frame,
    {
        let mut ch: usize = 0;
        while ch < channels
            invariant
                frame < size,
                ch <= channels,
                len == memory@.len(),
                areas_fit(memory@.len(), areas@, offset, size, channels),
                samples@.len() == frame * channels + ch,
                forall|i: int|
                    0 <= i < frame * channels + ch ==> #[trigger] samples@[i] == le_word(
                        memory@,
                        place(areas@[channel_at(i, channels)], offset + frame_at(i, channels)),
                    ),
            decreases channels - ch,
        {
            proof {
                lemma_index(frame as int, ch as int, channels as int, size as int);
                assert(place(areas@[ch as int], offset + frame as int) + 4 <= len);
                lemma_place_is_not_negative(areas@[ch as int], (offset + frame) as int);
            }
            let at: usize = sample_place(&areas[ch], offset + frame);
            samples.push(read_word(memory, at));
            ch = ch + 1;
        }
        proof {
            assert((frame + 1) * channels == frame * channels + channels) by (nonlinear_arith);
        }
        frame = frame + 1;
    }
    samples
}

proof fn lemma_place_is_not_negative(area: ChannelArea, frame: int)
    requires
        frame >= 0,
    ensures
        place(area, frame) >= area.addr,
{
    assert(0 <= frame * area.step) by (nonlinear_arith)
        requires
            frame >= 0,
            area.step >= 0,
    ;
}

/// Copies interleaved samples into channel areas.
pub fn scatter_interleaved(
    memory: &mut Vec<u8>,
    samples: &[u32],
    areas: &[ChannelArea],
    offset: u64,
    size: u64,
    channels: usize,
)
    requires
        areas_fit(old(memory)@.len(), areas@, offset, size, channels),
        samples@.len() == size * channels,
    ensures
        final(memory)@ == scattered(
            old(memory)@,
            samples@,
            areas@,
            offset,
            channels,
            samples@.len(),
        ),
        final(memory)@.len() == old(memory)@.len(),
{
    let ghost start = memory@;
    let len: usize = memory.len();
    let mut frame: u64 = 0;
    while frame < size
        invariant
            frame <= size,
            len == memory@.len(),
            len == start.len(),
            samples@.len() == size * channels,
            areas_fit(start.len(), areas@, offset, size, channels),
            0 <= frame * channels <= size * channels,
            memory@ == scattered(
                start,
                samples@,
                areas@,
                offset,
                channels,
                (frame * channels) as nat,
            ),
        decreases size - frame,
    {
        let mut ch: usize = 0;
        while ch < channels
            invariant
                frame < size,
                ch <= channels,
                len == memory@.len(),
                len == start.len(),
                samples@.len() == size * channels,
                areas_fit(start.len(), areas@, offset, size, channels),
                0 <= frame * channels + ch <= size * channels,
                memory@ == scattered(
                    start,
                    samples@,
                    areas@,
                    offset,
                    channels,
                    (frame * channels + ch) as nat,
                ),
            decreases channels - ch,
        {
            proof {
                lemma_index(frame as int, ch as int, channels as int, size as int);
                assert(place(areas@[ch as int], offset + frame as int) + 4 <= len);
                lemma_place_is_not_negative(areas@[ch as int], (offset + frame) as int);
            }
            let at: usize = sample_place(&areas[ch], offset + frame);
            proof {
                assert(frame * channels <= usize::MAX);
                assert(0 <= frame * channels) by (nonlinear_arith)
                    requires
                        frame >= 0,
                        channels >= 0,
                ;
                assert(frame as usize == frame) by {
                    assert(frame <= frame * channels) by (nonlinear_arith)
                        requires
                            frame >= 0,
                            channels >= 1,
                    ;
                }
            }
            let x: u32 = samples[frame as usize * channels + ch];
            memory.set(at, (x % 256) as u8);
            memory.set(at + 1, (x / 256 % 256) as u8);
            memory.set(at + 2, (x / 65_536 % 256) as u8);
            memory.set(at + 3, (x / 16_777_216) as u8);
            ch = ch + 1;
        }
        proof {
            assert((frame + 1) * channels == frame * channels + channels) by (nonlinear_arith);
            assert((frame + 1) * channels <= size * channels) by (nonlinear_arith)
                requires
                    frame < size,
                    channels >= 0,
            ;
        }
        frame = frame + 1;
    }
}

/// What a scatter leaves behind: every sample that was put in place is there, and
/// no byte outside of the samples has changed.
proof fn lemma_scattered(
    mem: Seq<u8>,
    samples: Seq<u32>,
    areas: Seq<ChannelArea>,
    offset: u64,
    size: u64,
    channels: usize,
    n: nat,
    i: int,
)
    requires
        areas_fit(mem.len(), areas, offset, size, channels),
        areas_are_apart(areas, offset, size, channels),
        samples.len() == size * channels,
        n <= samples.len(),
        0 <= i < n,
    ensures
        scattered(mem, samples, areas, offset, channels, n).len() == mem.len(),
        le_word(
            scattered(mem, samples, areas, offset, channels, n),
            place(areas[channel_at(i, channels)], offset + frame_at(i, channels)),
        ) == samples[i],
    decreases n,
{
    assert(channels > 0) by (nonlinear_arith)
        requires
            0 < size * channels,
            channels >= 0,
    ;
    let last = n - 1;
    let before = scattered(mem, samples, areas, offset, channels, (n - 1) as nat);
    let after = scattered(mem, samples, areas, offset, channels, n);
    lemma_scatter_len(mem, samples, areas, offset, size, channels, n);
    lemma_scatter_len(mem, samples, areas, offset, size, channels, (n - 1) as nat);
    lemma_coordinates(last, channels as int, size as int);
    lemma_coordinates(i, channels as int, size as int);
    let lc = channel_at(last, channels);
    let lf = frame_at(last, channels);
    let at = place(areas[lc], offset + lf);
    lemma_place_is_not_negative(areas[lc], offset + lf);
    if i == last {
        assert forall|k: int| 0 <= k < 4 implies #[trigger] after[at + k] == le_bytes(
            samples[i],
        )[k] by {}
        lemma_word_round_trip(after, at, samples[i]);
    } else {
        lemma_scattered(mem, samples, areas, offset, size, channels, (n - 1) as nat, i);
        let c = channel_at(i, channels);
        let f = frame_at(i, channels);
        let p = place(areas[c], offset + f);
        lemma_place_is_not_negative(areas[c], offset + f);
        assert(!(f == lf && c == lc)) by {
            vstd::arithmetic::div_mod::lemma_fundamental_div_mod(i, channels as int);
            vstd::arithmetic::div_mod::lemma_fundamental_div_mod(last, channels as int);
        }
        assert(p + 4 <= at || at + 4 <= p);
        assert(after[p] == before[p]);
        assert(after[p + 1] == before[p + 1]);
        assert(after[p + 2] == before[p + 2]);
        assert(after[p + 3] == before[p + 3]);
    }
}

proof fn lemma_scatter_len(
    mem: Seq<u8>,
    samples: Seq<u32>,
    areas: Seq<ChannelArea>,
    offset: u64,
    size: u64,
    channels: usize,
    n: nat,
)
    requires
        areas_fit(mem.len(), areas, offset, size, channels),
        n <= size * channels,
    ensures
        scattered(mem, samples, areas, offset, channels, n).len() == mem.len(),
    decreases n,
{
    if n > 0 {
        lemma_scatter_len(mem, samples, areas, offset, size, channels, (n - 1) as nat);
        assert(channels > 0) by (nonlinear_arith)
            requires
                0 < size * channels,
                channels >= 0,
        ;
        let i = n - 1;
        lemma_coordinates(i, channels as int, size as int);
        lemma_place_is_not_negative(areas[channel_at(i, channels)], offset + frame_at(i, channels));
        assert(place(areas[channel_at(i, channels)], offset + frame_at(i, channels)) + 4
            <= mem.len());
    }
}

/// Gathering what was scattered gives the samples back, as long as no two of
/// them share a byte.
pub proof fn law_gather_undoes_scatter(
    mem: Seq<u8>,
    samples: Seq<u32>,
    areas: Seq<ChannelArea>,
    offset: u64,
    size: u64,
    channels: usize,
    i: int,
)
    requires
        areas_fit(mem.len(), areas, offset, size, channels),
        areas_are_apart(areas, offset, size, channels),
        samples.len() == size * channels,
        0 <= i < samples.len(),
    ensures
        le_word(
            scattered(mem, samples, areas, offset, channels, samples.len()),
            place(areas[channel_at(i, channels)], offset + frame_at(i, channels)),
        ) == samples[i],
{
    lemma_scattered(mem, samples, areas, offset, size, channels, samples.len(), i);
}

/// A scatter changes no byte outside of the samples.
pub proof fn law_scatter_touches_only_its_samples(
    mem: Seq<u8>,
    samples: Seq<u32>,
    areas: Seq<ChannelArea>,
    offset: u64,
    size: u64,
    channels: usize,
    n: nat,
    b: int,
)
    requires
        areas_fit(mem.len(), areas, offset, size, channels),
        samples.len() == size * channels,
        n <= samples.len(),
        0 <= b < mem.len(),
        forall|i: int|
            0 <= i < n ==> {
                let at = #[trigger] place(
                    areas[channel_at(i, channels)],
                    offset + frame_at(i, channels),
                );
                b < at || at + 4 <= b
            },
    ensures
        scattered(mem, samples, areas, offset, channels, n)[b] == mem[b],
    decreases n,
{
    if n > 0 {
        law_scatter_touches_only_its_samples(
            mem,
            samples,
            areas,
            offset,
            size,
            channels,
            (n - 1) as nat,
            b,
        );
        lemma_scatter_len(mem, samples, areas, offset, size, channels, (n - 1) as nat);
        let i = n - 1;
        let at = place(areas[channel_at(i, channels)], offset + frame_at(i, channels));
        assert(channels > 0) by (nonlinear_arith)
            requires
                0 < size * channels,
                channels >= 0,
        ;
        lemma_coordinates(i, channels as int, size as int);
        lemma_place_is_not_negative(areas[channel_at(i, channels)], offset + frame_at(i, channels));
        assert(b < at || at + 4 <= b);
    }
}

/// Before the buffer has been filled once, the position is the count of frames, and it is
/// 0 as long as there is no buffer.
pub proof fn law_position_starts_at_the_front(hw_frames: u64, buffer: u64)
    ensures
        hw_frames < buffer ==> position(hw_frames, buffer) == hw_frames,
        buffer == 0 ==> position(hw_frames, buffer) == 0,
{
    if hw_frames < buffer {
        vstd::arithmetic::div_mod::lemma_small_mod(hw_frames as nat, buffer as nat);
    }
}

/// Samples are interleaved frame by frame, with the channels of a frame in their order.
pub proof fn law_samples_are_interleaved(frame: int, ch: int, channels: usize)
    requires
        0 <= frame,
        0 <= ch < channels,
    ensures
        frame_at(frame * channels + ch, channels) == frame,
        channel_at(frame * channels + ch, channels) == ch,
{
    lemma_index(frame, ch, channels as int, frame + 1);
}

/// In an area whose distances are whole bytes, a sample lies as many bits behind the start
/// as the first sample and the frames in front of it take up.
pub proof fn law_where_a_sample_lies(area: ChannelArea, frame: int)
    requires
        0 <= frame,
    ensures
        8 * (place(area, frame) - area.addr) <= area.first + frame * area.step,
        area.first + frame * area.step < 8 * (place(area, frame) - area.addr) + 8,
        area.first % 8 == 0 && area.step % 8 == 0 ==> 8 * (place(area, frame) - area.addr)
            == area.first + frame * area.step,
{
    if area.first % 8 == 0 && area.step % 8 == 0 {
        let q = area.step as int / 8;
        assert(frame * area.step == 8 * (frame * q)) by (nonlinear_arith)
            requires
                area.step == 8 * q,
        ;
    }
}

/// Memory that holds a word has the word's four bytes at its place, the lowest first, and
/// every other byte as before.
pub proof fn law_a_word_is_put_in_place(mem: Seq<u8>, at: int, x: u32, b: int)
    requires
        0 <= at,
        at + 4 <= mem.len(),
    ensures
        with_word(mem, at, x).len() == mem.len(),
        x == with_word(mem, at, x)[at] + 256 * with_word(mem, at, x)[at + 1] + 65_536 * with_word(
            mem,
            at,
            x,
        )[at + 2] + 16_777_216 * with_word(mem, at, x)[at + 3],
        0 <= b < at || at + 4 <= b < mem.len() ==> with_word(mem, at, x)[b] == mem[b],
{
    crate::wire::law_bytes_are_little_endian(x);
}

/// The region of a transfer starts at the lowest address of a channel and ends with the
/// last byte that a sample has, and no sooner or later.
pub proof fn law_regions_are_tight(raw: Seq<RawArea>, offset: u64, size: u64, ch: int)
    requires
        raw.len() > 0,
        size > 0,
    ensures
        0 <= ch < raw.len() ==> lowest(raw) <= raw[ch].addr,
        exists|k: int| 0 <= k < raw.len() && (#[trigger] raw[k]).addr == lowest(raw),
        0 <= ch < raw.len() ==> raw[ch].addr - lowest(raw) + (raw[ch].first + (offset + size - 1)
            * raw[ch].step) / 8 + 4 <= furthest(lowest(raw), raw, offset, size),
        exists|k: int|
            0 <= k < raw.len() && (#[trigger] raw[k]).addr - lowest(raw) + (raw[k].first + (offset
                + size - 1) * raw[k].step) / 8 + 4 == furthest(lowest(raw), raw, offset, size),
{
    lemma_lowest_is_there(raw);
    lemma_furthest_is_there(lowest(raw), raw, offset, size);
    let k = choose|k: int|
        0 <= k < raw.len() && end_of(lowest(raw), #[trigger] raw[k], offset, size) == furthest(
            lowest(raw),
            raw,
            offset,
            size,
        );
    assert(raw[k].addr - lowest(raw) + (raw[k].first + (offset + size - 1) * raw[k].step) / 8 + 4
        == furthest(lowest(raw), raw, offset, size));
    if 0 <= ch < raw.len() {
        assert(end_of(lowest(raw), raw[ch], offset, size) <= furthest(
            lowest(raw),
            raw,
            offset,
            size,
        ));
    }
}

proof fn lemma_lowest_is_there(raw: Seq<RawArea>)
    ensures
        forall|k: int| 0 <= k < raw.len() ==> lowest(raw) <= (#[trigger] raw[k]).addr,
        raw.len() > 0 ==> exists|k: int|
            0 <= k < raw.len() && (#[trigger] raw[k]).addr == lowest(raw),
    decreases raw.len(),
{
    if raw.len() > 0 {
        let rest = raw.drop_last();
        let end = raw.len() - 1;
        lemma_lowest_is_there(rest);
        assert forall|k: int| 0 <= k < raw.len() implies lowest(raw) <= (#[trigger] raw[k]).addr by {
            if k < end {
                assert(raw[k] == rest[k]);
            }
        }
        if raw[end].addr == lowest(raw) {
            assert(raw[end].addr == lowest(raw));
        } else if rest.len() > 0 {
            let k = choose|k: int|
                0 <= k < rest.len() && (#[trigger] rest[k]).addr == lowest(rest);
            assert(raw[k].addr == lowest(raw));
        } else {
            assert(lowest(rest) == u64::MAX);
        }
    }
}

proof fn lemma_furthest_is_there(base: u64, raw: Seq<RawArea>, offset: u64, size: u64)
    requires
        size > 0,
        forall|k: int| 0 <= k < raw.len() ==> base <= (#[trigger] raw[k]).addr,
    ensures
        furthest(base, raw, offset, size) >= 0,
        forall|k: int|
            0 <= k < raw.len() ==> end_of(base, #[trigger] raw[k], offset, size) <= furthest(
                base,
                raw,
                offset,
                size,
            ),
        raw.len() > 0 ==> exists|k: int|
            0 <= k < raw.len() && end_of(base, #[trigger] raw[k], offset, size) == furthest(
                base,
                raw,
                offset,
                size,
            ),
    decreases raw.len(),
{
    if raw.len() > 0 {
        let rest = raw.drop_last();
        let end = raw.len() - 1;
        let most = furthest(base, raw, offset, size);
        assert forall|k: int| 0 <= k < rest.len() implies base <= (#[trigger] rest[k]).addr by {
            assert(rest[k] == raw[k]);
        }
        lemma_furthest_is_there(base, rest, offset, size);
        assert(end_of(base, raw[end], offset, size) > 0) by {
            assert(0 <= (offset + size - 1) * raw[end].step) by (nonlinear_arith)
                requires
                    offset >= 0,
                    size > 0,
                    raw[end].step >= 0,
            ;
        }
        assert forall|k: int| 0 <= k < raw.len() implies end_of(
            base,
            #[trigger] raw[k],
            offset,
            size,
        ) <= most by {
            if k < end {
                assert(raw[k] == rest[k]);
            }
        }
        if end_of(base, raw[end], offset, size) == most {
            assert(end_of(base, raw[end], offset, size) == most);
        } else {
            assert(rest.len() > 0);
            let k = choose|k: int|
                0 <= k < rest.len() && end_of(base, #[trigger] rest[k], offset, size) == furthest(
                    base,
                    rest,
                    offset,
                    size,
                );
            assert(end_of(base, raw[k], offset, size) == most);
        }
    }
}

} // verus!
