//! The bridge protocol between the plugin and the server.
//!
//! A stream opens with a handshake of five little-endian words, sent by the
//! plugin and echoed by the server:
//!
//! ```text
//! [BRIDGE_MAGIC, BRIDGE_PROTO_VERSION, stream_dir, channels, rate]
//! ```
//!
//! `stream_dir` follows the ALSA convention, 0 for playback and 1 for capture.
//! What follows is raw interleaved 32-bit samples, little-endian, without
//! framing. A sample is carried here as its bit pattern.

use crate::text::{append_decimal, append_hex, decimal, hex, with_number};
use crate::wire::{
    le_bytes, le_bytes_of, le_word, lemma_word_round_trip, lemma_words_round_trip, push_word,
    push_words, read_word, read_words,
};
use vstd::prelude::*;

verus! {

/// Marker of the protocol.
pub const BRIDGE_MAGIC: u32 = 0x5342_4E52;

/// Protocol revision understood by this build.
pub const BRIDGE_PROTO_VERSION: u32 = 1;

/// Upper bound accepted for a channel count.
pub const MAX_CHANNELS: u32 = 1024;

/// Upper bound accepted for a sample rate.
pub const MAX_RATE: u32 = 768_000;

/// Length of a handshake on the wire.
pub const HANDSHAKE_LEN: usize = 20;

/// Stream direction, with the wire values of `snd_pcm_stream_t`.
#[derive(Debug, Clone, Copy, PartialEq, Eq, Structural)]
pub enum StreamDir {
    /// The plugin sends audio to the server; 0 on the wire.
    Playback,
    /// The server sends audio to the plugin; 1 on the wire.
    Capture,
}

impl StreamDir {
    /// The wire value of a direction.
    pub open spec fn wire(self) -> u32 {
        match self {
            StreamDir::Playback => 0,
            StreamDir::Capture => 1,
        }
    }

    /// The wire value of this direction.
    pub fn to_u32(self) -> (v: u32)
        ensures
            v == self.wire(),
    {
        match self {
            StreamDir::Playback => 0,
            StreamDir::Capture => 1,
        }
    }

    /// Decodes a wire value; anything but 0 and 1 is invalid.
    pub fn from_u32(v: u32) -> (dir: Option<Self>)
        ensures
            dir == direction_of(v),
    {
        match v {
            0 => Some(StreamDir::Playback),
            1 => Some(StreamDir::Capture),
            _ => None,
        }
    }
}

/// The direction with wire value `v`.
pub open spec fn direction_of(v: u32) -> Option<StreamDir> {
    if v == 0 {
        Some(StreamDir::Playback)
    } else if v == 1 {
        Some(StreamDir::Capture)
    } else {
        None
    }
}

/// The opening frame of a stream.
#[derive(Debug, Clone, Copy, PartialEq, Eq, Structural)]
pub struct Handshake {
    /// Marker; [`BRIDGE_MAGIC`] from this build.
    pub magic: u32,
    /// Protocol revision; [`BRIDGE_PROTO_VERSION`] from this build.
    pub version: u32,
    /// Stream direction.
    pub stream_dir: StreamDir,
    /// Channel count offered by the opener.
    pub channels: u32,
    /// Sample rate offered by the opener.
    pub rate: u32,
}

impl Handshake {
    /// The handshake that this build sends for a stream setup.
    pub open spec fn offer(stream_dir: StreamDir, channels: u32, rate: u32) -> Handshake {
        Handshake {
            magic: BRIDGE_MAGIC,
            version: BRIDGE_PROTO_VERSION,
            stream_dir,
            channels,
            rate,
        }
    }

    /// Whether a peer accepts the handshake.
    pub open spec fn acceptable(self) -> bool {
        &&& self.magic == BRIDGE_MAGIC
        &&& self.version == BRIDGE_PROTO_VERSION
        &&& 1 <= self.channels <= MAX_CHANNELS
        &&& 1 <= self.rate <= MAX_RATE
    }

    /// The twenty bytes of the handshake.
    pub open spec fn encoding(self) -> Seq<u8> {
        le_bytes(self.magic) + le_bytes(self.version) + le_bytes(self.stream_dir.wire()) + le_bytes(
            self.channels,
        ) + le_bytes(self.rate)
    }

    /// Builds the handshake that this build sends for the given stream setup.
    pub fn new(stream_dir: StreamDir, channels: u32, rate: u32) -> (hs: Self)
        ensures
            hs == Handshake::offer(stream_dir, channels, rate),
    {
        Handshake {
            magic: BRIDGE_MAGIC,
            version: BRIDGE_PROTO_VERSION,
            stream_dir,
            channels,
            rate,
        }
    }
}

/// Errors from reading and validating a handshake.
#[derive(Debug, Clone, PartialEq, Eq)]
pub enum HandshakeError {
    /// The twenty bytes could not be read; carries the reason.
    Io(String),
    /// The peer does not speak the bridge protocol.
    BadMagic(u32),
    /// The peer speaks another protocol revision.
    UnsupportedVersion(u32),
    /// A field is out of range; carries its name.
    Invalid(&'static str),
}

/// What is wrong with the bytes of a handshake, before any text is made of it.
pub enum HandshakeFault {
    /// Fewer bytes than a handshake has.
    Short,
    /// The marker differs.
    Magic(u32),
    /// The protocol revision differs.
    Version(u32),
    /// The direction is none.
    StreamDir,
    /// The channel count is out of range.
    Channels,
    /// The sample rate is out of range.
    Rate,
}

/// The handshake that `bytes` starts with, or the first thing wrong with it.
pub open spec fn handshake_of(bytes: Seq<u8>) -> Result<Handshake, HandshakeFault> {
    if bytes.len() < HANDSHAKE_LEN {
        Err(HandshakeFault::Short)
    } else if le_word(bytes, 0) != BRIDGE_MAGIC {
        Err(HandshakeFault::Magic(le_word(bytes, 0)))
    } else if le_word(bytes, 4) != BRIDGE_PROTO_VERSION {
        Err(HandshakeFault::Version(le_word(bytes, 4)))
    } else if direction_of(le_word(bytes, 8)) is None {
        Err(HandshakeFault::StreamDir)
    } else if !(1 <= le_word(bytes, 12) <= MAX_CHANNELS) {
        Err(HandshakeFault::Channels)
    } else if !(1 <= le_word(bytes, 16) <= MAX_RATE) {
        Err(HandshakeFault::Rate)
    } else {
        Ok(
            Handshake::offer(
                direction_of(le_word(bytes, 8))->0,
                le_word(bytes, 12),
                le_word(bytes, 16),
            ),
        )
    }
}

/// Whether `e` is the error that reports `fault`.
pub open spec fn reports(e: HandshakeError, fault: HandshakeFault) -> bool {
    match fault {
        HandshakeFault::Short => e matches HandshakeError::Io(text) && text@
            == "failed to fill whole buffer"@,
        HandshakeFault::Magic(m) => e == HandshakeError::BadMagic(m),
        HandshakeFault::Version(v) => e == HandshakeError::UnsupportedVersion(v),
        HandshakeFault::StreamDir => e matches HandshakeError::Invalid(what) && what@
            == "stream_dir"@,
        HandshakeFault::Channels => e matches HandshakeError::Invalid(what) && what@ == "channels"@,
        HandshakeFault::Rate => e matches HandshakeError::Invalid(what) && what@ == "rate"@,
    }
}

/// Appends the wire frame of `hs`.
pub fn write_handshake(w: &mut Vec<u8>, hs: &Handshake)
    ensures
        final(w)@ == old(w)@ + hs.encoding(),
{
    push_word(w, hs.magic);
    push_word(w, hs.version);
    push_word(w, hs.stream_dir.to_u32());
    push_word(w, hs.channels);
    push_word(w, hs.rate);
    proof {
        assert(w@ =~= old(w)@ + hs.encoding());
    }
}

/// Reads and validates the handshake that `r` starts with.
pub fn read_handshake(r: &[u8]) -> (res: Result<Handshake, HandshakeError>)
    ensures
        match handshake_of(r@) {
            Ok(hs) => res == Ok::<Handshake, HandshakeError>(hs),
            Err(fault) => res is Err && reports(res->Err_0, fault),
        },
{
    if r.len() < HANDSHAKE_LEN {
        return Err(HandshakeError::Io("failed to fill whole buffer".to_owned()));
    }
    let magic: u32 = read_word(r, 0);
    if magic != BRIDGE_MAGIC {
        return Err(HandshakeError::BadMagic(magic));
    }
    let version: u32 = read_word(r, 4);
    if version != BRIDGE_PROTO_VERSION {
        return Err(HandshakeError::UnsupportedVersion(version));
    }
    let stream_dir = match StreamDir::from_u32(read_word(r, 8)) {
        Some(dir) => dir,
        None => {
            return Err(HandshakeError::Invalid("stream_dir"));
        },
    };
    let channels: u32 = read_word(r, 12);
    if channels == 0 || channels > MAX_CHANNELS {
        return Err(HandshakeError::Invalid("channels"));
    }
    let rate: u32 = read_word(r, 16);
    if rate == 0 || rate > MAX_RATE {
        return Err(HandshakeError::Invalid("rate"));
    }
    Ok(Handshake { magic, version, stream_dir, channels, rate })
}

/// Appends `samples` as raw little-endian payload.
pub fn send_frames(w: &mut Vec<u8>, samples: &[u32])
    ensures
        final(w)@ == old(w)@ + le_bytes_of(samples@),
{
    push_words(w, samples);
}

/// A payload that ended early.
#[derive(Debug, Clone, Copy, PartialEq, Eq, Structural)]
pub struct ShortRead {
    /// Samples that were needed.
    pub samples: usize,
    /// Bytes that were there.
    pub bytes: usize,
}

/// Receives exactly `out.len()` samples into `out`; on a short payload `out`
/// stays as it was.
pub fn recv_frames_into(r: &[u8], out: &mut Vec<u32>) -> (res: Result<(), ShortRead>)
    ensures
        final(out)@.len() == old(out)@.len(),
        res is Ok <==> r@.len() >= 4 * old(out)@.len(),
        res is Ok ==> forall|i: int|
            0 <= i < old(out)@.len() ==> #[trigger] final(out)@[i] == le_word(r@, 4 * i),
        res is Err ==> final(out)@ == old(out)@ && res->Err_0 == (ShortRead {
            samples: old(out)@.len() as usize,
            bytes: r@.len() as usize,
        }),
{
    let n: usize = out.len();
    if r.len() / 4 < n {
        return Err(ShortRead { samples: n, bytes: r.len() });
    }
    *out = read_words(r, 0, n);
    Ok(())
}

/// Errors from opening a stream.
#[derive(Debug, Clone, PartialEq, Eq)]
pub enum OpenError {
    /// The socket failed; carries the reason.
    Io(String),
    /// The peer sent a malformed or incompatible handshake.
    Handshake(HandshakeError),
    /// The peer's echo disagrees with the offered setup.
    Mismatch {
        /// What this side offered.
        offered: Handshake,
        /// What the peer echoed.
        echoed: Handshake,
    },
}

/// Whether two handshakes agree on the stream setup.
pub open spec fn same_setup(a: Handshake, b: Handshake) -> bool {
    a.stream_dir == b.stream_dir && a.channels == b.channels && a.rate == b.rate
}

/// Validates the peer's echo of `offered`, which `reply` starts with, and
/// returns it.
pub fn accept_echo(offered: &Handshake, reply: &[u8]) -> (res: Result<Handshake, OpenError>)
    ensures
        match handshake_of(reply@) {
            Ok(echoed) => if same_setup(echoed, *offered) {
                res == Ok::<Handshake, OpenError>(echoed)
            } else {
                res == Err::<Handshake, OpenError>(
                    OpenError::Mismatch { offered: *offered, echoed },
                )
            },
            Err(fault) => res matches Err(OpenError::Handshake(e)) && reports(e, fault),
        },
{
    match read_handshake(reply) {
        Err(e) => Err(OpenError::Handshake(e)),
        Ok(echoed) => {
            if echoed.stream_dir != offered.stream_dir || echoed.channels != offered.channels
                || echoed.rate != offered.rate {
                return Err(OpenError::Mismatch { offered: *offered, echoed });
            }
            Ok(echoed)
        },
    }
}

impl HandshakeError {
    /// The text of the error.
    pub open spec fn text(self) -> Seq<char> {
        match self {
            HandshakeError::Io(e) => "handshake i/o: "@ + e@,
            HandshakeError::BadMagic(m) => "bad handshake magic 0x"@ + hex(m as nat, 8),
            HandshakeError::UnsupportedVersion(v) => "unsupported bridge version "@ + decimal(
                v as nat,
            ),
            HandshakeError::Invalid(what) => "invalid handshake field: "@ + what@,
        }
    }

    /// The text of the error.
    pub fn message(&self) -> (s: String)
        ensures
            s@ == self.text(),
    {
        match self {
            HandshakeError::Io(e) => {
                let mut s = "handshake i/o: ".to_owned();
                s.append(e.as_str());
                s
            },
            HandshakeError::BadMagic(m) => {
                let mut s = "bad handshake magic 0x".to_owned();
                append_hex(&mut s, *m, 8);
                s
            },
            HandshakeError::UnsupportedVersion(v) => with_number(
                "unsupported bridge version ",
                *v as u64,
            ),
            HandshakeError::Invalid(what) => {
                let mut s = "invalid handshake field: ".to_owned();
                s.append(what);
                s
            },
        }
    }
}

impl StreamDir {
    /// The name of the direction.
    pub open spec fn name(self) -> Seq<char> {
        match self {
            StreamDir::Playback => "Playback"@,
            StreamDir::Capture => "Capture"@,
        }
    }
}

impl Handshake {
    /// The fields of the handshake, for log lines.
    pub open spec fn text(self) -> Seq<char> {
        "Handshake { magic: "@ + decimal(self.magic as nat) + ", version: "@ + decimal(
            self.version as nat,
        ) + ", stream_dir: "@ + self.stream_dir.name() + ", channels: "@ + decimal(
            self.channels as nat,
        ) + ", rate: "@ + decimal(self.rate as nat) + " }"@
    }

    /// The fields of the handshake, for log lines.
    pub fn describe(&self) -> (s: String)
        ensures
            s@ == self.text(),
    {
        let mut s = with_number("Handshake { magic: ", self.magic as u64);
        s.append(", version: ");
        append_decimal(&mut s, self.version as u64);
        s.append(", stream_dir: ");
        s.append(
            match self.stream_dir {
                StreamDir::Playback => "Playback",
                StreamDir::Capture => "Capture",
            },
        );
        s.append(", channels: ");
        append_decimal(&mut s, self.channels as u64);
        s.append(", rate: ");
        append_decimal(&mut s, self.rate as u64);
        s.append(" }");
        s
    }
}

impl OpenError {
    /// The text of the error.
    pub open spec fn text(self) -> Seq<char> {
        match self {
            OpenError::Io(e) => "bridge connect: "@ + e@,
            OpenError::Handshake(e) => "bridge handshake: "@ + e.text(),
            OpenError::Mismatch { offered, echoed } => "bridge echo mismatch: offered "@
                + offered.text() + ", echoed "@ + echoed.text(),
        }
    }

    /// The text of the error.
    pub fn message(&self) -> (s: String)
        ensures
            s@ == self.text(),
    {
        match self {
            OpenError::Io(e) => {
                let mut s = "bridge connect: ".to_owned();
                s.append(e.as_str());
                s
            },
            OpenError::Handshake(e) => {
                let mut s = "bridge handshake: ".to_owned();
                s.append(e.message().as_str());
                s
            },
            OpenError::Mismatch { offered, echoed } => {
                let mut s = "bridge echo mismatch: offered ".to_owned();
                s.append(offered.describe().as_str());
                s.append(", echoed ");
                s.append(echoed.describe().as_str());
                s
            },
        }
    }
}

/// A handshake that is read back from its own encoding is the handshake that
/// was written, exactly when it is acceptable.
pub proof fn law_handshake_round_trip(hs: Handshake, rest: Seq<u8>)
    ensures
        handshake_of(hs.encoding() + rest) == Ok::<Handshake, HandshakeFault>(hs)
            <==> hs.acceptable(),
        hs.encoding().len() == HANDSHAKE_LEN,
{
    let bytes = hs.encoding() + rest;
    assert forall|k: int| 0 <= k < 4 implies #[trigger] bytes[0 + k] == le_bytes(hs.magic)[k] by {}
    lemma_word_round_trip(bytes, 0, hs.magic);
    assert forall|k: int| 0 <= k < 4 implies #[trigger] bytes[4 + k] == le_bytes(
        hs.version,
    )[k] by {}
    lemma_word_round_trip(bytes, 4, hs.version);
    assert forall|k: int| 0 <= k < 4 implies #[trigger] bytes[8 + k] == le_bytes(
        hs.stream_dir.wire(),
    )[k] by {}
    lemma_word_round_trip(bytes, 8, hs.stream_dir.wire());
    assert forall|k: int| 0 <= k < 4 implies #[trigger] bytes[12 + k] == le_bytes(
        hs.channels,
    )[k] by {}
    lemma_word_round_trip(bytes, 12, hs.channels);
    assert forall|k: int| 0 <= k < 4 implies #[trigger] bytes[16 + k] == le_bytes(hs.rate)[k] by {}
    lemma_word_round_trip(bytes, 16, hs.rate);
}

/// Whatever is accepted as a handshake is an acceptable one.
pub proof fn law_accepted_handshakes_are_acceptable(bytes: Seq<u8>)
    requires
        handshake_of(bytes) is Ok,
    ensures
        handshake_of(bytes)->Ok_0.acceptable(),
{
}

/// A peer that echoes an acceptable offer verbatim is accepted; one that
/// echoes another acceptable setup is not.
pub proof fn law_verbatim_echo_is_agreed(offered: Handshake, echoed: Handshake)
    requires
        offered.acceptable(),
        echoed.acceptable(),
    ensures
        handshake_of(echoed.encoding()) == Ok::<Handshake, HandshakeFault>(echoed),
        same_setup(echoed, offered) <==> echoed == offered,
{
    law_handshake_round_trip(echoed, Seq::empty());
    assert(echoed.encoding() + Seq::<u8>::empty() =~= echoed.encoding());
}

/// Samples survive the payload bit for bit: each sample that
/// [`recv_frames_into`] reads of what [`send_frames`] wrote is the sample sent.
pub proof fn law_payload_round_trip(samples: Seq<u32>, i: int)
    requires
        0 <= i < samples.len(),
    ensures
        le_bytes_of(samples).len() == 4 * samples.len(),
        le_word(le_bytes_of(samples), 4 * i) == samples[i],
{
    lemma_words_round_trip(Seq::empty(), samples, i);
    assert(Seq::<u8>::empty() + le_bytes_of(samples) =~= le_bytes_of(samples));
}

/// A handshake is twenty bytes: the marker, the protocol revision, the direction (0 for
/// playback, 1 for capture), the channel count and the rate, each as four bytes with the
/// lowest first.
pub proof fn law_handshakes_are_laid_out(hs: Handshake)
    ensures
        hs.encoding().len() == 20,
        hs.magic == hs.encoding()[0] + 256 * hs.encoding()[1] + 65_536 * hs.encoding()[2] + 16_777_216 * hs.encoding()[3],
        hs.version == hs.encoding()[4] + 256 * hs.encoding()[5] + 65_536 * hs.encoding()[6] + 16_777_216 * hs.encoding()[7],
        hs.stream_dir == StreamDir::Playback ==> hs.encoding()[8] + 256 * hs.encoding()[9] + 65_536 * hs.encoding()[10] + 16_777_216 * hs.encoding()[11] == 0,
        hs.stream_dir == StreamDir::Capture ==> hs.encoding()[8] + 256 * hs.encoding()[9] + 65_536 * hs.encoding()[10] + 16_777_216 * hs.encoding()[11] == 1,
        hs.channels == hs.encoding()[12] + 256 * hs.encoding()[13] + 65_536 * hs.encoding()[14] + 16_777_216 * hs.encoding()[15],
        hs.rate == hs.encoding()[16] + 256 * hs.encoding()[17] + 65_536 * hs.encoding()[18] + 16_777_216 * hs.encoding()[19],
{
    crate::wire::law_bytes_are_little_endian(hs.magic);
    crate::wire::law_bytes_are_little_endian(hs.version);
    crate::wire::law_bytes_are_little_endian(hs.stream_dir.wire());
    crate::wire::law_bytes_are_little_endian(hs.channels);
    crate::wire::law_bytes_are_little_endian(hs.rate);
}

/// A handshake is accepted exactly when there are twenty bytes, the marker and the
/// protocol revision are those of this build, the direction is 0 or 1, the channel count
/// is from 1 to 1024 and the rate from 1 to 768000, and it is read as what it says.
pub proof fn law_which_handshakes_are_accepted(bytes: Seq<u8>)
    ensures
        ({
            let magic = bytes[0] + 256 * bytes[1] + 65_536 * bytes[2] + 16_777_216 * bytes[3];
            let version = bytes[4] + 256 * bytes[5] + 65_536 * bytes[6] + 16_777_216 * bytes[7];
            let dir = bytes[8] + 256 * bytes[9] + 65_536 * bytes[10] + 16_777_216 * bytes[11];
            let channels = bytes[12] + 256 * bytes[13] + 65_536 * bytes[14] + 16_777_216 * bytes[15];
            let rate = bytes[16] + 256 * bytes[17] + 65_536 * bytes[18] + 16_777_216 * bytes[19];
            &&& handshake_of(bytes) is Ok <==> {
                &&& bytes.len() >= 20
                &&& magic == 0x5342_4E52
                &&& version == 1
                &&& dir == 0 || dir == 1
                &&& 1 <= channels <= 1024
                &&& 1 <= rate <= 768_000
            }
            &&& handshake_of(bytes) matches Ok(hs) ==> {
                &&& hs.magic == magic
                &&& hs.version == version
                &&& hs.stream_dir == StreamDir::Playback <==> dir == 0
                &&& hs.stream_dir == StreamDir::Capture <==> dir == 1
                &&& hs.channels == channels
                &&& hs.rate == rate
            }
            &&& handshake_of(bytes) matches Err(HandshakeFault::Magic(m)) ==> m == magic && m
                != 0x5342_4E52
            &&& handshake_of(bytes) matches Err(HandshakeFault::Version(v)) ==> v == version && v
                != 1
        }),
{
    if bytes.len() >= 20 {
        crate::wire::law_words_are_little_endian(bytes, 0);
        crate::wire::law_words_are_little_endian(bytes, 4);
        crate::wire::law_words_are_little_endian(bytes, 8);
        crate::wire::law_words_are_little_endian(bytes, 12);
        crate::wire::law_words_are_little_endian(bytes, 16);
    }
}

/// What is reported of a refused handshake is the first thing that is wrong with it.
pub proof fn law_the_first_wrong_field_is_reported(bytes: Seq<u8>)
    ensures
        bytes.len() < 20 <==> handshake_of(bytes) matches Err(HandshakeFault::Short),
        bytes.len() >= 20 ==> {
            let magic = bytes[0] + 256 * bytes[1] + 65_536 * bytes[2] + 16_777_216
                * bytes[3];
            let version = bytes[4] + 256 * bytes[5] + 65_536 * bytes[6] + 16_777_216
                * bytes[7];
            let dir = bytes[8] + 256 * bytes[9] + 65_536 * bytes[10] + 16_777_216
                * bytes[11];
            let channels = bytes[12] + 256 * bytes[13] + 65_536 * bytes[14] + 16_777_216
                * bytes[15];
            let rate = bytes[16] + 256 * bytes[17] + 65_536 * bytes[18] + 16_777_216
                * bytes[19];
            let outcome = handshake_of(bytes);
            if magic != 0x5342_4E52 {
                outcome matches Err(HandshakeFault::Magic(m)) && m == magic
            } else if version != 1 {
                outcome matches Err(HandshakeFault::Version(v)) && v == version
            } else if dir > 1 {
                outcome matches Err(HandshakeFault::StreamDir)
            } else if channels == 0 || channels > 1024 {
                outcome matches Err(HandshakeFault::Channels)
            } else if rate == 0 || rate > 768_000 {
                outcome matches Err(HandshakeFault::Rate)
            } else {
                outcome is Ok
            }
        },
{
    law_which_handshakes_are_accepted(bytes);
    if bytes.len() >= 20 {
        crate::wire::law_words_are_little_endian(bytes, 0);
        crate::wire::law_words_are_little_endian(bytes, 4);
        crate::wire::law_words_are_little_endian(bytes, 8);
        crate::wire::law_words_are_little_endian(bytes, 12);
        crate::wire::law_words_are_little_endian(bytes, 16);
    }
}

/// A setup is offered as it is, under the marker and the revision of this build; two
/// offers agree exactly when they are of the same direction, channel count and rate.
pub proof fn law_offers_hold_the_setup(
    dir: StreamDir,
    channels: u32,
    rate: u32,
    dir2: StreamDir,
    channels2: u32,
    rate2: u32,
)
    ensures
        Handshake::offer(dir, channels, rate).stream_dir == dir,
        Handshake::offer(dir, channels, rate).channels == channels,
        Handshake::offer(dir, channels, rate).rate == rate,
        Handshake::offer(dir, channels, rate).magic == 0x5342_4E52,
        Handshake::offer(dir, channels, rate).version == 1,
        same_setup(Handshake::offer(dir, channels, rate), Handshake::offer(dir2, channels2, rate2))
            <==> dir == dir2 && channels == channels2 && rate == rate2,
        direction_of(dir.wire()) == Some(dir),
{
}

/// What is shown of a handshake error says what kind it is and ends in what it carries.
pub proof fn law_handshake_errors_end_in_what_is_wrong(e: HandshakeError)
    ensures
        e matches HandshakeError::Io(m) ==> crate::text::ends_in(e.text(), m@) && e.text().take("handshake i/o: "@.len() as int) == "handshake i/o: "@,
        e matches HandshakeError::BadMagic(m) ==> crate::text::ends_in(e.text(), hex(m as nat, 8)) && e.text().take("bad handshake magic 0x"@.len() as int) == "bad handshake magic 0x"@,
        e matches HandshakeError::UnsupportedVersion(v) ==> crate::text::ends_in(e.text(), decimal(v as nat)) && e.text().take("unsupported bridge version "@.len() as int) == "unsupported bridge version "@,
        e matches HandshakeError::Invalid(what) ==> crate::text::ends_in(e.text(), what@) && e.text().take("invalid handshake field: "@.len() as int) == "invalid handshake field: "@,
{
    match e {
        HandshakeError::Io(m) => crate::text::lemma_ends_in("handshake i/o: "@, m@),
        HandshakeError::BadMagic(m) => crate::text::lemma_ends_in("bad handshake magic 0x"@, hex(m as nat, 8)),
        HandshakeError::UnsupportedVersion(v) => crate::text::lemma_ends_in("unsupported bridge version "@, decimal(v as nat)),
        HandshakeError::Invalid(what) => crate::text::lemma_ends_in("invalid handshake field: "@, what@),
    }
}

} // verus!
