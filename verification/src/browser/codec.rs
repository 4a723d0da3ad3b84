//! Binary frames of the WebSocket transport.
//!
//! A message is a header of six bytes and a payload:
//!
//! ```text
//! 0     codec tag    0 = planar PCM, 1 = Opus
//! 1     channels
//! 2..6  sample rate  little-endian
//! 6..   payload
//! ```
//!
//! A PCM payload is planar 32-bit samples, little-endian; its length is a
//! multiple of four bytes for each channel, and not zero. Opus is not built in,
//! so a message with that tag is rejected.

use crate::frame::{PcmFrame, PcmFrameView};
use crate::text::{append_decimal, decimal, with_number};
use crate::wire::{
    le_bytes, le_bytes_of, le_word, lemma_word_round_trip, lemma_words_round_trip, push_word,
    push_words, read_word, read_words,
};
use vstd::prelude::*;

verus! {

/// Length of the header, in bytes.
pub const HEADER_LEN: usize = 6;

/// Codec tag of planar PCM.
pub const TAG_PCM: u8 = 0;

/// Codec tag of an Opus packet.
pub const TAG_OPUS: u8 = 1;

/// Errors of the browser gateway.
#[derive(Debug, Clone, PartialEq, Eq)]
pub enum GatewayError {
    /// The operation does not exist yet.
    Unimplemented(&'static str),
    /// The transport failed.
    WebSocket(String),
    /// A client sent a malformed frame, or a frame cannot be sent.
    BadFrame(String),
}

impl GatewayError {
    /// The text of the error.
    pub open spec fn text(self) -> Seq<char> {
        match self {
            GatewayError::Unimplemented(what) => "not implemented: "@ + what@,
            GatewayError::WebSocket(e) => "websocket: "@ + e@,
            GatewayError::BadFrame(e) => "bad frame: "@ + e@,
        }
    }

    /// The text of the error.
    pub fn message(&self) -> (s: String)
        ensures
            s@ == self.text(),
    {
        match self {
            GatewayError::Unimplemented(what) => {
                let mut s = "not implemented: ".to_owned();
                s.append(what);
                s
            },
            GatewayError::WebSocket(e) => {
                let mut s = "websocket: ".to_owned();
                s.append(e.as_str());
                s
            },
            GatewayError::BadFrame(e) => {
                let mut s = "bad frame: ".to_owned();
                s.append(e.as_str());
                s
            },
        }
    }
}

/// The audio shape of a transport. A frame with another shape is rejected.
#[derive(Debug, Clone, Copy, PartialEq, Eq, Structural)]
pub struct FrameSpec {
    /// Channel count of every frame.
    pub channels: u16,
    /// Sample rate of every frame, in Hz.
    pub sample_rate: u32,
}

impl FrameSpec {
    /// A shape of `channels` channels at `sample_rate`.
    pub fn new(channels: u16, sample_rate: u32) -> (s: Self)
        ensures
            s == (FrameSpec { channels, sample_rate }),
    {
        FrameSpec { channels, sample_rate }
    }
}

/// The message of a frame.
pub open spec fn encoding_of(frame: PcmFrameView) -> Seq<u8> {
    seq![TAG_PCM, frame.channels as u8] + le_bytes(frame.sample_rate) + le_bytes_of(frame.samples)
}

/// The samples that a PCM message carries.
pub open spec fn samples_of(bytes: Seq<u8>) -> Seq<u32> {
    Seq::new(
        ((bytes.len() - HEADER_LEN) / 4) as nat,
        |i: int| le_word(bytes, HEADER_LEN + 4 * i),
    )
}

/// The frame that a message with the PCM tag carries, or why there is none.
pub open spec fn pcm_of(bytes: Seq<u8>, spec: FrameSpec) -> Result<PcmFrameView, Seq<char>> {
    let channels = bytes[1];
    let rate = le_word(bytes, 2);
    let len = (bytes.len() - HEADER_LEN) as nat;
    let stride = channels as nat * 4;
    if channels == 0 {
        Err("pcm frame has zero channels"@)
    } else if channels as u16 != spec.channels {
        Err(
            "channel mismatch: header="@ + decimal(channels as nat) + " expected="@ + decimal(
                spec.channels as nat,
            ),
        )
    } else if rate != spec.sample_rate {
        Err(
            "sample-rate mismatch: header="@ + decimal(rate as nat) + " expected="@ + decimal(
                spec.sample_rate as nat,
            ),
        )
    } else if len == 0 {
        Err("pcm payload is empty"@)
    } else if len % stride != 0 {
        Err("pcm payload length "@ + decimal(len) + " is not a multiple of "@ + decimal(stride))
    } else {
        Ok(
            PcmFrameView {
                channels: spec.channels,
                sample_rate: spec.sample_rate,
                samples: samples_of(bytes),
            },
        )
    }
}

/// The frame that a message carries, or why it is rejected.
pub open spec fn frame_of(bytes: Seq<u8>, spec: FrameSpec) -> Result<PcmFrameView, Seq<char>> {
    if bytes.len() < HEADER_LEN {
        Err("header shorter than 6 bytes"@)
    } else if bytes[0] == TAG_PCM {
        pcm_of(bytes, spec)
    } else if bytes[0] == TAG_OPUS {
        Err("opus codec not enabled (build with the `opus` feature)"@)
    } else {
        Err("unknown codec tag "@ + decimal(bytes[0] as nat))
    }
}

/// Encodes a frame as a PCM message. The channel count has to fit its byte.
pub fn encode_frame(frame: &PcmFrame) -> (r: Result<Vec<u8>, GatewayError>)
    ensures
        if frame@.channels <= 255 {
            r matches Ok(bytes) && bytes@ == encoding_of(frame@)
        } else {
            r matches Err(GatewayError::BadFrame(text)) && text@
                == "channel count overloads header byte"@
        },
{
    if frame.channels > 255 {
        return Err(GatewayError::BadFrame("channel count overloads header byte".to_owned()));
    }
    let mut out: Vec<u8> = Vec::new();
    out.push(TAG_PCM);
    out.push(frame.channels as u8);
    push_word(&mut out, frame.sample_rate);
    push_words(&mut out, frame.samples.as_slice());
    proof {
        assert(out@ =~= encoding_of(frame@));
    }
    Ok(out)
}

/// Decodes a message and holds it against the transport's shape.
pub fn decode_frame(bytes: &[u8], spec: FrameSpec) -> (r: Result<PcmFrame, GatewayError>)
    ensures
        match frame_of(bytes@, spec) {
            Ok(frame) => r matches Ok(f) && f@ == frame,
            Err(text) => r matches Err(GatewayError::BadFrame(t)) && t@ == text,
        },
{
    if bytes.len() < HEADER_LEN {
        return Err(GatewayError::BadFrame("header shorter than 6 bytes".to_owned()));
    }
    let tag: u8 = bytes[0];
    if tag == TAG_PCM {
        decode_pcm(bytes, spec)
    } else if tag == TAG_OPUS {
        decode_opus()
    } else {
        Err(GatewayError::BadFrame(with_number("unknown codec tag ", tag as u64)))
    }
}

/// Decodes a message with the PCM tag.
pub fn decode_pcm(bytes: &[u8], spec: FrameSpec) -> (r: Result<PcmFrame, GatewayError>)
    requires
        bytes@.len() >= HEADER_LEN,
    ensures
        match pcm_of(bytes@, spec) {
            Ok(frame) => r matches Ok(f) && f@ == frame,
            Err(text) => r matches Err(GatewayError::BadFrame(t)) && t@ == text,
        },
{
    let channels: u8 = bytes[1];
    let sample_rate: u32 = read_word(bytes, 2);
    if channels == 0 {
        return Err(GatewayError::BadFrame("pcm frame has zero channels".to_owned()));
    }
    if channels as u16 != spec.channels {
        let mut text = with_number("channel mismatch: header=", channels as u64);
        text.append(" expected=");
        append_decimal(&mut text, spec.channels as u64);
        return Err(GatewayError::BadFrame(text));
    }
    if sample_rate != spec.sample_rate {
        let mut text = with_number("sample-rate mismatch: header=", sample_rate as u64);
        text.append(" expected=");
        append_decimal(&mut text, spec.sample_rate as u64);
        return Err(GatewayError::BadFrame(text));
    }
    let len: usize = bytes.len() - HEADER_LEN;
    if len == 0 {
        return Err(GatewayError::BadFrame("pcm payload is empty".to_owned()));
    }
    let stride: usize = channels as usize * 4;
    if len % stride != 0 {
        let mut text = with_number("pcm payload length ", len as u64);
        text.append(" is not a multiple of ");
        append_decimal(&mut text, stride as u64);
        return Err(GatewayError::BadFrame(text));
    }
    let samples: Vec<u32> = read_words(bytes, HEADER_LEN, len / 4);
    proof {
        assert(samples@ =~= samples_of(bytes@));
    }
    Ok(PcmFrame::from_planar(spec.channels, spec.sample_rate, samples))
}

/// Rejects a message with the Opus tag: the codec is not built in.
pub fn decode_opus() -> (r: Result<PcmFrame, GatewayError>)
    ensures
        r matches Err(GatewayError::BadFrame(t)) && t@
            == "opus codec not enabled (build with the `opus` feature)"@,
{
    Err(
        GatewayError::BadFrame(
            "opus codec not enabled (build with the `opus` feature)".to_owned(),
        ),
    )
}

/// A frame that is whole and fits the header survives encoding and decoding
/// under its own shape, bit for bit.
pub proof fn law_round_trip(frame: PcmFrameView)
    requires
        frame.is_whole(),
        frame.channels <= 255,
    ensures
        frame_of(
            encoding_of(frame),
            FrameSpec { channels: frame.channels, sample_rate: frame.sample_rate },
        ) == Ok::<PcmFrameView, Seq<char>>(frame),
{
    let bytes = encoding_of(frame);
    let spec = FrameSpec { channels: frame.channels, sample_rate: frame.sample_rate };
    let head = seq![TAG_PCM, frame.channels as u8] + le_bytes(frame.sample_rate);
    assert(bytes == head + le_bytes_of(frame.samples));
    assert forall|k: int| 0 <= k < 4 implies #[trigger] bytes[2 + k] == le_bytes(
        frame.sample_rate,
    )[k] by {}
    lemma_word_round_trip(bytes, 2, frame.sample_rate);
    let n = frame.samples.len();
    let c = frame.channels as nat;
    let q = n / c;
    assert(n == c * q) by (nonlinear_arith)
        requires
            n % c == 0,
            q == n / c,
            c > 0,
    ;
    assert(4 * n == (c * 4) * q) by (nonlinear_arith)
        requires
            n == c * q,
    ;
    vstd::arithmetic::div_mod::lemma_mod_multiples_basic(q as int, (c * 4) as int);
    assert(q * (c * 4) == (c * 4) * q) by (nonlinear_arith);
    assert((4 * n) % (c * 4) == 0);
    assert(bytes.len() - HEADER_LEN == 4 * n);
    assert forall|i: int| 0 <= i < n implies #[trigger] samples_of(bytes)[i] == frame.samples[i] by {
        lemma_words_round_trip(head, frame.samples, i);
    }
    assert(samples_of(bytes) =~= frame.samples);
}

/// Whatever is accepted has the transport's shape and is whole.
pub proof fn law_accepted_frames_fit(bytes: Seq<u8>, spec: FrameSpec)
    requires
        frame_of(bytes, spec) is Ok,
    ensures
        frame_of(bytes, spec)->Ok_0.channels == spec.channels,
        frame_of(bytes, spec)->Ok_0.sample_rate == spec.sample_rate,
        frame_of(bytes, spec)->Ok_0.is_whole(),
        bytes == encoding_of(frame_of(bytes, spec)->Ok_0),
{
    let frame = frame_of(bytes, spec)->Ok_0;
    let len = (bytes.len() - HEADER_LEN) as nat;
    let c = spec.channels as nat;
    let q = len / (c * 4);
    assert(len == 4 * (c * q)) by (nonlinear_arith)
        requires
            len % (c * 4) == 0,
            q == len / (c * 4),
            c > 0,
    ;
    assert((c * q) % c == 0) by (nonlinear_arith)
        requires
            c > 0,
    ;
    assert(frame.samples.len() == c * q);
    crate::wire::lemma_bytes_round_trip(bytes, 2);
    assert forall|i: int| 0 <= i < bytes.len() implies #[trigger] bytes[i] == encoding_of(
        frame,
    )[i] by {
        if 2 <= i < 6 {
            assert(bytes.subrange(2, 6)[i - 2] == bytes[i]);
        } else if i >= 6 {
            let w = (i - 6) / 4;
            let at = HEADER_LEN + 4 * w;
            crate::wire::lemma_bytes_round_trip(bytes, at);
            assert(bytes.subrange(at, at + 4)[i - at] == bytes[i]);
        }
    }
    assert(bytes =~= encoding_of(frame));
}

/// A message with another tag than PCM, or for another shape, is rejected.
pub proof fn law_foreign_frames_are_rejected(bytes: Seq<u8>, spec: FrameSpec)
    ensures
        bytes.len() < HEADER_LEN ==> frame_of(bytes, spec) is Err,
        bytes.len() >= HEADER_LEN && bytes[0] != TAG_PCM ==> frame_of(bytes, spec) is Err,
        bytes.len() >= HEADER_LEN && bytes[1] as u16 != spec.channels ==> frame_of(
            bytes,
            spec,
        ) is Err,
        bytes.len() >= HEADER_LEN && le_word(bytes, 2) != spec.sample_rate ==> frame_of(
            bytes,
            spec,
        ) is Err,
{
}

/// Of an accepted message the samples are the words of the payload, from front to back:
/// there is one for every four bytes behind the header, and sample `i` has the four bytes
/// from `6 + 4 * i` on, the lowest first.
pub proof fn law_samples_are_read_in_order(bytes: Seq<u8>, spec: FrameSpec, i: int)
    requires
        frame_of(bytes, spec) is Ok,
    ensures
        4 * frame_of(bytes, spec)->Ok_0.samples.len() == bytes.len() - 6,
        0 <= i < frame_of(bytes, spec)->Ok_0.samples.len() ==> frame_of(
            bytes,
            spec,
        )->Ok_0.samples[i] == bytes[6 + 4 * i] + 256 * bytes[6 + 4 * i + 1] + 65_536 * bytes[6 + 4
            * i + 2] + 16_777_216 * bytes[6 + 4 * i + 3],
{
    law_accepted_frames_fit(bytes, spec);
}

/// The message of a frame: the tag 0, the channel count, the four bytes of the sample
/// rate and then those of each sample, from the first on, always the lowest byte first.
pub proof fn law_frames_are_written_in_order(frame: PcmFrameView, i: int)
    requires
        frame.channels <= 255,
    ensures
        encoding_of(frame).len() == 6 + 4 * frame.samples.len(),
        encoding_of(frame)[0] == 0,
        encoding_of(frame)[1] == frame.channels,
        frame.sample_rate == encoding_of(frame)[2] + 256 * encoding_of(frame)[3] + 65_536
            * encoding_of(frame)[4] + 16_777_216 * encoding_of(frame)[5],
        0 <= i < frame.samples.len() ==> frame.samples[i] == encoding_of(frame)[6 + 4 * i] + 256
            * encoding_of(frame)[6 + 4 * i + 1] + 65_536 * encoding_of(frame)[6 + 4 * i + 2]
            + 16_777_216 * encoding_of(frame)[6 + 4 * i + 3],
{
    let bytes = encoding_of(frame);
    crate::wire::law_bytes_are_little_endian(frame.sample_rate);
    if 0 <= i < frame.samples.len() {
        let words = le_bytes_of(frame.samples);
        crate::wire::law_words_are_written_in_order(frame.samples, i);
        assert(bytes[6 + 4 * i] == words[4 * i]);
        assert(bytes[6 + 4 * i + 1] == words[4 * i + 1]);
        assert(bytes[6 + 4 * i + 2] == words[4 * i + 2]);
        assert(bytes[6 + 4 * i + 3] == words[4 * i + 3]);
    }
}

/// A message is accepted exactly when it has a header with the tag 0, a channel count
/// that is not 0, the shape of the transport, and behind it at least one sample and a
/// whole number of frames.
pub proof fn law_which_messages_are_accepted(bytes: Seq<u8>, spec: FrameSpec)
    ensures
        frame_of(bytes, spec) is Ok <==> {
            &&& bytes.len() > 6
            &&& bytes[0] == 0
            &&& bytes[1] > 0
            &&& bytes[1] == spec.channels
            &&& spec.sample_rate == bytes[2] + 256 * bytes[3] + 65_536 * bytes[4] + 16_777_216
                * bytes[5]
            &&& (bytes.len() - 6) % (4 * bytes[1]) == 0
        },
        frame_of(bytes, spec) is Ok ==> frame_of(bytes, spec)->Ok_0.channels == bytes[1]
            && frame_of(bytes, spec)->Ok_0.sample_rate == spec.sample_rate,
{
    if bytes.len() >= 6 {
        crate::wire::law_words_are_little_endian(bytes, 2);
    }
}

/// Whatever is wrong with a message, the reason that is given is about the first thing
/// that is wrong, from the length of the header on.
pub proof fn law_the_first_fault_is_named(bytes: Seq<u8>, spec: FrameSpec)
    ensures
        bytes.len() < 6 ==> frame_of(bytes, spec) == Err::<PcmFrameView, Seq<char>>(
            "header shorter than 6 bytes"@,
        ),
        bytes.len() >= 6 && bytes[0] == 1 ==> frame_of(bytes, spec) == Err::<
            PcmFrameView,
            Seq<char>,
        >("opus codec not enabled (build with the `opus` feature)"@),
        bytes.len() >= 6 && bytes[0] > 1 ==> frame_of(bytes, spec) == Err::<
            PcmFrameView,
            Seq<char>,
        >("unknown codec tag "@ + decimal(bytes[0] as nat)),
        bytes.len() >= 6 && bytes[0] == 0 && bytes[1] == 0 ==> frame_of(bytes, spec) == Err::<
            PcmFrameView,
            Seq<char>,
        >("pcm frame has zero channels"@),
        bytes.len() >= 6 && bytes[0] == 0 && bytes[1] > 0 && bytes[1] != spec.channels ==> frame_of(
            bytes,
            spec,
        ) == Err::<PcmFrameView, Seq<char>>(
            "channel mismatch: header="@ + decimal(bytes[1] as nat) + " expected="@ + decimal(
                spec.channels as nat,
            ),
        ),
        bytes.len() >= 6 && bytes[0] == 0 && bytes[1] > 0 && bytes[1] == spec.channels ==> {
            let rate = bytes[2] + 256 * bytes[3] + 65_536 * bytes[4] + 16_777_216 * bytes[5];
            let len = (bytes.len() - 6) as nat;
            &&& rate != spec.sample_rate ==> frame_of(bytes, spec) == Err::<
                PcmFrameView,
                Seq<char>,
            >(
                "sample-rate mismatch: header="@ + decimal(rate as nat) + " expected="@ + decimal(
                    spec.sample_rate as nat,
                ),
            )
            &&& rate == spec.sample_rate && len == 0 ==> frame_of(bytes, spec) == Err::<
                PcmFrameView,
                Seq<char>,
            >("pcm payload is empty"@)
            &&& rate == spec.sample_rate && len > 0 && len % (4 * bytes[1] as nat) != 0 ==> frame_of(
                bytes,
                spec,
            ) == Err::<PcmFrameView, Seq<char>>(
                "pcm payload length "@ + decimal(len) + " is not a multiple of "@ + decimal(
                    4 * bytes[1] as nat,
                ),
            )
        },
{
    if bytes.len() >= 6 {
        crate::wire::law_words_are_little_endian(bytes, 2);
    }
}

/// What is shown of an error says what kind it is and ends in the reason.
pub proof fn law_gateway_errors_end_in_the_reason(e: GatewayError)
    ensures
        e matches GatewayError::Unimplemented(m) ==> crate::text::ends_in(e.text(), m@) && e.text().take("not implemented: "@.len() as int) == "not implemented: "@,
        e matches GatewayError::WebSocket(m) ==> crate::text::ends_in(e.text(), m@) && e.text().take("websocket: "@.len() as int) == "websocket: "@,
        e matches GatewayError::BadFrame(m) ==> crate::text::ends_in(e.text(), m@) && e.text().take("bad frame: "@.len() as int) == "bad frame: "@,
{
    match e {
        GatewayError::Unimplemented(m) => crate::text::lemma_ends_in("not implemented: "@, m@),
        GatewayError::WebSocket(m) => crate::text::lemma_ends_in("websocket: "@, m@),
        GatewayError::BadFrame(m) => crate::text::lemma_ends_in("bad frame: "@, m@),
    }
}

} // verus!
