//! The course of opening the plugin.
//!
//! Opening alternates between calls into libasound and the network and decisions
//! about what they gave. The decisions are here: each call's outcome is an event,
//! and the state says which call is due.

use crate::alsa_plugin::bridge::{Handshake, OpenError, StreamDir};
use crate::alsa_plugin::config::{
    config_from_pairs, config_of, pairs_view, BridgeConfig, ConfValue, ConfigError,
};
use crate::alsa_plugin::ioplug::{
    EINVAL, EIO, HW_ACCESS, HW_CHANNELS, HW_FORMAT, HW_RATE, POLLIN, POLLOUT,
    SND_PCM_ACCESS_RW_INTERLEAVED, SND_PCM_FORMAT_FLOAT_LE, SND_PCM_STREAM_CAPTURE,
    SND_PCM_STREAM_PLAYBACK,
};
use crate::text::{append_decimal, append_signed, decimal, signed_decimal};
use vstd::prelude::*;

verus! {

/// Why opening failed.
#[derive(Debug)]
pub enum OpenFail {
    /// The conf is bad.
    Config(ConfigError),
    /// The server could not be reached or did not agree.
    Bridge(OpenError),
    /// libasound refused a call; carries its code.
    Alsa(i32),
    /// The stream is neither playback nor capture.
    BadStream,
}

impl OpenFail {
    /// The code that libasound is given.
    pub open spec fn code(self) -> i32 {
        match self {
            OpenFail::Config(_) => -EINVAL as i32,
            OpenFail::Bridge(OpenError::Io(_)) => -EIO as i32,
            OpenFail::Bridge(_) => -EINVAL as i32,
            OpenFail::Alsa(code) => code,
            OpenFail::BadStream => -EINVAL as i32,
        }
    }

    /// The code that libasound is given.
    pub fn errno(&self) -> (code: i32)
        ensures
            code == self.code(),
    {
        match self {
            OpenFail::Config(_) => -EINVAL,
            OpenFail::Bridge(OpenError::Io(_)) => -EIO,
            OpenFail::Bridge(_) => -EINVAL,
            OpenFail::Alsa(code) => *code,
            OpenFail::BadStream => -EINVAL,
        }
    }

    /// The text of the failure.
    pub open spec fn text(self) -> Seq<char> {
        match self {
            OpenFail::Config(e) => "conf: "@ + e@.text(),
            OpenFail::Bridge(e) => "bridge: "@ + e.text(),
            OpenFail::Alsa(code) => "alsa call failed with "@ + signed_decimal(code as int),
            OpenFail::BadStream => "stream is neither playback nor capture"@,
        }
    }

    /// The text of the failure.
    pub fn message(&self) -> (s: String)
        ensures
            s@ == self.text(),
    {
        match self {
            OpenFail::Config(e) => {
                let mut s = "conf: ".to_owned();
                s.append(e.message().as_str());
                s
            },
            OpenFail::Bridge(e) => {
                let mut s = "bridge: ".to_owned();
                s.append(e.message().as_str());
                s
            },
            OpenFail::Alsa(code) => {
                let mut s = "alsa call failed with ".to_owned();
                append_signed(&mut s, *code);
                s
            },
            OpenFail::BadStream => "stream is neither playback nor capture".to_owned(),
        }
    }
}

/// The direction of a stream that ALSA opens.
pub open spec fn direction(stream: i32) -> Option<StreamDir> {
    if stream == SND_PCM_STREAM_PLAYBACK {
        Some(StreamDir::Playback)
    } else if stream == SND_PCM_STREAM_CAPTURE {
        Some(StreamDir::Capture)
    } else {
        None
    }
}

/// The poll event that a stream waits for: room to write for playback, data to
/// read for capture.
pub fn poll_events(dir: StreamDir) -> (e: u32)
    ensures
        e == if dir == StreamDir::Playback {
            POLLOUT
        } else {
            POLLIN
        },
{
    match dir {
        StreamDir::Playback => POLLOUT,
        StreamDir::Capture => POLLIN,
    }
}

/// A constraint that pins one hardware parameter to one value.
#[derive(Debug, Clone, Copy, PartialEq, Eq, Structural)]
pub struct HwPin {
    /// The parameter.
    pub param: i32,
    /// Its value.
    pub value: u32,
}

/// The constraints of a stream, in the order in which they are set.
pub open spec fn pins(channels: u32, rate: u32) -> Seq<HwPin> {
    seq![
        HwPin { param: HW_ACCESS, value: SND_PCM_ACCESS_RW_INTERLEAVED },
        HwPin { param: HW_FORMAT, value: SND_PCM_FORMAT_FLOAT_LE },
        HwPin { param: HW_CHANNELS, value: channels },
        HwPin { param: HW_RATE, value: rate },
    ]
}

/// The constraints of a stream, in the order in which they are set.
pub fn hw_pins(channels: u32, rate: u32) -> (v: Vec<HwPin>)
    ensures
        v@ == pins(channels, rate),
{
    let mut v: Vec<HwPin> = Vec::new();
    v.push(HwPin { param: HW_ACCESS, value: SND_PCM_ACCESS_RW_INTERLEAVED });
    v.push(HwPin { param: HW_FORMAT, value: SND_PCM_FORMAT_FLOAT_LE });
    v.push(HwPin { param: HW_CHANNELS, value: channels });
    v.push(HwPin { param: HW_RATE, value: rate });
    proof {
        assert(v@ =~= pins(channels, rate));
    }
    v
}

/// How far opening has come: each state names the call that is due.
pub enum OpenState {
    /// Read the conf.
    ReadConf {
        /// Direction of the stream.
        dir: StreamDir,
    },
    /// Connect to the server and shake hands.
    Connect {
        /// Direction of the stream.
        dir: StreamDir,
        /// The configuration.
        config: BridgeConfig,
    },
    /// Create the PCM.
    Create {
        /// Direction of the stream.
        dir: StreamDir,
        /// The configuration.
        config: BridgeConfig,
    },
    /// Set the next constraint.
    Pin {
        /// The configuration.
        config: BridgeConfig,
        /// The constraint.
        next: usize,
    },
    /// Hand the PCM over.
    Open {
        /// The configuration.
        config: BridgeConfig,
    },
    /// Give up.
    Failed(OpenFail),
}

/// What a call gave.
pub enum OpenEvent {
    /// The pairs of the conf, or the code of a failure.
    Conf(Result<Vec<(String, ConfValue)>, i32>),
    /// The server's echo, or a failure.
    Echo(Result<Handshake, OpenError>),
    /// The code of a call into libasound.
    Code(i32),
}

/// The state that opening starts in.
pub fn begin(stream: i32) -> (s: OpenState)
    ensures
        match direction(stream) {
            Some(d) => s == (OpenState::ReadConf { dir: d }),
            None => s == OpenState::Failed(OpenFail::BadStream),
        },
{
    if stream == SND_PCM_STREAM_PLAYBACK {
        OpenState::ReadConf { dir: StreamDir::Playback }
    } else if stream == SND_PCM_STREAM_CAPTURE {
        OpenState::ReadConf { dir: StreamDir::Capture }
    } else {
        OpenState::Failed(OpenFail::BadStream)
    }
}

/// What follows in a state when its call gave something: the first failure ends
/// the opening, and a PCM is handed over only when the conf was good, the server
/// agreed, the PCM was created and every constraint was set. An event that is not
/// due changes nothing.
pub open spec fn follows(before: OpenState, event: OpenEvent, after: OpenState) -> bool {
    match (before, event) {
        (OpenState::ReadConf { dir }, OpenEvent::Conf(Err(code))) => after == OpenState::Failed(
            OpenFail::Alsa(code),
        ),
        (OpenState::ReadConf { dir }, OpenEvent::Conf(Ok(pairs))) => match config_of(
            pairs_view(pairs@),
        ) {
            Ok(config) => after matches OpenState::Connect { dir: d, config: c } && d == dir && c@
                == config,
            Err(e) => after matches OpenState::Failed(OpenFail::Config(f)) && f@ == e,
        },
        (OpenState::Connect { dir, config }, OpenEvent::Echo(Ok(_))) => after == (
        OpenState::Create { dir, config }),
        (OpenState::Connect { dir, config }, OpenEvent::Echo(Err(e))) => after == OpenState::Failed(
            OpenFail::Bridge(e),
        ),
        (OpenState::Create { dir, config }, OpenEvent::Code(code)) => if code < 0 {
            after == OpenState::Failed(OpenFail::Alsa(code))
        } else {
            after == (OpenState::Pin { config, next: 0 })
        },
        (OpenState::Pin { config, next }, OpenEvent::Code(code)) => if code < 0 {
            after == OpenState::Failed(OpenFail::Alsa(code))
        } else if next < 3 {
            after == (OpenState::Pin { config, next: (next + 1) as usize })
        } else {
            after == (OpenState::Open { config })
        },
        _ => after == before,
    }
}

/// Moves on by one event.
pub fn proceed(state: OpenState, event: OpenEvent) -> (next: OpenState)
    ensures
        follows(state, event, next),
{
    match (state, event) {
        (OpenState::ReadConf { dir }, OpenEvent::Conf(Err(code))) => OpenState::Failed(
            OpenFail::Alsa(code),
        ),
        (OpenState::ReadConf { dir }, OpenEvent::Conf(Ok(pairs))) => match config_from_pairs(
            pairs.as_slice(),
        ) {
            Ok(config) => OpenState::Connect { dir, config },
            Err(e) => OpenState::Failed(OpenFail::Config(e)),
        },
        (OpenState::Connect { dir, config }, OpenEvent::Echo(Ok(_))) => OpenState::Create {
            dir,
            config,
        },
        (OpenState::Connect { dir: _, config: _ }, OpenEvent::Echo(Err(e))) => OpenState::Failed(
            OpenFail::Bridge(e),
        ),
        (OpenState::Create { dir: _, config }, OpenEvent::Code(code)) => {
            if code < 0 {
                OpenState::Failed(OpenFail::Alsa(code))
            } else {
                OpenState::Pin { config, next: 0 }
            }
        },
        (OpenState::Pin { config, next }, OpenEvent::Code(code)) => {
            if code < 0 {
                OpenState::Failed(OpenFail::Alsa(code))
            } else if next < 3 {
                OpenState::Pin { config, next: next + 1 }
            } else {
                OpenState::Open { config }
            }
        },
        (state, _) => state,
    }
}

/// The line that is logged for an open stream.
pub open spec fn open_line(dir: StreamDir, config: BridgeConfig, echoed: Handshake) -> Seq<char> {
    (if dir == StreamDir::Playback {
        "playback"@
    } else {
        "capture"@
    }) + " via "@ + config@.endpoint.text() + " ("@ + decimal(echoed.channels as nat) + "ch "@
        + decimal(echoed.rate as nat) + "Hz, dir "@ + echoed.stream_dir.name() + ")"@
}

/// The line that is logged for an open stream.
pub fn describe_open(dir: StreamDir, config: &BridgeConfig, echoed: &Handshake) -> (s: String)
    ensures
        s@ == open_line(dir, *config, *echoed),
{
    let mut s = match dir {
        StreamDir::Playback => "playback".to_owned(),
        StreamDir::Capture => "capture".to_owned(),
    };
    s.append(" via ");
    s.append(config.endpoint.describe().as_str());
    s.append(" (");
    append_decimal(&mut s, echoed.channels as u64);
    s.append("ch ");
    append_decimal(&mut s, echoed.rate as u64);
    s.append("Hz, dir ");
    s.append(
        match echoed.stream_dir {
            StreamDir::Playback => "Playback",
            StreamDir::Capture => "Capture",
        },
    );
    s.append(")");
    s
}

/// A failure is never reported as success: the code of every failure that
/// libasound did not name itself is negative.
pub proof fn law_failures_have_negative_codes(fail: OpenFail)
    requires
        fail matches OpenFail::Alsa(code) ==> code < 0,
    ensures
        fail.code() < 0,
{
}

/// Opening never leaves its end: once it has failed or is open, no event changes
/// anything.
pub proof fn law_the_end_is_final(state: OpenState, event: OpenEvent, next: OpenState)
    requires
        state is Failed || state is Open,
        follows(state, event, next),
    ensures
        next == state,
{
}

/// A good conf, an agreeing server, a PCM that is created and four constraints that are
/// set lead to an open stream with the configuration that the conf describes, for the
/// direction that was asked for.
pub proof fn law_opening_succeeds(
    dir: StreamDir,
    pairs: Vec<(String, ConfValue)>,
    echoed: Handshake,
    codes: Seq<i32>,
    states: Seq<OpenState>,
)
    requires
        config_of(pairs_view(pairs@)) is Ok,
        codes.len() == 5,
        forall|i: int| 0 <= i < 5 ==> #[trigger] codes[i] >= 0,
        states.len() == 8,
        states[0] == (OpenState::ReadConf { dir }),
        follows(states[0], OpenEvent::Conf(Ok(pairs)), states[1]),
        follows(states[1], OpenEvent::Echo(Ok(echoed)), states[2]),
        follows(states[2], OpenEvent::Code(codes[0]), states[3]),
        follows(states[3], OpenEvent::Code(codes[1]), states[4]),
        follows(states[4], OpenEvent::Code(codes[2]), states[5]),
        follows(states[5], OpenEvent::Code(codes[3]), states[6]),
        follows(states[6], OpenEvent::Code(codes[4]), states[7]),
    ensures
        states[1] matches OpenState::Connect { dir: d, config } && d == dir && config@ == config_of(
            pairs_view(pairs@),
        )->Ok_0,
        states[2] matches OpenState::Create { dir: d, config } && d == dir,
        states[3] matches OpenState::Pin { config, next } && next == 0,
        states[4] matches OpenState::Pin { config, next } && next == 1,
        states[5] matches OpenState::Pin { config, next } && next == 2,
        states[6] matches OpenState::Pin { config, next } && next == 3,
        states[7] matches OpenState::Open { config } && config@ == config_of(
            pairs_view(pairs@),
        )->Ok_0,
{
}

/// A stream is open only after the fourth constraint was set, a constraint is set only
/// once the PCM was created, and a PCM is created only once the server agreed to the
/// configuration.
pub proof fn law_opening_takes_no_shortcut(before: OpenState, event: OpenEvent, after: OpenState)
    requires
        follows(before, event, after),
        after != before,
    ensures
        after matches OpenState::Open { config } ==> {
            &&& before matches OpenState::Pin { config: c, next }
            &&& c == config
            &&& next >= 3
            &&& event matches OpenEvent::Code(code)
            &&& code >= 0
        },
        after matches OpenState::Pin { config, next } ==> {
            &&& event matches OpenEvent::Code(code)
            &&& code >= 0
            &&& next == 0 ==> (before matches OpenState::Create { dir, config: c } && c == config)
            &&& next > 0 ==> (before matches OpenState::Pin { config: c, next: n } && c == config
                && n + 1 == next)
        },
        after matches OpenState::Create { dir, config } ==> {
            &&& before == (OpenState::Connect { dir, config })
            &&& event matches OpenEvent::Echo(Ok(_))
        },
        after matches OpenState::Connect { dir, config } ==> {
            &&& before == (OpenState::ReadConf { dir })
            &&& event matches OpenEvent::Conf(Ok(pairs))
            &&& config_of(pairs_view(pairs@)) matches Ok(c)
            &&& c == config@
        },
        !(after is ReadConf),
{
}

/// The first failure ends the opening, with the reason that the failed call gave; a call
/// that did not fail never does.
pub proof fn law_the_first_failure_counts(before: OpenState, event: OpenEvent, after: OpenState)
    requires
        follows(before, event, after),
        !(before is Failed),
    ensures
        before is ReadConf ==> (event matches OpenEvent::Conf(Err(code)) ==> after
            == OpenState::Failed(OpenFail::Alsa(code))),
        before is Connect ==> (event matches OpenEvent::Echo(Err(e)) ==> after
            == OpenState::Failed(OpenFail::Bridge(e))),
        before is Create || before is Pin ==> (event matches OpenEvent::Code(code) ==> (code < 0
            ==> after == OpenState::Failed(OpenFail::Alsa(code)))),
        after matches OpenState::Failed(fail) ==> match event {
            OpenEvent::Conf(Err(code)) => before is ReadConf && fail == OpenFail::Alsa(code),
            OpenEvent::Conf(Ok(pairs)) => before is ReadConf && config_of(
                pairs_view(pairs@),
            ) is Err && fail is Config,
            OpenEvent::Echo(Err(e)) => before is Connect && fail == OpenFail::Bridge(e),
            OpenEvent::Echo(Ok(_)) => false,
            OpenEvent::Code(code) => (before is Create || before is Pin) && code < 0 && fail
                == OpenFail::Alsa(code),
        },
{
}

/// A code of libasound is handed back as it is, a socket that failed is an I/O error, and
/// everything else is an invalid argument.
pub proof fn law_codes_of_failures(fail: OpenFail)
    ensures
        fail matches OpenFail::Alsa(code) ==> fail.code() == code,
        fail matches OpenFail::Bridge(e) ==> (e is Io ==> fail.code() == -5) && (!(e is Io)
            ==> fail.code() == -22),
        fail is Config || fail is BadStream ==> fail.code() == -22,
{
}

/// Of the four constraints the third is the channel count and the fourth the rate; the
/// first two do not depend on the stream. No parameter is pinned twice.
pub proof fn law_constraints_follow_the_setup(channels: u32, rate: u32, other: u32)
    ensures
        pins(channels, rate).len() == 4,
        pins(channels, rate)[0].param == 0,
        pins(channels, rate)[0].value == 3,
        pins(channels, rate)[1].param == 1,
        pins(channels, rate)[1].value == 14,
        pins(channels, rate)[2].param == 2,
        pins(channels, rate)[2].value == channels,
        pins(channels, rate)[3].param == 3,
        pins(channels, rate)[3].value == rate,
        pins(channels, rate) == pins(channels, other) <==> rate == other,
        forall|i: int, j: int|
            0 <= i < j < 4 ==> (#[trigger] pins(channels, rate)[i]).param != (
            #[trigger] pins(channels, rate)[j]).param,
{
    assert(pins(channels, rate)[3].value == rate);
    assert(pins(channels, other)[3].value == other);
}

/// Stream 0 plays back, stream 1 captures, and there is no other.
pub proof fn law_directions_of_streams(stream: i32)
    ensures
        direction(stream) == Some(StreamDir::Playback) <==> stream == 0,
        direction(stream) == Some(StreamDir::Capture) <==> stream == 1,
{
}

/// What is shown of a failed opening says which side failed and ends in the reason.
pub proof fn law_open_failures_end_in_what_is_wrong(e: OpenFail)
    ensures
        e matches OpenFail::Config(c) ==> crate::text::ends_in(e.text(), c@.text()) && e.text().take("conf: "@.len() as int) == "conf: "@,
        e matches OpenFail::Bridge(b) ==> crate::text::ends_in(e.text(), b.text()) && e.text().take("bridge: "@.len() as int) == "bridge: "@,
        e matches OpenFail::Alsa(code) ==> crate::text::ends_in(e.text(), signed_decimal(code as int)) && e.text().take("alsa call failed with "@.len() as int) == "alsa call failed with "@,
{
    match e {
        OpenFail::Config(c) => crate::text::lemma_ends_in("conf: "@, c@.text()),
        OpenFail::Bridge(b) => crate::text::lemma_ends_in("bridge: "@, b.text()),
        OpenFail::Alsa(code) => crate::text::lemma_ends_in("alsa call failed with "@, signed_decimal(code as int)),
        OpenFail::BadStream => {},
    }
}

/// The line that is logged for an open stream names the direction first, and ends in the
/// direction that the server agreed to.
pub proof fn law_open_streams_are_logged(dir: StreamDir, config: BridgeConfig, echoed: Handshake)
    ensures
        ({
            let line = open_line(dir, config, echoed);
            &&& dir == StreamDir::Playback ==> line.take(8) == "playback"@
            &&& dir == StreamDir::Capture ==> line.take(7) == "capture"@
            &&& echoed.stream_dir == StreamDir::Playback ==> crate::text::ends_in(
                line,
                "Playback"@ + ")"@,
            )
            &&& echoed.stream_dir == StreamDir::Capture ==> crate::text::ends_in(
                line,
                "Capture"@ + ")"@,
            )
        }),
{
    reveal_strlit("playback");
    reveal_strlit("capture");
    let line = open_line(dir, config, echoed);
    let end = echoed.stream_dir.name() + ")"@;
    assert(line.skip(line.len() - end.len()) =~= end);
    if dir == StreamDir::Playback {
        assert(line.take(8) =~= "playback"@);
    } else {
        assert(line.take(7) =~= "capture"@);
    }
}

} // verus!
