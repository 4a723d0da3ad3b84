//! What the plugin does for ALSA: its callbacks, positions, channel areas and the
//! course of opening.

use sonicbrew::alsa_plugin::bridge::{Handshake, HandshakeError, OpenError, StreamDir};
use sonicbrew::alsa_plugin::conf::{
    conf_keys, fetch_outcome, search_outcome, ConfReader, Search,
};
use sonicbrew::alsa_plugin::config::{config_from_pairs, ConfValue, ConfigError};
use sonicbrew::alsa_plugin::ioplug::{
    advance, callbacks, gather_interleaved, pointer, region_of, sample_count, scatter_interleaved,
    ChannelArea, RawArea, TransferError, EINVAL, EIO, ENOENT, POLLIN, POLLOUT,
    SND_PCM_IOPLUG_VERSION, SND_PCM_STREAM_CAPTURE, SND_PCM_STREAM_PLAYBACK,
};
use sonicbrew::alsa_plugin::open::{
    begin, describe_open, hw_pins, poll_events, proceed, HwPin, OpenEvent, OpenFail, OpenState,
};

fn bits(v: &[f32]) -> Vec<u32> {
    v.iter().map(|s| s.to_bits()).collect()
}

fn bytes(v: &[f32]) -> Vec<u8> {
    v.iter().flat_map(|s| s.to_le_bytes()).collect()
}

#[test]
fn version_macro_matches_protocol_1_0_2() {
    assert_eq!(SND_PCM_IOPLUG_VERSION, (1 << 16) | (0 << 8) | 2);
}

#[test]
fn callback_table_sets_exactly_the_mvp_callbacks() {
    let t = callbacks();
    // Exactly the five implemented callbacks: start, stop, pointer,
    // transfer, close; every optional one stays unset.
    let n_set = [
        t.start,
        t.stop,
        t.pointer,
        t.transfer,
        t.close,
    ]
    .iter()
    .filter(|b| **b)
    .count();
    assert_eq!(n_set, 5);
    let n_none = [
        !t.hw_params,
        !t.hw_free,
        !t.sw_params,
        !t.prepare,
        !t.drain,
        !t.pause,
        !t.resume,
        !t.poll_descriptors_count,
        !t.poll_descriptors,
        !t.poll_revents,
        !t.dump,
        !t.delay,
        !t.query_chmaps,
        !t.get_chmap,
        !t.set_chmap,
    ]
    .iter()
    .filter(|b| **b)
    .count();
    assert_eq!(n_none, 15);
}

#[test]
fn channel_area_address_math_matches_ioplug_convention() {
    // Interleaved stereo f32: first = ch*32 bits, step = channels*32 bits.
    // Sample (frame=1, ch=1) must land at byte offset
    // (32 + (0 + 1) * 64) / 8 = 12 = frame1 * 8 bytes + ch1 * 4 bytes.
    let buffer = bytes(&[0.25_f32, -0.25, 0.5, -0.5]);
    let areas = [
        ChannelArea {
            addr: 0,
            first: 0,
            step: 64,
        },
        ChannelArea {
            addr: 0,
            first: 32,
            step: 64,
        },
    ];
    let samples = gather_interleaved(&buffer, &areas, 0, 2, 2);
    assert_eq!(samples, bits(&[0.25, -0.25, 0.5, -0.5]));

    // Round-trip back through scatter with a nonzero ALSA offset.
    let mut sink = vec![0_u8; 32];
    let src = bits(&[1.0_f32, -1.0, 0.5, -0.5]);
    scatter_interleaved(&mut sink, &src, &areas, 1, 2, 2);
    assert_eq!(sink[8..16], bytes(&[1.0, -1.0]));
    assert_eq!(sink[16..24], bytes(&[0.5, -0.5]));
    assert_eq!(sink[0..8], bytes(&[0.0, 0.0])); // untouched
    assert_eq!(gather_interleaved(&sink, &areas, 1, 2, 2), src);
}

#[test]
fn memory_of_a_transfer() {
    let raw = [
        RawArea {
            addr: 1000,
            first: 32,
            step: 64,
        },
        RawArea {
            addr: 996,
            first: 0,
            step: 64,
        },
    ];
    let region = region_of(&raw, 1, 2).expect("countable");
    assert_eq!(region.base, 996);
    // The last sample of the first channel begins at bit 32 + 2 * 64 of address 1000.
    assert_eq!(region.len, 4 + 20 + 4);
    assert_eq!(region.areas[0].addr, 4);
    assert_eq!(region.areas[1].addr, 0);
    assert!(region_of(&raw, u64::MAX, 1).is_none());
    assert!(region_of(&raw, 0, u64::MAX).is_none());
    assert!(region_of(
        &[RawArea {
            addr: 0,
            first: 0,
            step: u32::MAX
        }],
        u64::MAX / 2,
        1
    )
    .is_none());
    assert_eq!(region_of(&raw, 3, 0).expect("countable").len, 0);
}

#[test]
fn position_wraps_at_the_buffer() {
    assert_eq!(pointer(0, 512), 0);
    assert_eq!(pointer(511, 512), 511);
    assert_eq!(pointer(512, 512), 0);
    assert_eq!(pointer(1300, 512), 276);
    assert_eq!(pointer(99, 0), 0);
    assert_eq!(advance(500, 24), 524);
    assert_eq!(advance(u64::MAX, 2), 1);
    assert_eq!(pointer(advance(500, 24), 512), (pointer(500, 512) + 24) % 512);
}

#[test]
fn samples_of_a_transfer() {
    assert_eq!(sample_count(256, 2), Ok(512));
    assert_eq!(
        sample_count(u64::MAX, 2),
        Err(TransferError::FrameCountOverflow)
    );
}

#[test]
fn conf_search() {
    assert_eq!(search_outcome(0), Search::Present);
    assert_eq!(search_outcome(-ENOENT), Search::Absent);
    assert_eq!(search_outcome(-EINVAL), Search::Failed(-EINVAL));
    assert_eq!(
        conf_keys(),
        vec![
            ("socket", true),
            ("server", true),
            ("port", false),
            ("channels", false),
            ("rate", false)
        ]
    );
}

#[test]
fn pins_and_poll_events() {
    assert_eq!(
        hw_pins(8, 96_000),
        vec![
            HwPin { param: 0, value: 3 },
            HwPin {
                param: 1,
                value: 14
            },
            HwPin { param: 2, value: 8 },
            HwPin {
                param: 3,
                value: 96_000
            },
        ]
    );
    assert_eq!(poll_events(StreamDir::Playback), POLLOUT);
    assert_eq!(poll_events(StreamDir::Capture), POLLIN);
}

#[test]
fn opening_goes_through_every_call() {
    let echoed = Handshake::new(StreamDir::Capture, 2, 48_000);
    let mut state = begin(SND_PCM_STREAM_CAPTURE);
    assert!(matches!(
        state,
        OpenState::ReadConf {
            dir: StreamDir::Capture
        }
    ));
    let pairs = vec![(String::from("server"), ConfValue::Str("h:7".into()))];
    state = proceed(state, OpenEvent::Conf(Ok(pairs)));
    assert!(matches!(state, OpenState::Connect { .. }));
    // An event that is not due changes nothing.
    state = proceed(state, OpenEvent::Code(-5));
    let config = match &state {
        OpenState::Connect { config, .. } => config.clone(),
        _ => unreachable!(),
    };
    assert_eq!(
        describe_open(StreamDir::Capture, &config, &echoed),
        "capture via tcp:h:7 (2ch 48000Hz, dir Capture)"
    );
    state = proceed(state, OpenEvent::Echo(Ok(echoed)));
    assert!(matches!(state, OpenState::Create { .. }));
    state = proceed(state, OpenEvent::Code(0));
    for k in 0..4 {
        assert!(matches!(state, OpenState::Pin { next, .. } if next == k));
        state = proceed(state, OpenEvent::Code(0));
    }
    assert!(matches!(state, OpenState::Open { .. }));
    state = proceed(state, OpenEvent::Code(-1));
    assert!(matches!(state, OpenState::Open { .. }));
}

#[test]
fn opening_fails_with_the_code_of_the_failure() {
    let code = |s: OpenState| match s {
        OpenState::Failed(f) => (f.errno(), f.message()),
        _ => panic!("not failed"),
    };
    assert_eq!(
        code(begin(7)),
        (
            -EINVAL,
            String::from("stream is neither playback nor capture")
        )
    );
    assert_eq!(
        code(proceed(
            begin(SND_PCM_STREAM_PLAYBACK),
            OpenEvent::Conf(Err(-19))
        )),
        (-19, String::from("alsa call failed with -19"))
    );
    let pairs = vec![(String::from("wat"), ConfValue::Int(1))];
    assert_eq!(
        code(proceed(
            begin(SND_PCM_STREAM_PLAYBACK),
            OpenEvent::Conf(Ok(pairs))
        )),
        (-EINVAL, String::from("conf: unknown conf key `wat`"))
    );
    let connect = || {
        proceed(
            begin(SND_PCM_STREAM_PLAYBACK),
            OpenEvent::Conf(Ok(vec![])),
        )
    };
    assert_eq!(
        code(proceed(
            connect(),
            OpenEvent::Echo(Err(OpenError::Io(String::from("down"))))
        )),
        (-EIO, String::from("bridge: bridge connect: down"))
    );
    assert_eq!(
        code(proceed(
            connect(),
            OpenEvent::Echo(Err(OpenError::Handshake(HandshakeError::Invalid("rate"))))
        ))
        .0,
        -EINVAL
    );
    let create = proceed(
        connect(),
        OpenEvent::Echo(Ok(Handshake::new(StreamDir::Playback, 2, 48_000))),
    );
    assert_eq!(code(proceed(create, OpenEvent::Code(-12))).0, -12);
    assert_eq!(
        OpenFail::Config(ConfigError::Conflict(String::from("x"))).errno(),
        -EINVAL
    );
    assert_eq!(OpenFail::Alsa(-2_147_483_648).message(), "alsa call failed with -2147483648");
}

#[test]
fn a_conf_node_is_read_key_by_key() {
    let mut reader = ConfReader::new();
    assert_eq!(reader.current(), Some(("socket", true)));
    assert_eq!(reader.on_search(-ENOENT), Search::Absent);
    assert_eq!(reader.current(), Some(("server", true)));
    assert_eq!(reader.on_search(0), Search::Present);
    assert_eq!(reader.current(), Some(("server", true)));
    assert_eq!(fetch_outcome(0), Ok(()));
    assert_eq!(fetch_outcome(-EINVAL), Err(-EINVAL));
    reader.on_value(ConfValue::Str(String::from("box")));
    assert_eq!(reader.current(), Some(("port", false)));
    assert_eq!(reader.on_search(-EINVAL), Search::Failed(-EINVAL));
    assert_eq!(reader.on_search(0), Search::Present);
    reader.on_value(ConfValue::Int(9100));
    assert_eq!(reader.current(), Some(("channels", false)));
    reader.on_search(-ENOENT);
    assert_eq!(reader.current(), Some(("rate", false)));
    reader.on_search(0);
    reader.on_value(ConfValue::Int(44_100));
    assert_eq!(reader.current(), None);
    let pairs = reader.into_pairs();
    assert_eq!(
        pairs,
        vec![
            (String::from("server"), ConfValue::Str(String::from("box"))),
            (String::from("port"), ConfValue::Int(9100)),
            (String::from("rate"), ConfValue::Int(44_100)),
        ]
    );
    let config = config_from_pairs(&pairs).expect("the pairs are good");
    assert_eq!(config.endpoint.describe(), "tcp:box:9100");
    assert_eq!((config.channels, config.rate), (2, 44_100));
}
