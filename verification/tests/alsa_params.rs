//! Negotiation of hardware parameters.

use sonicbrew::alsa::format::AlsaFormat;
use sonicbrew::alsa::params::{
    negotiate, pick_buffer, pick_channels, pick_rate, HwConstraints, HwParams, NegotiateError,
    DEFAULT_PERIOD,
};

#[test]
fn negotiate_picks_48k_stereo() {
    let c = HwConstraints {
        rates: Some(vec![44_100, 48_000]),
        channels: Some(vec![1, 2]),
        formats: Some(vec![AlsaFormat::S16Le]),
        ..HwConstraints::default()
    };
    let p = negotiate(&c).expect("ok");
    assert_eq!(p.sample_rate, 48_000);
    assert_eq!(p.channels, 2);
    assert_eq!(p.format, AlsaFormat::S16Le);
}

#[test]
fn negotiate_prefers_48k_over_44100() {
    let c = HwConstraints {
        rates: Some(vec![44_100, 48_000]),
        ..HwConstraints::default()
    };
    assert_eq!(negotiate(&c).unwrap().sample_rate, 48_000);
}

#[test]
fn negotiate_buffer_ge_2x_period() {
    let c = HwConstraints {
        period_size: Some(64..=256),
        ..HwConstraints::default()
    };
    let p = negotiate(&c).expect("ok");
    assert_eq!(p.period_size, 64);
    assert!(p.buffer_size >= 2 * p.period_size);
}

#[test]
fn negotiate_rejects_empty_rate() {
    let c = HwConstraints {
        rates: Some(vec![]),
        ..HwConstraints::default()
    };
    assert!(matches!(negotiate(&c), Err(NegotiateError::NoRate)));
}

#[test]
fn negotiate_defaults_when_unconstrained() {
    // Every axis None: policy defaults kick in.
    let p = negotiate(&HwConstraints::default()).expect("ok");
    assert_eq!(p.sample_rate, 48_000);
    assert_eq!(p.channels, 2);
    assert_eq!(p.format, AlsaFormat::S16Le);
    assert_eq!(p.period_size, DEFAULT_PERIOD);
    assert_eq!(p.buffer_size, 2 * DEFAULT_PERIOD);
}

#[test]
fn negotiate_picks_44100_when_48k_absent() {
    let c = HwConstraints {
        rates: Some(vec![22_050, 44_100]),
        ..HwConstraints::default()
    };
    assert_eq!(negotiate(&c).unwrap().sample_rate, 44_100);
}

#[test]
fn negotiate_falls_back_to_lowest_rate() {
    let c = HwConstraints {
        rates: Some(vec![96_000, 22_050]),
        ..HwConstraints::default()
    };
    assert_eq!(negotiate(&c).unwrap().sample_rate, 22_050);
}

#[test]
fn negotiate_rejects_empty_channels_and_format() {
    let c = HwConstraints {
        channels: Some(vec![]),
        ..HwConstraints::default()
    };
    assert!(matches!(negotiate(&c), Err(NegotiateError::NoChannels)));

    let c = HwConstraints {
        formats: Some(vec![]),
        ..HwConstraints::default()
    };
    assert!(matches!(negotiate(&c), Err(NegotiateError::NoFormat)));
}

#[test]
fn negotiate_rejects_buffer_range_below_2x_period() {
    // period = 64 → floor 128; buffer range tops out at 10.
    let c = HwConstraints {
        period_size: Some(64..=256),
        buffer_size: Some(1..=10),
        ..HwConstraints::default()
    };
    assert!(matches!(negotiate(&c), Err(NegotiateError::BufferTooSmall)));
}

#[test]
fn negotiate_rejects_inverted_period_range() {
    let c = HwConstraints {
        period_size: Some(256..=64),
        ..HwConstraints::default()
    };
    assert!(matches!(negotiate(&c), Err(NegotiateError::NoPeriod)));
}

#[test]
fn negotiate_respects_single_rate_constraint() {
    let c = HwConstraints {
        rates: Some(vec![44_100]),
        ..HwConstraints::default()
    };
    let p = negotiate(&c).expect("ok");
    assert_eq!(p.sample_rate, 44_100);
}

#[test]
fn negotiate_respects_single_channel_constraint() {
    let c = HwConstraints {
        channels: Some(vec![1]),
        ..HwConstraints::default()
    };
    let p = negotiate(&c).expect("ok");
    assert_eq!(p.channels, 1);
}

#[test]
fn negotiate_respects_single_format_constraint() {
    let c = HwConstraints {
        formats: Some(vec![AlsaFormat::Float32Le]),
        ..HwConstraints::default()
    };
    let p = negotiate(&c).expect("ok");
    assert_eq!(p.format, AlsaFormat::Float32Le);
}

#[test]
fn negotiate_prefers_first_format_in_list() {
    let c = HwConstraints {
        formats: Some(vec![AlsaFormat::S32Le, AlsaFormat::S16Le]),
        ..HwConstraints::default()
    };
    let p = negotiate(&c).expect("ok");
    // Caller's order is authoritative — first listed wins.
    assert_eq!(p.format, AlsaFormat::S32Le);
}

#[test]
fn negotiate_period_picks_smallest_in_range() {
    let c = HwConstraints {
        period_size: Some(128..=1024),
        ..HwConstraints::default()
    };
    let p = negotiate(&c).expect("ok");
    assert_eq!(p.period_size, 128);
}

#[test]
fn negotiate_buffer_floor_at_2x_period() {
    // Period = 256 → floor = 512. Buffer range starts at 64 but floor wins.
    let c = HwConstraints {
        period_size: Some(256..=256),
        buffer_size: Some(64..=4096),
        ..HwConstraints::default()
    };
    let p = negotiate(&c).expect("ok");
    assert_eq!(p.period_size, 256);
    assert_eq!(p.buffer_size, 512);
}

#[test]
fn negotiate_buffer_range_satisfies_2x() {
    // Period = 64 → floor = 128. Buffer range 200..=800 — smallest ≥ 128 is 200.
    let c = HwConstraints {
        period_size: Some(64..=64),
        buffer_size: Some(200..=800),
        ..HwConstraints::default()
    };
    let p = negotiate(&c).expect("ok");
    assert_eq!(p.period_size, 64);
    assert_eq!(p.buffer_size, 200);
    assert!(p.buffer_size >= 2 * p.period_size);
}

#[test]
fn negotiate_rejects_no_rate() {
    let c = HwConstraints {
        rates: Some(vec![]),
        ..HwConstraints::default()
    };
    assert!(matches!(negotiate(&c), Err(NegotiateError::NoRate)));
}

#[test]
fn negotiate_rejects_no_channels() {
    let c = HwConstraints {
        channels: Some(vec![]),
        ..HwConstraints::default()
    };
    assert!(matches!(negotiate(&c), Err(NegotiateError::NoChannels)));
}

#[test]
fn negotiate_rejects_no_format() {
    let c = HwConstraints {
        formats: Some(vec![]),
        ..HwConstraints::default()
    };
    assert!(matches!(negotiate(&c), Err(NegotiateError::NoFormat)));
}

#[test]
fn negotiate_rejects_no_period_range() {
    let c = HwConstraints {
        period_size: Some(512..=128),
        ..HwConstraints::default()
    };
    assert!(matches!(negotiate(&c), Err(NegotiateError::NoPeriod)));
}

#[test]
fn negotiate_rejects_buffer_below_2x_period() {
    let c = HwConstraints {
        period_size: Some(256..=256),
        buffer_size: Some(1..=511),
        ..HwConstraints::default()
    };
    assert!(matches!(negotiate(&c), Err(NegotiateError::BufferTooSmall)));
}

#[test]
fn negotiate_buffer_at_exactly_2x_period() {
    let c = HwConstraints {
        period_size: Some(128..=128),
        buffer_size: Some(256..=256),
        ..HwConstraints::default()
    };
    let p = negotiate(&c).expect("ok");
    assert_eq!(p.buffer_size, 256);
    assert_eq!(p.buffer_size, 2 * p.period_size);
}

#[test]
fn matrix_48k_stereo_s16le() {
    let c = HwConstraints {
        rates: Some(vec![48_000]),
        channels: Some(vec![2]),
        formats: Some(vec![AlsaFormat::S16Le]),
        ..HwConstraints::default()
    };
    let p = negotiate(&c).expect("ok");
    assert_eq!(p.sample_rate, 48_000);
    assert_eq!(p.channels, 2);
    assert_eq!(p.format, AlsaFormat::S16Le);
}

#[test]
fn matrix_44100_mono_s32le() {
    let c = HwConstraints {
        rates: Some(vec![44_100]),
        channels: Some(vec![1]),
        formats: Some(vec![AlsaFormat::S32Le]),
        ..HwConstraints::default()
    };
    let p = negotiate(&c).expect("ok");
    assert_eq!(p.sample_rate, 44_100);
    assert_eq!(p.channels, 1);
    assert_eq!(p.format, AlsaFormat::S32Le);
}

#[test]
fn matrix_96k_stereo_float64le() {
    let c = HwConstraints {
        rates: Some(vec![96_000]),
        channels: Some(vec![2]),
        formats: Some(vec![AlsaFormat::Float64Le]),
        ..HwConstraints::default()
    };
    let p = negotiate(&c).expect("ok");
    assert_eq!(p.sample_rate, 96_000);
    assert_eq!(p.channels, 2);
    assert_eq!(p.format, AlsaFormat::Float64Le);
}

#[test]
fn matrix_22050_mono_s24_3le() {
    let c = HwConstraints {
        rates: Some(vec![22_050]),
        channels: Some(vec![1]),
        formats: Some(vec![AlsaFormat::S24_3Le]),
        ..HwConstraints::default()
    };
    let p = negotiate(&c).expect("ok");
    assert_eq!(p.sample_rate, 22_050);
    assert_eq!(p.channels, 1);
    assert_eq!(p.format, AlsaFormat::S24_3Le);
}

#[test]
fn matrix_multi_rate_prefers_48k() {
    let c = HwConstraints {
        rates: Some(vec![22_050, 44_100, 48_000, 96_000]),
        channels: Some(vec![1, 2]),
        formats: Some(vec![AlsaFormat::S16Le, AlsaFormat::S32Le]),
        ..HwConstraints::default()
    };
    let p = negotiate(&c).expect("ok");
    assert_eq!(p.sample_rate, 48_000);
    assert_eq!(p.channels, 2);
    assert_eq!(p.format, AlsaFormat::S16Le);
}

#[test]
fn matrix_no_48k_prefers_44100() {
    let c = HwConstraints {
        rates: Some(vec![22_050, 44_100, 96_000]),
        channels: Some(vec![2]),
        formats: Some(vec![AlsaFormat::S16Le]),
        ..HwConstraints::default()
    };
    let p = negotiate(&c).expect("ok");
    assert_eq!(p.sample_rate, 44_100);
}

#[test]
fn matrix_no_48k_no_44100_prefers_lowest() {
    let c = HwConstraints {
        rates: Some(vec![96_000, 22_050]),
        channels: Some(vec![1]),
        formats: Some(vec![AlsaFormat::Float32Le]),
        ..HwConstraints::default()
    };
    let p = negotiate(&c).expect("ok");
    assert_eq!(p.sample_rate, 22_050);
    assert_eq!(p.channels, 1);
    assert_eq!(p.format, AlsaFormat::Float32Le);
}

#[test]
fn matrix_single_mono_no_stereo_prefers_1() {
    let c = HwConstraints {
        channels: Some(vec![1]),
        ..HwConstraints::default()
    };
    let p = negotiate(&c).expect("ok");
    assert_eq!(p.channels, 1);
}

#[test]
fn matrix_high_channel_count_falls_back_to_lowest() {
    let c = HwConstraints {
        channels: Some(vec![8, 4, 6]),
        ..HwConstraints::default()
    };
    let p = negotiate(&c).expect("ok");
    // None contain 2 or 1, so lowest (4) wins.
    assert_eq!(p.channels, 4);
}

#[test]
fn negotiate_result_is_send() {
    fn assert_send<T: Send>() {}
    assert_send::<Result<HwParams, NegotiateError>>();
}

#[test]
fn negotiate_error_is_send_and_display() {
    fn assert_send<T: Send>() {}
    assert_send::<NegotiateError>();
    // The text is used in logging.
    let err_str = NegotiateError::NoRate.message();
    assert!(!err_str.is_empty());
}

#[test]
fn zero_rate_no_panic() {
    let c = HwConstraints {
        rates: Some(vec![0]),
        ..HwConstraints::default()
    };
    let _ = negotiate(&c);
}

#[test]
fn max_u32_rate_no_panic() {
    let c = HwConstraints {
        rates: Some(vec![u32::MAX]),
        ..HwConstraints::default()
    };
    let _ = negotiate(&c);
}

#[test]
fn single_zero_channel_no_panic() {
    let c = HwConstraints {
        channels: Some(vec![0]),
        ..HwConstraints::default()
    };
    let _ = negotiate(&c);
}

#[test]
fn max_u16_channel_no_panic() {
    let c = HwConstraints {
        channels: Some(vec![u16::MAX]),
        ..HwConstraints::default()
    };
    let _ = negotiate(&c);
}

#[test]
fn zero_period_range_no_panic() {
    let c = HwConstraints {
        period_size: Some(0..=0),
        ..HwConstraints::default()
    };
    let _ = negotiate(&c);
}

#[test]
fn huge_period_range_no_panic() {
    let c = HwConstraints {
        period_size: Some(1..=u32::MAX),
        ..HwConstraints::default()
    };
    let _ = negotiate(&c);
}

#[test]
fn buffer_range_start_equals_floor() {
    // period=256 → floor=512. Buffer range 512..=512 — exactly at floor.
    let c = HwConstraints {
        period_size: Some(256..=256),
        buffer_size: Some(512..=512),
        ..HwConstraints::default()
    };
    let p = negotiate(&c).expect("ok");
    assert_eq!(p.buffer_size, 512);
}

#[test]
fn all_axes_constrained_tightly() {
    let c = HwConstraints {
        rates: Some(vec![48_000]),
        channels: Some(vec![2]),
        formats: Some(vec![AlsaFormat::S16Le]),
        period_size: Some(128..=128),
        buffer_size: Some(256..=256),
    };
    let p = negotiate(&c).expect("ok");
    assert_eq!(p.sample_rate, 48_000);
    assert_eq!(p.channels, 2);
    assert_eq!(p.format, AlsaFormat::S16Le);
    assert_eq!(p.period_size, 128);
    assert_eq!(p.buffer_size, 256);
}

#[test]
fn inverted_buffer_range_permits_nothing() {
    let c = HwConstraints {
        buffer_size: Some(4096..=1024),
        ..HwConstraints::default()
    };
    assert_eq!(negotiate(&c), Err(NegotiateError::BufferTooSmall));
    assert_eq!(
        pick_buffer(&Some(600..=599), 512),
        Err(NegotiateError::BufferTooSmall)
    );
}

#[test]
fn sweep_of_ranges_never_panics() {
    let edges = [0_u32, 1, 255, 256, 512, 65_536, u32::MAX / 2, u32::MAX];
    for lo in edges {
        for hi in edges {
            for floor in edges {
                let c = HwConstraints {
                    rates: Some(vec![lo, hi]),
                    channels: Some(vec![lo as u16, hi as u16]),
                    formats: None,
                    period_size: Some(lo..=hi),
                    buffer_size: Some(floor..=hi),
                };
                let _ = negotiate(&c);
            }
        }
    }
}

#[test]
fn error_texts() {
    assert_eq!(NegotiateError::NoRate.message(), "no common sample rate");
    assert_eq!(
        NegotiateError::NoChannels.message(),
        "no common channel count"
    );
    assert_eq!(NegotiateError::NoFormat.message(), "no common format");
    assert_eq!(NegotiateError::NoPeriod.message(), "no period size in range");
    assert_eq!(
        NegotiateError::BufferTooSmall.message(),
        "buffer must be >= 2*period"
    );
}

#[test]
fn order_of_a_list_does_not_matter_for_rates_and_channels() {
    assert_eq!(pick_rate(&Some(vec![96_000, 44_100, 8_000])), Ok(44_100));
    assert_eq!(pick_rate(&Some(vec![8_000, 44_100, 96_000])), Ok(44_100));
    assert_eq!(pick_channels(&Some(vec![8, 1, 6])), Ok(1));
    assert_eq!(pick_channels(&Some(vec![6, 8, 1])), Ok(1));
}

#[test]
fn negotiated_values_are_permitted() {
    let c = HwConstraints {
        rates: Some(vec![11_025, 32_000]),
        channels: Some(vec![6, 8]),
        formats: Some(vec![AlsaFormat::S24_3Le, AlsaFormat::S16Le]),
        period_size: Some(100..=200),
        buffer_size: Some(150..=1000),
    };
    assert_eq!(
        negotiate(&c),
        Ok(HwParams {
            sample_rate: 11_025,
            channels: 6,
            format: AlsaFormat::S24_3Le,
            period_size: 100,
            buffer_size: 200,
        })
    );
}

#[test]
fn no_buffer_holds_a_huge_period_twice() {
    let huge = HwConstraints {
        period_size: Some(3_000_000_000..=u32::MAX),
        ..HwConstraints::default()
    };
    assert!(matches!(
        negotiate(&huge),
        Err(NegotiateError::BufferTooSmall)
    ));
    let with_range = HwConstraints {
        buffer_size: Some(1..=u32::MAX),
        ..huge
    };
    assert!(matches!(
        negotiate(&with_range),
        Err(NegotiateError::BufferTooSmall)
    ));
    let largest = HwConstraints {
        period_size: Some(0x7fff_ffff..=u32::MAX),
        ..HwConstraints::default()
    };
    let p = negotiate(&largest).expect("ok");
    assert_eq!(p.period_size, 0x7fff_ffff);
    assert_eq!(p.buffer_size, 0xffff_fffe);
    let next = HwConstraints {
        period_size: Some(0x8000_0000..=u32::MAX),
        ..HwConstraints::default()
    };
    assert!(matches!(
        negotiate(&next),
        Err(NegotiateError::BufferTooSmall)
    ));
}
