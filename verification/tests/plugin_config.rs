//! The configuration of the plugin.

use sonicbrew::alsa_plugin::bridge::MAX_RATE;
use sonicbrew::alsa_plugin::config::{
    config_from_pairs, parse_server, BridgeConfig, ConfValue, ConfigError, Endpoint,
    DEFAULT_CHANNELS, DEFAULT_RATE, DEFAULT_SERVER, DEFAULT_TCP_PORT,
};

fn pairs(kvs: &[(&str, ConfValue)]) -> Vec<(String, ConfValue)> {
    kvs.iter()
        .map(|(k, v)| ((*k).to_owned(), v.clone()))
        .collect()
}

#[test]
fn config_defaults_when_empty() {
    let cfg = config_from_pairs(&pairs(&[])).unwrap();
    assert_eq!(
        cfg,
        BridgeConfig {
            endpoint: Endpoint::Tcp {
                host: DEFAULT_SERVER.to_owned(),
                port: DEFAULT_TCP_PORT,
            },
            channels: DEFAULT_CHANNELS,
            rate: DEFAULT_RATE,
        }
    );
}

#[test]
fn config_socket_endpoint() {
    let cfg = config_from_pairs(&pairs(&[(
        "socket",
        ConfValue::Str("/tmp/sonicbrew.sock".into()),
    )]))
    .unwrap();
    assert_eq!(
        cfg.endpoint,
        Endpoint::Unix(String::from("/tmp/sonicbrew.sock"))
    );
    // channels/rate fall back to defaults.
    assert_eq!(cfg.channels, 2);
    assert_eq!(cfg.rate, 48_000);
}

#[test]
fn config_server_and_port() {
    let cfg = config_from_pairs(&pairs(&[
        ("server", ConfValue::Str("10.0.0.4".into())),
        ("port", ConfValue::Int(9999)),
        ("channels", ConfValue::Int(8)),
        ("rate", ConfValue::Int(96_000)),
    ]))
    .unwrap();
    assert_eq!(
        cfg.endpoint,
        Endpoint::Tcp {
            host: "10.0.0.4".into(),
            port: 9999,
        }
    );
    assert_eq!(cfg.channels, 8);
    assert_eq!(cfg.rate, 96_000);
}

#[test]
fn config_server_with_embedded_port() {
    let cfg = config_from_pairs(&pairs(&[(
        "server",
        ConfValue::Str("192.168.1.9:7777".into()),
    )]))
    .unwrap();
    assert_eq!(
        cfg.endpoint,
        Endpoint::Tcp {
            host: "192.168.1.9".into(),
            port: 7777,
        }
    );
    // Embedded port + explicit port key conflict.
    let err = config_from_pairs(&pairs(&[
        ("server", ConfValue::Str("192.168.1.9:7777".into())),
        ("port", ConfValue::Int(1)),
    ]))
    .unwrap_err();
    assert!(matches!(err, ConfigError::Conflict(_)));
}

#[test]
fn config_key_conflicts_rejected() {
    // socket + server
    assert!(matches!(
        config_from_pairs(&pairs(&[
            ("socket", ConfValue::Str("/a".into())),
            ("server", ConfValue::Str("h".into())),
        ]))
        .unwrap_err(),
        ConfigError::Conflict(_)
    ));
    // port without server
    assert!(matches!(
        config_from_pairs(&pairs(&[("port", ConfValue::Int(1))])).unwrap_err(),
        ConfigError::Conflict(_)
    ));
    // unbracketed IPv6-looking host
    assert!(matches!(
        config_from_pairs(&pairs(&[("server", ConfValue::Str("::1".into()))])).unwrap_err(),
        ConfigError::Invalid(_)
    ));
    // bracketed IPv6 literal is fine
    let cfg =
        config_from_pairs(&pairs(&[("server", ConfValue::Str("[::1]:9005".into()))])).unwrap();
    assert_eq!(
        cfg.endpoint,
        Endpoint::Tcp {
            host: "[::1]".into(),
            port: 9005,
        }
    );
}

#[test]
fn config_unknown_and_ignored_keys() {
    assert!(matches!(
        config_from_pairs(&pairs(&[("wat", ConfValue::Int(1))])).unwrap_err(),
        ConfigError::UnknownKey(k) if k == "wat"
    ));
    // libasound's own keys are tolerated.
    let cfg = config_from_pairs(&pairs(&[
        ("type", ConfValue::Str("sonicbrew".into())),
        ("comment", ConfValue::Str("hi".into())),
        ("hint", ConfValue::Str("{}".into())),
    ]))
    .unwrap();
    assert_eq!(cfg.channels, DEFAULT_CHANNELS);
}

#[test]
fn config_type_and_range_validation() {
    // Wrong types.
    assert!(matches!(
        config_from_pairs(&pairs(&[("socket", ConfValue::Int(1))])).unwrap_err(),
        ConfigError::TypeMismatch(_)
    ));
    assert!(matches!(
        config_from_pairs(&pairs(&[("rate", ConfValue::Str("48k".into()))])).unwrap_err(),
        ConfigError::TypeMismatch(_)
    ));
    // Out-of-range values.
    for kvs in [
        vec![("channels", ConfValue::Int(0))],
        vec![("channels", ConfValue::Int(-2))],
        vec![("rate", ConfValue::Int(0))],
        vec![("rate", ConfValue::Int(i64::from(MAX_RATE) + 1))],
        vec![("server", ConfValue::Str("h:x".into()))],
        vec![("server", ConfValue::Str("h:0".into()))],
        vec![
            ("server", ConfValue::Str("h".into())),
            ("port", ConfValue::Int(0)),
        ],
    ] {
        assert!(
            config_from_pairs(&pairs(&kvs)).is_err(),
            "{kvs:?} should be rejected"
        );
    }
}

#[test]
fn endpoint_describe_is_log_friendly() {
    assert_eq!(
        Endpoint::Unix(String::from("/run/s.sock")).describe(),
        "unix:/run/s.sock"
    );
    assert_eq!(
        Endpoint::Tcp {
            host: "127.0.0.1".into(),
            port: 9001
        }
        .describe(),
        "tcp:127.0.0.1:9001"
    );
}

#[test]
fn bare_server_gets_the_default_port() {
    let cfg = config_from_pairs(&pairs(&[("server", ConfValue::Str("studio".into()))])).unwrap();
    assert_eq!(
        cfg.endpoint,
        Endpoint::Tcp {
            host: "studio".into(),
            port: DEFAULT_TCP_PORT,
        }
    );
    // A bracket without a port is taken apart at its last colon.
    assert!(matches!(
        config_from_pairs(&pairs(&[("server", ConfValue::Str("[::1]".into()))])),
        Err(ConfigError::Invalid(text)) if text == "bad port `1]`"
    ));
}

#[test]
fn later_pairs_win() {
    let cfg = config_from_pairs(&pairs(&[
        ("rate", ConfValue::Int(44_100)),
        ("rate", ConfValue::Int(96_000)),
    ]))
    .unwrap();
    assert_eq!(cfg.rate, 96_000);
}

#[test]
fn ports_of_a_server_are_bounded() {
    assert_eq!(
        parse_server("h:65535", None).unwrap(),
        (String::from("h"), 65_535)
    );
    assert!(parse_server("h:65536", None).is_err());
    assert!(parse_server("h:", None).is_err());
    assert_eq!(
        parse_server("h:+80", None).unwrap(),
        (String::from("h"), 80)
    );
    assert_eq!(
        parse_server(":80", None).unwrap(),
        (String::new(), 80)
    );
    assert_eq!(
        parse_server("h", Some(0)),
        Err(ConfigError::Invalid(String::from("port must be >= 1")))
    );
    assert_eq!(
        parse_server("h", Some(80)).unwrap(),
        (String::from("h"), 80)
    );
}

#[test]
fn config_error_texts() {
    assert_eq!(
        ConfigError::UnknownKey(String::from("wat")).message(),
        "unknown conf key `wat`"
    );
    assert_eq!(
        ConfigError::TypeMismatch(String::from("rate")).message(),
        "conf key `rate` has the wrong type"
    );
    assert_eq!(
        ConfigError::Conflict(String::from("a")).message(),
        "conf conflict: a"
    );
    assert_eq!(
        ConfigError::Invalid(String::from("b")).message(),
        "invalid conf value: b"
    );
}

#[test]
fn conf_values_have_one_shape() {
    assert_eq!(ConfValue::Int(3).as_int(), Some(3));
    assert_eq!(ConfValue::Int(3).as_str(), None);
    assert_eq!(ConfValue::Str("x".into()).as_str(), Some("x"));
    assert_eq!(ConfValue::Str("x".into()).as_int(), None);
}
