//! The plugin's configuration: from the key/value pairs of an ALSA conf node to
//! an endpoint and a stream setup.

use crate::alsa_plugin::bridge::{MAX_CHANNELS, MAX_RATE};
use crate::text::{append_decimal, chars_of, decimal, enclosed, same_text};
use vstd::prelude::*;

verus! {

/// TCP host when the conf names neither `socket` nor `server`.
pub const DEFAULT_SERVER: &'static str = "127.0.0.1";

/// TCP port when the conf names none.
pub const DEFAULT_TCP_PORT: u16 = 9001;

/// Channel count when the conf names none.
pub const DEFAULT_CHANNELS: u32 = 2;

/// Sample rate when the conf names none.
pub const DEFAULT_RATE: u32 = 48_000;

/// Where the server lives.
#[derive(Debug, Clone, PartialEq, Eq)]
pub enum Endpoint {
    /// A Unix domain socket, by its path.
    Unix(String),
    /// A TCP host and port. The host stays a text, so that names resolve at
    /// connect time.
    Tcp {
        /// Host name, address, or bracketed IPv6 literal.
        host: String,
        /// Remote port.
        port: u16,
    },
}

/// The contents of an [`Endpoint`].
pub enum EndpointView {
    /// A socket path.
    Unix(Seq<char>),
    /// A host and a port.
    Tcp {
        /// Host.
        host: Seq<char>,
        /// Port.
        port: u16,
    },
}

impl View for Endpoint {
    type V = EndpointView;

    open spec fn view(&self) -> EndpointView {
        match self {
            Endpoint::Unix(path) => EndpointView::Unix(path@),
            Endpoint::Tcp { host, port } => EndpointView::Tcp { host: host@, port: *port },
        }
    }
}

impl EndpointView {
    /// The form of the endpoint in log lines.
    pub open spec fn text(self) -> Seq<char> {
        match self {
            EndpointView::Unix(path) => "unix:"@ + path,
            EndpointView::Tcp { host, port } => "tcp:"@ + host + ":"@ + decimal(port as nat),
        }
    }
}

impl Endpoint {
    /// The form of the endpoint in log lines.
    pub fn describe(&self) -> (s: String)
        ensures
            s@ == self@.text(),
    {
        match self {
            Endpoint::Unix(path) => {
                let mut s = "unix:".to_owned();
                s.append(path.as_str());
                s
            },
            Endpoint::Tcp { host, port } => {
                let mut s = enclosed("tcp:", host.as_str(), ":");
                append_decimal(&mut s, *port as u64);
                s
            },
        }
    }
}

/// A conf value: one of the two shapes that the plugin's keys use.
#[derive(Debug, Clone, PartialEq, Eq)]
pub enum ConfValue {
    /// A text.
    Str(String),
    /// An integer.
    Int(i64),
}

/// The contents of a [`ConfValue`].
pub enum ConfValueView {
    /// A text.
    Str(Seq<char>),
    /// An integer.
    Int(i64),
}

impl View for ConfValue {
    type V = ConfValueView;

    open spec fn view(&self) -> ConfValueView {
        match self {
            ConfValue::Str(s) => ConfValueView::Str(s@),
            ConfValue::Int(v) => ConfValueView::Int(*v),
        }
    }
}

impl ConfValue {
    /// The text, if this is one.
    pub fn as_str(&self) -> (s: Option<&str>)
        ensures
            match self@ {
                ConfValueView::Str(t) => s matches Some(u) && u@ == t,
                ConfValueView::Int(_) => s is None,
            },
    {
        match self {
            ConfValue::Str(s) => Some(s.as_str()),
            ConfValue::Int(_) => None,
        }
    }

    /// The integer, if this is one.
    pub fn as_int(&self) -> (v: Option<i64>)
        ensures
            v == match self@ {
                ConfValueView::Str(_) => None::<i64>,
                ConfValueView::Int(i) => Some(i),
            },
    {
        match self {
            ConfValue::Int(v) => Some(*v),
            ConfValue::Str(_) => None,
        }
    }
}

/// A validated configuration.
#[derive(Debug, Clone, PartialEq, Eq)]
pub struct BridgeConfig {
    /// Where to connect.
    pub endpoint: Endpoint,
    /// Channel count of the stream.
    pub channels: u32,
    /// Sample rate of the stream.
    pub rate: u32,
}

/// The contents of a [`BridgeConfig`].
pub struct BridgeConfigView {
    /// Where to connect.
    pub endpoint: EndpointView,
    /// Channel count of the stream.
    pub channels: u32,
    /// Sample rate of the stream.
    pub rate: u32,
}

impl View for BridgeConfig {
    type V = BridgeConfigView;

    open spec fn view(&self) -> BridgeConfigView {
        BridgeConfigView {
            endpoint: self.endpoint@,
            channels: self.channels,
            rate: self.rate,
        }
    }
}

/// Errors from [`config_from_pairs`].
#[derive(Debug, Clone, PartialEq, Eq)]
pub enum ConfigError {
    /// A key that the plugin does not understand.
    UnknownKey(String),
    /// A known key with a value of the wrong shape.
    TypeMismatch(String),
    /// Keys that cannot be combined.
    Conflict(String),
    /// A value out of range or malformed.
    Invalid(String),
}

/// The contents of a [`ConfigError`].
pub enum ConfigErrorView {
    /// See [`ConfigError::UnknownKey`].
    UnknownKey(Seq<char>),
    /// See [`ConfigError::TypeMismatch`].
    TypeMismatch(Seq<char>),
    /// See [`ConfigError::Conflict`].
    Conflict(Seq<char>),
    /// See [`ConfigError::Invalid`].
    Invalid(Seq<char>),
}

impl View for ConfigError {
    type V = ConfigErrorView;

    open spec fn view(&self) -> ConfigErrorView {
        match self {
            ConfigError::UnknownKey(k) => ConfigErrorView::UnknownKey(k@),
            ConfigError::TypeMismatch(k) => ConfigErrorView::TypeMismatch(k@),
            ConfigError::Conflict(m) => ConfigErrorView::Conflict(m@),
            ConfigError::Invalid(m) => ConfigErrorView::Invalid(m@),
        }
    }
}

impl ConfigErrorView {
    /// The text of the error.
    pub open spec fn text(self) -> Seq<char> {
        match self {
            ConfigErrorView::UnknownKey(k) => "unknown conf key `"@ + k + "`"@,
            ConfigErrorView::TypeMismatch(k) => "conf key `"@ + k + "` has the wrong type"@,
            ConfigErrorView::Conflict(m) => "conf conflict: "@ + m + ""@,
            ConfigErrorView::Invalid(m) => "invalid conf value: "@ + m + ""@,
        }
    }
}

impl ConfigError {
    /// The text of the error.
    pub fn message(&self) -> (s: String)
        ensures
            s@ == self@.text(),
    {
        match self {
            ConfigError::UnknownKey(k) => enclosed("unknown conf key `", k.as_str(), "`"),
            ConfigError::TypeMismatch(k) => enclosed(
                "conf key `",
                k.as_str(),
                "` has the wrong type",
            ),
            ConfigError::Conflict(m) => enclosed("conf conflict: ", m.as_str(), ""),
            ConfigError::Invalid(m) => enclosed("invalid conf value: ", m.as_str(), ""),
        }
    }
}

/// The contents of a list of conf pairs.
pub open spec fn pairs_view(pairs: Seq<(String, ConfValue)>) -> Seq<(Seq<char>, ConfValueView)> {
    pairs.map_values(|p: (String, ConfValue)| (p.0@, p.1@))
}

/// Whether libasound itself puts `key` into a conf node.
pub open spec fn is_ignored(key: Seq<char>) -> bool {
    key == "type"@ || key == "comment"@ || key == "hint"@
}

/// What is wrong with one pair, whatever stands around it.
pub open spec fn pair_fault(key: Seq<char>, value: ConfValueView) -> Option<ConfigErrorView> {
    if key == "socket"@ || key == "server"@ {
        match value {
            ConfValueView::Str(_) => None,
            ConfValueView::Int(_) => Some(ConfigErrorView::TypeMismatch(key)),
        }
    } else if key == "port"@ {
        match value {
            ConfValueView::Str(_) => Some(ConfigErrorView::TypeMismatch(key)),
            ConfValueView::Int(v) => if 0 <= v <= 65_535 {
                None
            } else {
                Some(ConfigErrorView::Invalid("port out of range"@))
            },
        }
    } else if key == "channels"@ || key == "rate"@ {
        match value {
            ConfValueView::Str(_) => Some(ConfigErrorView::TypeMismatch(key)),
            ConfValueView::Int(_) => None,
        }
    } else if is_ignored(key) {
        None
    } else {
        Some(ConfigErrorView::UnknownKey(key))
    }
}

/// What is wrong with the first pair that is wrong by itself.
pub open spec fn first_fault(pairs: Seq<(Seq<char>, ConfValueView)>) -> Option<ConfigErrorView>
    decreases pairs.len(),
{
    if pairs.len() == 0 {
        None
    } else {
        match first_fault(pairs.drop_last()) {
            Some(fault) => Some(fault),
            None => pair_fault(pairs.last().0, pairs.last().1),
        }
    }
}

/// The value of the last pair with the given key.
pub open spec fn last_value(
    pairs: Seq<(Seq<char>, ConfValueView)>,
    key: Seq<char>,
) -> Option<ConfValueView>
    decreases pairs.len(),
{
    if pairs.len() == 0 {
        None
    } else if pairs.last().0 == key {
        Some(pairs.last().1)
    } else {
        last_value(pairs.drop_last(), key)
    }
}

/// The text that the last pair with the given key holds.
pub open spec fn last_text(
    pairs: Seq<(Seq<char>, ConfValueView)>,
    key: Seq<char>,
) -> Option<Seq<char>> {
    match last_value(pairs, key) {
        Some(ConfValueView::Str(s)) => Some(s),
        _ => None,
    }
}

/// The integer that the last pair with the given key holds.
pub open spec fn last_int(pairs: Seq<(Seq<char>, ConfValueView)>, key: Seq<char>) -> Option<i64> {
    match last_value(pairs, key) {
        Some(ConfValueView::Int(v)) => Some(v),
        _ => None,
    }
}

/// Whether every character is a decimal digit.
pub open spec fn all_digits(s: Seq<char>) -> bool {
    forall|i: int| 0 <= i < s.len() ==> '0' <= #[trigger] s[i] <= '9'
}

/// The number that decimal digits denote.
pub open spec fn digits_value(s: Seq<char>) -> nat
    decreases s.len(),
{
    if s.len() == 0 {
        0
    } else {
        digits_value(s.drop_last()) * 10 + (s.last() as nat - 48) as nat
    }
}

/// The digits of a number that may have a plus sign in front.
pub open spec fn unsigned_part(s: Seq<char>) -> Seq<char> {
    if s.len() > 0 && s[0] == '+' {
        s.skip(1)
    } else {
        s
    }
}

/// The port that `s` denotes: decimal digits, at least one, with an optional
/// plus sign in front, below 65536.
pub open spec fn port_of(s: Seq<char>) -> Option<u16> {
    let digits = unsigned_part(s);
    if digits.len() > 0 && all_digits(digits) && digits_value(digits) <= 65_535 {
        Some(digits_value(digits) as u16)
    } else {
        None
    }
}

/// The place of the last colon in `s`, or -1 where there is none.
pub open spec fn last_colon(s: Seq<char>) -> int
    decreases s.len(),
{
    if s.len() == 0 {
        -1
    } else if s.last() == ':' {
        s.len() - 1
    } else {
        last_colon(s.drop_last())
    }
}

/// The host and port of a `server` value, given the value of the `port` key.
pub open spec fn server_of(server: Seq<char>, port_key: Option<u16>) -> Result<
    (Seq<char>, u16),
    ConfigErrorView,
> {
    let colon = last_colon(server);
    if colon >= 0 {
        let host = server.take(colon);
        let port = server.skip(colon + 1);
        if port_key is Some {
            Err(
                ConfigErrorView::Conflict(
                    "`server` already carries :port; drop the `port` key"@,
                ),
            )
        } else if !(host.len() > 0 && host[0] == '[') && host.contains(':') {
            Err(ConfigErrorView::Invalid("bracket IPv6 literals as [addr]:port"@))
        } else {
            match port_of(port) {
                None => Err(ConfigErrorView::Invalid("bad port `"@ + port + "`"@)),
                Some(p) => if p == 0 {
                    Err(ConfigErrorView::Invalid("port must be >= 1"@))
                } else {
                    Ok((host, p))
                },
            }
        }
    } else {
        match port_key {
            Some(p) => if p == 0 {
                Err(ConfigErrorView::Invalid("port must be >= 1"@))
            } else {
                Ok((server, p))
            },
            None => Ok((server, DEFAULT_TCP_PORT)),
        }
    }
}

/// The endpoint that the three endpoint keys name.
pub open spec fn endpoint_of(
    socket: Option<Seq<char>>,
    server: Option<Seq<char>>,
    port: Option<u16>,
) -> Result<EndpointView, ConfigErrorView> {
    if socket is Some && server is Some {
        Err(ConfigErrorView::Conflict("`socket` and `server` are exclusive"@))
    } else if port is Some && server is None {
        Err(ConfigErrorView::Conflict("`port` requires `server`"@))
    } else {
        match socket {
            Some(path) => Ok(EndpointView::Unix(path)),
            None => {
                let host = match server {
                    Some(s) => s,
                    None => DEFAULT_SERVER@,
                };
                match server_of(host, port) {
                    Ok((host, port)) => Ok(EndpointView::Tcp { host, port }),
                    Err(e) => Err(e),
                }
            },
        }
    }
}

/// The configuration that `pairs` describe, or the first thing wrong with them:
/// a pair that is wrong by itself, then the endpoint, then the ranges.
pub open spec fn config_of(pairs: Seq<(Seq<char>, ConfValueView)>) -> Result<
    BridgeConfigView,
    ConfigErrorView,
> {
    match first_fault(pairs) {
        Some(fault) => Err(fault),
        None => {
            let port = match last_int(pairs, "port"@) {
                Some(v) => Some(v as u16),
                None => None,
            };
            let channels = match last_int(pairs, "channels"@) {
                Some(v) => v,
                None => DEFAULT_CHANNELS as i64,
            };
            let rate = match last_int(pairs, "rate"@) {
                Some(v) => v,
                None => DEFAULT_RATE as i64,
            };
            match endpoint_of(last_text(pairs, "socket"@), last_text(pairs, "server"@), port) {
                Err(e) => Err(e),
                Ok(endpoint) => if !(1 <= channels <= MAX_CHANNELS) {
                    Err(ConfigErrorView::Invalid("channels must be 1..=1024"@))
                } else if !(1 <= rate <= MAX_RATE) {
                    Err(ConfigErrorView::Invalid("rate must be 1..=768000"@))
                } else {
                    Ok(
                        BridgeConfigView { endpoint, channels: channels as u32, rate: rate as u32 },
                    )
                },
            }
        },
    }
}

proof fn lemma_last_colon(s: Seq<char>)
    ensures
        -1 <= last_colon(s) < s.len(),
        last_colon(s) >= 0 ==> s[last_colon(s)] == ':',
        forall|i: int| last_colon(s) < i < s.len() ==> s[i] != ':',
    decreases s.len(),
{
    if s.len() > 0 && s.last() != ':' {
        lemma_last_colon(s.drop_last());
        assert forall|i: int| last_colon(s) < i < s.len() implies s[i] != ':' by {
            if i < s.len() - 1 {
                assert(s[i] == s.drop_last()[i]);
            }
        }
    }
}

proof fn lemma_digits_grow(s: Seq<char>, n: int)
    requires
        0 <= n <= s.len(),
    ensures
        digits_value(s.take(n)) <= digits_value(s),
    decreases s.len() - n,
{
    if n < s.len() {
        lemma_digits_grow(s, n + 1);
        assert(s.take(n + 1).drop_last() =~= s.take(n));
    } else {
        assert(s.take(n) =~= s);
    }
}

/// The port that `s` denotes.
fn parse_port(s: &Vec<char>) -> (p: Option<u16>)
    ensures
        p == port_of(s@),
{
    let start: usize = if s.len() > 0 && s[0] == '+' {
        1
    } else {
        0
    };
    let ghost digits = unsigned_part(s@);
    if s.len() == start {
        return None;
    }
    let mut value: u32 = 0;
    let mut i: usize = start;
    while i < s.len()
        invariant
            start <= i <= s@.len(),
            digits == s@.skip(start as int),
            digits == unsigned_part(s@),
            value <= 65_535,
            value == digits_value(digits.take(i - start)),
            all_digits(digits.take(i - start)),
        decreases s@.len() - i,
    {
        let c = s[i];
        proof {
            assert(digits.take(i + 1 - start).drop_last() =~= digits.take(i - start));
            assert(digits[i - start] == c);
        }
        if c < '0' || c > '9' {
            return None;
        }
        value = value * 10 + (c as u32 - 48);
        if value > 65_535 {
            proof {
                lemma_digits_grow(digits, i + 1 - start);
            }
            return None;
        }
        i = i + 1;
    }
    proof {
        assert(digits.take(i - start) =~= digits);
    }
    Some(value as u16)
}

/// Splits a `server` value into host and port, applying the `port` key only
/// where the value carries no port of its own.
pub fn parse_server(server: &str, port_key: Option<u16>) -> (res: Result<(String, u16), ConfigError>)
    ensures
        match server_of(server@, port_key) {
            Ok((host, port)) => res matches Ok((h, p)) && h@ == host && p == port,
            Err(e) => res matches Err(f) && f@ == e,
        },
{
    let chars: Vec<char> = chars_of(server);
    let mut i: usize = chars.len();
    proof {
        lemma_last_colon(chars@);
    }
    while i > 0 && chars[i - 1] != ':'
        invariant
            i <= chars@.len(),
            forall|k: int| i <= k < chars@.len() ==> chars@[k] != ':',
        decreases i,
    {
        i = i - 1;
    }
    if i == 0 {
        return match port_key {
            Some(0) => Err(ConfigError::Invalid("port must be >= 1".to_owned())),
            Some(p) => Ok((server.to_owned(), p)),
            None => Ok((server.to_owned(), DEFAULT_TCP_PORT)),
        };
    }
    let colon: usize = i - 1;
    assert(colon == last_colon(server@));
    if port_key.is_some() {
        return Err(
            ConfigError::Conflict("`server` already carries :port; drop the `port` key".to_owned()),
        );
    }
    let host = server.substring_char(0, colon);
    let port_text = server.substring_char(colon + 1, chars.len());
    proof {
        assert(host@ =~= server@.take(colon as int));
        assert(port_text@ =~= server@.skip(colon + 1));
    }
    if !(colon > 0 && chars[0] == '[') {
        let mut k: usize = 0;
        while k < colon
            invariant
                k <= colon,
                colon < chars@.len(),
                chars@ == server@,
                host@ == server@.take(colon as int),
                forall|j: int| 0 <= j < k ==> host@[j] != ':',
                !(host@.len() > 0 && host@[0] == '['),
                colon == last_colon(server@),
                port_key is None,
            decreases colon - k,
        {
            if chars[k] == ':' {
                assert(host@[k as int] == ':');
                return Err(
                    ConfigError::Invalid("bracket IPv6 literals as [addr]:port".to_owned()),
                );
            }
            k = k + 1;
        }
        assert(!host@.contains(':'));
    }
    let port_chars: Vec<char> = chars_of(port_text);
    match parse_port(&port_chars) {
        None => Err(ConfigError::Invalid(enclosed("bad port `", port_text, "`"))),
        Some(0) => Err(ConfigError::Invalid("port must be >= 1".to_owned())),
        Some(p) => Ok((host.to_owned(), p)),
    }
}

/// The five keys that carry a value differ from one another.
proof fn lemma_keys_differ()
    ensures
        "socket"@ != "server"@,
        "socket"@ != "port"@,
        "socket"@ != "channels"@,
        "socket"@ != "rate"@,
        "server"@ != "port"@,
        "server"@ != "channels"@,
        "server"@ != "rate"@,
        "port"@ != "channels"@,
        "port"@ != "rate"@,
        "channels"@ != "rate"@,
        !is_ignored("socket"@),
        !is_ignored("server"@),
        !is_ignored("port"@),
        !is_ignored("channels"@),
        !is_ignored("rate"@),
{
    reveal_strlit("socket");
    reveal_strlit("server");
    reveal_strlit("port");
    reveal_strlit("channels");
    reveal_strlit("rate");
    reveal_strlit("type");
    reveal_strlit("comment");
    reveal_strlit("hint");
    assert("socket"@.len() == 6);
    assert("server"@.len() == 6);
    assert("channels"@.len() == 8);
    assert("type"@.len() == 4);
    assert("comment"@.len() == 7);
    assert("hint"@.len() == 4);
    assert("socket"@[1] != "server"@[1]);
    assert("port"@[0] != "rate"@[0]);
    assert("port"@[0] != "type"@[0]);
    assert("port"@[0] != "hint"@[0]);
    assert("rate"@[0] != "type"@[0]);
    assert("rate"@[0] != "hint"@[0]);
}

/// Reduces conf pairs to a configuration.
///
/// Accepted keys: `socket` (text), `server` (text, `"host"` or `"host:port"`,
/// IPv6 literals bracketed), `port` (integer, default 9001, only with a
/// bare-host `server`), `channels` (integer, default 2) and `rate` (integer,
/// default 48000). With neither `socket` nor `server` the endpoint is
/// `tcp:127.0.0.1:9001`. `type`, `comment` and `hint` are ignored, any other key
/// is rejected. Of two pairs with the same key the later one counts.
pub fn config_from_pairs(pairs: &[(String, ConfValue)]) -> (res: Result<BridgeConfig, ConfigError>)
    ensures
        match config_of(pairs_view(pairs@)) {
            Ok(config) => res matches Ok(c) && c@ == config,
            Err(e) => res matches Err(f) && f@ == e,
        },
{
    let mut socket: Option<&str> = None;
    let mut server: Option<&str> = None;
    let mut port: Option<u16> = None;
    let mut channels: Option<i64> = None;
    let mut rate: Option<i64> = None;
    let ghost all = pairs_view(pairs@);

    let mut i: usize = 0;
    while i < pairs.len()
        invariant
            i <= pairs@.len(),
            all == pairs_view(pairs@),
            first_fault(all.take(i as int)) is None,
            match socket {
                Some(s) => last_text(all.take(i as int), "socket"@) == Some(s@),
                None => last_text(all.take(i as int), "socket"@) is None,
            },
            match server {
                Some(s) => last_text(all.take(i as int), "server"@) == Some(s@),
                None => last_text(all.take(i as int), "server"@) is None,
            },
            match last_int(all.take(i as int), "port"@) {
                Some(v) => 0 <= v <= 65_535 && port == Some(v as u16),
                None => port is None,
            },
            channels == last_int(all.take(i as int), "channels"@),
            rate == last_int(all.take(i as int), "rate"@),
        decreases pairs@.len() - i,
    {
        let key: &str = pairs[i].0.as_str();
        let value = &pairs[i].1;
        proof {
            lemma_keys_differ();
            let next = all.take(i + 1);
            assert(next.drop_last() =~= all.take(i as int));
            assert(next.last() == (key@, value@));
            lemma_first_fault_stays(all, i + 1);
        }
        if same_text(key, "socket") {
            match value.as_str() {
                Some(s) => {
                    socket = Some(s);
                },
                None => {
                    return Err(ConfigError::TypeMismatch(key.to_owned()));
                },
            }
        } else if same_text(key, "server") {
            match value.as_str() {
                Some(s) => {
                    server = Some(s);
                },
                None => {
                    return Err(ConfigError::TypeMismatch(key.to_owned()));
                },
            }
        } else if same_text(key, "port") {
            match value.as_int() {
                Some(v) => {
                    if v < 0 || v > 65_535 {
                        return Err(ConfigError::Invalid("port out of range".to_owned()));
                    }
                    port = Some(v as u16);
                },
                None => {
                    return Err(ConfigError::TypeMismatch(key.to_owned()));
                },
            }
        } else if same_text(key, "channels") {
            match value.as_int() {
                Some(v) => {
                    channels = Some(v);
                },
                None => {
                    return Err(ConfigError::TypeMismatch(key.to_owned()));
                },
            }
        } else if same_text(key, "rate") {
            match value.as_int() {
                Some(v) => {
                    rate = Some(v);
                },
                None => {
                    return Err(ConfigError::TypeMismatch(key.to_owned()));
                },
            }
        } else if !(same_text(key, "type") || same_text(key, "comment") || same_text(key, "hint")) {
            return Err(ConfigError::UnknownKey(key.to_owned()));
        }
        i = i + 1;
    }
    proof {
        assert(all.take(i as int) =~= all);
    }

    if socket.is_some() && server.is_some() {
        return Err(ConfigError::Conflict("`socket` and `server` are exclusive".to_owned()));
    }
    if port.is_some() && server.is_none() {
        return Err(ConfigError::Conflict("`port` requires `server`".to_owned()));
    }
    let endpoint = match socket {
        Some(path) => Endpoint::Unix(path.to_owned()),
        None => {
            let host: &str = match server {
                Some(s) => s,
                None => DEFAULT_SERVER,
            };
            match parse_server(host, port) {
                Ok((host, port)) => Endpoint::Tcp { host, port },
                Err(e) => {
                    return Err(e);
                },
            }
        },
    };
    let channels: i64 = match channels {
        Some(v) => v,
        None => DEFAULT_CHANNELS as i64,
    };
    let rate: i64 = match rate {
        Some(v) => v,
        None => DEFAULT_RATE as i64,
    };
    if channels < 1 || channels > MAX_CHANNELS as i64 {
        return Err(ConfigError::Invalid("channels must be 1..=1024".to_owned()));
    }
    if rate < 1 || rate > MAX_RATE as i64 {
        return Err(ConfigError::Invalid("rate must be 1..=768000".to_owned()));
    }
    Ok(BridgeConfig { endpoint, channels: channels as u32, rate: rate as u32 })
}

/// What is wrong with a prefix stays wrong.
proof fn lemma_first_fault_stays(pairs: Seq<(Seq<char>, ConfValueView)>, n: int)
    requires
        0 <= n <= pairs.len(),
    ensures
        first_fault(pairs.take(n)) is Some ==> first_fault(pairs) == first_fault(pairs.take(n)),
    decreases pairs.len() - n,
{
    if n < pairs.len() {
        lemma_first_fault_stays(pairs, n + 1);
        assert(pairs.take(n + 1).drop_last() =~= pairs.take(n));
    } else {
        assert(pairs.take(n) =~= pairs);
    }
}

/// Every configuration that is accepted is within the bounds that the bridge
/// protocol accepts, and a TCP port in it is at least 1.
pub proof fn law_config_is_in_range(pairs: Seq<(Seq<char>, ConfValueView)>)
    requires
        config_of(pairs) is Ok,
    ensures
        1 <= config_of(pairs)->Ok_0.channels <= MAX_CHANNELS,
        1 <= config_of(pairs)->Ok_0.rate <= MAX_RATE,
        config_of(pairs)->Ok_0.endpoint matches EndpointView::Tcp { port, .. } ==> port >= 1,
{
}

/// A host that carries a port of its own is never combined with the `port` key,
/// and a bare host takes the key's port, or 9001 without one.
pub proof fn law_server_port(server: Seq<char>, port_key: Option<u16>)
    ensures
        server.contains(':') && port_key is Some ==> server_of(server, port_key) is Err,
        !server.contains(':') && port_key is None ==> server_of(server, port_key) == Ok::<
            (Seq<char>, u16),
            ConfigErrorView,
        >((server, 9001u16)),
        !server.contains(':') && port_key is Some && port_key->0 != 0 ==> server_of(
            server,
            port_key,
        ) == Ok::<(Seq<char>, u16), ConfigErrorView>((server, port_key->0)),
{
    lemma_last_colon(server);
    if server.contains(':') {
        let k = choose|k: int| 0 <= k < server.len() && server[k] == ':';
        assert(last_colon(server) >= k);
    }
}

/// A number that was written in decimal is read back as a port.
pub proof fn law_decimal_port_is_read_back(port: u16)
    ensures
        port_of(decimal(port as nat)) == Some(port),
{
    lemma_decimal_digits(port as nat);
    let s = decimal(port as nat);
    assert(unsigned_part(s) == s) by {
        assert('0' <= s[0] <= '9');
    }
}

proof fn lemma_decimal_digits(n: nat)
    ensures
        decimal(n).len() > 0,
        all_digits(decimal(n)),
        digits_value(decimal(n)) == n,
    decreases n,
{
    if n < 10 {
        let s = decimal(n);
        assert(s.drop_last() =~= Seq::<char>::empty());
        assert(digits_value(s.drop_last()) == 0);
    } else {
        lemma_decimal_digits(n / 10);
        let s = decimal(n);
        assert(s.drop_last() =~= decimal(n / 10));
        assert forall|i: int| 0 <= i < s.len() implies '0' <= #[trigger] s[i] <= '9' by {
            if i < s.len() - 1 {
                assert(s[i] == decimal(n / 10)[i]);
            }
        }
    }
}

/// Whether no pair has the given key.
pub open spec fn lacks(pairs: Seq<(Seq<char>, ConfValueView)>, key: Seq<char>) -> bool {
    forall|i: int| 0 <= i < pairs.len() ==> (#[trigger] pairs[i]).0 != key
}

/// Whether pair `i` is the last one with the given key.
pub open spec fn is_last(
    pairs: Seq<(Seq<char>, ConfValueView)>,
    key: Seq<char>,
    i: int,
) -> bool {
    &&& 0 <= i < pairs.len()
    &&& pairs[i].0 == key
    &&& forall|j: int| i < j < pairs.len() ==> (#[trigger] pairs[j]).0 != key
}

/// Of several pairs with one key the last one counts, and where no pair has the key there
/// is no value.
pub proof fn law_the_last_pair_counts(
    pairs: Seq<(Seq<char>, ConfValueView)>,
    key: Seq<char>,
    i: int,
)
    ensures
        is_last(pairs, key, i) ==> last_value(pairs, key) == Some(pairs[i].1),
        last_value(pairs, key) is None <==> lacks(pairs, key),
    decreases pairs.len(),
{
    if pairs.len() > 0 {
        let rest = pairs.drop_last();
        let end = pairs.len() - 1;
        law_the_last_pair_counts(rest, key, i);
        if is_last(pairs, key, i) && i < end {
            assert(pairs[end].0 != key);
            assert(rest[i] == pairs[i]);
            assert forall|j: int| i < j < rest.len() implies (#[trigger] rest[j]).0 != key by {
                assert(pairs[j].0 != key);
            }
        }
        if lacks(pairs, key) {
            assert(pairs[end].0 != key);
            assert forall|j: int| 0 <= j < rest.len() implies (#[trigger] rest[j]).0 != key by {
                assert(pairs[j].0 != key);
            }
        }
        if last_value(pairs, key) is None {
            assert forall|j: int| 0 <= j < pairs.len() implies (#[trigger] pairs[j]).0 != key by {
                if j < end {
                    assert(rest[j].0 != key);
                }
            }
        }
    }
}

/// Of the accepted pairs, the last `channels` pair gives the channel count and the last
/// `rate` pair the sample rate, whatever other keys stand beside them. Without such a pair
/// there are two channels, and the rate is 48000.
pub proof fn law_channels_and_rate_are_taken_over(
    pairs: Seq<(Seq<char>, ConfValueView)>,
    i: int,
)
    requires
        config_of(pairs) is Ok,
    ensures
        is_last(pairs, "channels"@, i) ==> pairs[i].1 == ConfValueView::Int(
            config_of(pairs)->Ok_0.channels as i64,
        ),
        lacks(pairs, "channels"@) ==> config_of(pairs)->Ok_0.channels == 2,
        is_last(pairs, "rate"@, i) ==> pairs[i].1 == ConfValueView::Int(
            config_of(pairs)->Ok_0.rate as i64,
        ),
        lacks(pairs, "rate"@) ==> config_of(pairs)->Ok_0.rate == 48_000,
{
    lemma_keys_differ();
    law_the_last_pair_counts(pairs, "channels"@, i);
    law_the_last_pair_counts(pairs, "rate"@, i);
    if 0 <= i < pairs.len() {
        lemma_sound_pair(pairs, i);
    }
}

/// Where no pair is wrong by itself, pair `i` is not.
proof fn lemma_sound_pair(pairs: Seq<(Seq<char>, ConfValueView)>, i: int)
    requires
        0 <= i < pairs.len(),
        first_fault(pairs) is None,
    ensures
        pair_fault(pairs[i].0, pairs[i].1) is None,
    decreases pairs.len(),
{
    if i < pairs.len() - 1 {
        lemma_sound_pair(pairs.drop_last(), i);
        assert(pairs.drop_last()[i] == pairs[i]);
    }
}

/// A pair is fine by itself exactly when `socket` or `server` holds a text, `port` a
/// number of 16 bits, `channels` or `rate` a number, or libasound put the key there.
pub proof fn law_which_pairs_are_sound(key: Seq<char>, value: ConfValueView)
    ensures
        pair_fault(key, value) is None <==> {
            ||| (key == "socket"@ || key == "server"@) && value is Str
            ||| key == "port"@ && (value matches ConfValueView::Int(v) && 0 <= v <= 65_535)
            ||| (key == "channels"@ || key == "rate"@) && value is Int
            ||| key == "type"@ || key == "comment"@ || key == "hint"@
        },
        pair_fault(key, value) == Some(ConfigErrorView::UnknownKey(key)) <==> {
            &&& key != "socket"@ && key != "server"@ && key != "port"@
            &&& key != "channels"@ && key != "rate"@
            &&& key != "type"@ && key != "comment"@ && key != "hint"@
        },
        pair_fault(key, value) == Some(ConfigErrorView::TypeMismatch(key)) <==> {
            ||| (key == "socket"@ || key == "server"@) && value is Int
            ||| (key == "port"@ || key == "channels"@ || key == "rate"@) && value is Str
        },
{
    lemma_keys_differ();
}

/// The fault that is reported is that of the first pair that is wrong by itself.
pub proof fn law_the_first_faulty_pair_is_reported(
    pairs: Seq<(Seq<char>, ConfValueView)>,
    i: int,
)
    requires
        0 <= i < pairs.len(),
        pair_fault(pairs[i].0, pairs[i].1) is Some,
        forall|j: int|
            0 <= j < i ==> pair_fault((#[trigger] pairs[j]).0, pairs[j].1) is None,
    ensures
        config_of(pairs) == Err::<BridgeConfigView, ConfigErrorView>(
            pair_fault(pairs[i].0, pairs[i].1)->0,
        ),
{
    lemma_no_fault_before(pairs, i);
    lemma_first_fault_stays(pairs, i + 1);
    assert(pairs.take(i + 1).drop_last() =~= pairs.take(i));
    assert(pairs.take(i + 1).last() == pairs[i]);
}

proof fn lemma_no_fault_before(pairs: Seq<(Seq<char>, ConfValueView)>, n: int)
    requires
        0 <= n <= pairs.len(),
        forall|j: int|
            0 <= j < n ==> pair_fault((#[trigger] pairs[j]).0, pairs[j].1) is None,
    ensures
        first_fault(pairs.take(n)) is None,
    decreases n,
{
    if n > 0 {
        lemma_no_fault_before(pairs, n - 1);
        assert(pairs.take(n).drop_last() =~= pairs.take(n - 1));
        assert(pairs.take(n).last() == pairs[n - 1]);
    }
}

/// Where no pair is wrong by itself, pairs without an endpoint key name 127.0.0.1 and the
/// default port, a `socket` alone names that socket, and a `server` names what it and
/// the `port` beside it come to. A `socket` beside a `server`, and a `port` without one,
/// are refused.
pub proof fn law_what_the_endpoint_is(pairs: Seq<(Seq<char>, ConfValueView)>, i: int, j: int)
    requires
        forall|k: int|
            0 <= k < pairs.len() ==> pair_fault((#[trigger] pairs[k]).0, pairs[k].1) is None,
    ensures
        !lacks(pairs, "socket"@) && !lacks(pairs, "server"@) ==> config_of(pairs) matches Err(
            ConfigErrorView::Conflict(_),
        ),
        !lacks(pairs, "port"@) && lacks(pairs, "server"@) ==> config_of(pairs) matches Err(
            ConfigErrorView::Conflict(_),
        ),
        config_of(pairs) matches Ok(config) ==> {
            &&& lacks(pairs, "socket"@) && lacks(pairs, "server"@) ==> config.endpoint
                == EndpointView::Tcp { host: "127.0.0.1"@, port: 9001 }
            &&& is_last(pairs, "socket"@, i) ==> config.endpoint == EndpointView::Unix(
                pairs[i].1->Str_0,
            )
            &&& is_last(pairs, "server"@, i) && lacks(pairs, "port"@) ==> server_of(
                pairs[i].1->Str_0,
                None,
            ) == Ok::<(Seq<char>, u16), ConfigErrorView>(
                (config.endpoint->host, config.endpoint->port),
            ) && config.endpoint is Tcp
            &&& is_last(pairs, "server"@, i) && is_last(pairs, "port"@, j) ==> server_of(
                pairs[i].1->Str_0,
                Some(pairs[j].1->Int_0 as u16),
            ) == Ok::<(Seq<char>, u16), ConfigErrorView>(
                (config.endpoint->host, config.endpoint->port),
            ) && config.endpoint is Tcp
        },
{
    lemma_keys_differ();
    lemma_no_fault_before(pairs, pairs.len() as int);
    assert(pairs.take(pairs.len() as int) =~= pairs);
    law_the_last_pair_counts(pairs, "socket"@, i);
    law_the_last_pair_counts(pairs, "server"@, i);
    law_the_last_pair_counts(pairs, "port"@, j);
    lemma_kind_of_value(pairs, "socket"@);
    lemma_kind_of_value(pairs, "server"@);
    lemma_kind_of_value(pairs, "port"@);
    if lacks(pairs, "socket"@) && lacks(pairs, "server"@) {
        reveal_strlit("127.0.0.1");
        assert(!"127.0.0.1"@.contains(':'));
        law_server_port("127.0.0.1"@, None);
    }
}

/// What the last pair with a key holds is sound beside that key.
proof fn lemma_kind_of_value(pairs: Seq<(Seq<char>, ConfValueView)>, key: Seq<char>)
    requires
        forall|k: int|
            0 <= k < pairs.len() ==> pair_fault((#[trigger] pairs[k]).0, pairs[k].1) is None,
    ensures
        last_value(pairs, key) matches Some(value) ==> pair_fault(key, value) is None,
    decreases pairs.len(),
{
    if pairs.len() > 0 {
        let rest = pairs.drop_last();
        assert(pair_fault(pairs[pairs.len() - 1].0, pairs[pairs.len() - 1].1) is None);
        assert forall|k: int| 0 <= k < rest.len() implies pair_fault(
            (#[trigger] rest[k]).0,
            rest[k].1,
        ) is None by {
            assert(rest[k] == pairs[k]);
        }
        lemma_kind_of_value(rest, key);
    }
}

/// Pairs that are fine by themselves and name an endpoint are accepted exactly when the
/// channel count is from 1 to 1024 and the rate from 1 to 768000.
pub proof fn law_which_numbers_are_accepted(pairs: Seq<(Seq<char>, ConfValueView)>, i: int, j: int)
    requires
        forall|k: int|
            0 <= k < pairs.len() ==> pair_fault((#[trigger] pairs[k]).0, pairs[k].1) is None,
        lacks(pairs, "server"@),
        lacks(pairs, "port"@),
        lacks(pairs, "channels"@) || is_last(pairs, "channels"@, i),
        lacks(pairs, "rate"@) || is_last(pairs, "rate"@, j),
    ensures
        config_of(pairs) is Ok <==> {
            &&& lacks(pairs, "channels"@) || 1 <= pairs[i].1->Int_0 <= 1024
            &&& lacks(pairs, "rate"@) || 1 <= pairs[j].1->Int_0 <= 768_000
        },
{
    lemma_keys_differ();
    lemma_no_fault_before(pairs, pairs.len() as int);
    assert(pairs.take(pairs.len() as int) =~= pairs);
    law_the_last_pair_counts(pairs, "server"@, 0);
    law_the_last_pair_counts(pairs, "port"@, 0);
    law_the_last_pair_counts(pairs, "channels"@, i);
    law_the_last_pair_counts(pairs, "rate"@, j);
    lemma_kind_of_value(pairs, "channels"@);
    lemma_kind_of_value(pairs, "rate"@);
    reveal_strlit("127.0.0.1");
    assert(!"127.0.0.1"@.contains(':'));
    law_server_port("127.0.0.1"@, None);
}

/// A host and a port that are written with a colon between them come apart again, and
/// nothing else does: a text with a colon that is accepted is a host, the last colon and
/// a port of at least 1.
pub proof fn law_host_and_port_come_apart(host: Seq<char>, port: u16, server: Seq<char>, at: int)
    ensures
        port > 0 && (!host.contains(':') || host[0] == '[') ==> server_of(
            host + seq![':'] + decimal(port as nat),
            None,
        ) == Ok::<(Seq<char>, u16), ConfigErrorView>((host, port)),
        port == 0 ==> server_of(host + seq![':'] + decimal(port as nat), None) is Err,
        0 <= at < server.len() && server[at] == ':' && (forall|k: int|
            at < k < server.len() ==> server[k] != ':') ==> (server_of(
            server,
            None,
        ) matches Ok((h, p)) ==> h == server.take(at) && Some(p) == port_of(server.skip(at + 1))
            && p >= 1),
{
    let digits = decimal(port as nat);
    let whole = host + seq![':'] + digits;
    lemma_decimal_digits(port as nat);
    law_decimal_port_is_read_back(port);
    lemma_last_colon(whole);
    assert forall|k: int| host.len() < k < whole.len() implies whole[k] != ':' by {
        assert('0' <= digits[k - host.len() - 1] <= '9');
    }
    assert(whole[host.len() as int] == ':');
    assert(last_colon(whole) == host.len());
    assert(whole.take(host.len() as int) =~= host);
    assert(whole.skip(host.len() as int + 1) =~= digits);
    if host.contains(':') {
        assert(host.len() > 0);
    }
    lemma_last_colon(server);
    if 0 <= at < server.len() && server[at] == ':' && (forall|k: int|
        at < k < server.len() ==> server[k] != ':') {
        assert(last_colon(server) == at);
    }
}

/// A text is a port exactly when it is one digit or more, with at most a plus sign in
/// front, and the number that the digits denote has 16 bits.
pub proof fn law_which_texts_are_ports(s: Seq<char>, last: char)
    ensures
        port_of(Seq::<char>::empty()) is None,
        port_of(seq!['+']) is None,
        port_of(s) is Some ==> forall|i: int|
            1 <= i < s.len() ==> '0' <= #[trigger] s[i] <= '9',
        port_of(s) is Some ==> s.len() > 0 && (s[0] == '+' || '0' <= s[0] <= '9'),
        s.len() > 0 && '0' <= s[0] <= '9' ==> port_of(seq!['+'] + s) == port_of(s),
        port_of(s) is Some && '0' <= last <= '9' ==> {
            let n = 10 * port_of(s)->0 + (last as int - '0' as int);
            if n <= 65_535 {
                port_of(s.push(last)) == Some(n as u16)
            } else {
                port_of(s.push(last)) is None
            }
        },
        !('0' <= last <= '9') && s.len() > 0 ==> port_of(s.push(last)) is None,
        '0' <= last <= '9' ==> port_of(seq![last]) == Some((last as int - '0' as int) as u16),
{
    let single = seq![last];
    assert(single.drop_last() =~= Seq::<char>::empty());
    assert(digits_value(single.drop_last()) == 0);
    if '0' <= last <= '9' {
        assert(single[0] == last);
        assert(unsigned_part(single) == single);
        assert(all_digits(single));
    }
    let plus = seq!['+'];
    assert(plus.skip(1) =~= Seq::<char>::empty());
    let signed = plus + s;
    assert(signed.skip(1) =~= s);
    if port_of(s) is Some {
        let digits = unsigned_part(s);
        assert forall|i: int| 1 <= i < s.len() implies '0' <= #[trigger] s[i] <= '9' by {
            if s[0] == '+' {
                assert(digits[i - 1] == s[i]);
            }
        }
        if s[0] != '+' {
            assert('0' <= digits[0] <= '9');
        }
    }
    if s.len() > 0 {
        let digits = unsigned_part(s);
        let more = unsigned_part(s.push(last));
        assert(s.push(last)[0] == s[0]);
        assert(more =~= digits.push(last));
        assert(more.drop_last() =~= digits);
        assert(more.last() == last);
        if all_digits(digits) && '0' <= last <= '9' {
            assert forall|i: int| 0 <= i < more.len() implies '0' <= #[trigger] more[i] <= '9' by {
                if i < digits.len() {
                    assert(more[i] == digits[i]);
                }
            }
        }
        if !('0' <= last <= '9') {
            assert(more[digits.len() as int] == last);
        }
    }
}

/// A bare IPv6 address, which has a colon in front of its last one, is refused, and so is
/// a port key of 0.
pub proof fn law_which_servers_are_refused(server: Seq<char>, i: int, j: int, port: Option<u16>)
    ensures
        0 <= i < j < server.len() && server[i] == ':' && server[j] == ':' && server[0] != '['
            ==> server_of(server, port) is Err,
        port == Some(0u16) ==> server_of(server, port) is Err,
{
    lemma_last_colon(server);
    if 0 <= i < j < server.len() && server[i] == ':' && server[j] == ':' && server[0] != '[' {
        let colon = last_colon(server);
        assert(colon >= j);
        let host = server.take(colon);
        assert(host[i] == ':');
        assert(host.contains(':'));
        assert(host[0] == server[0]);
    }
}

/// Without the `tcp:` in front, the form of a TCP endpoint in log lines is a `server` value
/// that names the endpoint.
pub proof fn law_endpoints_are_shown_as_they_are_named(host: Seq<char>, port: u16)
    requires
        port > 0,
        !host.contains(':') || host[0] == '[',
    ensures
        ({
            let shown = EndpointView::Tcp { host, port }.text();
            &&& shown.take(4) == "tcp:"@
            &&& server_of(shown.skip(4), None) == Ok::<(Seq<char>, u16), ConfigErrorView>(
                (host, port),
            )
        }),
        EndpointView::Unix(host).text() == "unix:"@ + host,
{
    reveal_strlit("tcp:");
    reveal_strlit(":");
    let shown = EndpointView::Tcp { host, port }.text();
    law_host_and_port_come_apart(host, port, host, 0);
    assert(":"@ =~= seq![':']);
    assert(shown.take(4) =~= "tcp:"@);
    assert(shown.skip(4) =~= host + seq![':'] + decimal(port as nat));
}

/// The text of an error about a key holds the key, and that of any other error ends in
/// what it carries.
pub proof fn law_errors_tell_what_they_carry(e: ConfigErrorView)
    ensures
        e matches ConfigErrorView::UnknownKey(k) ==> e.text().skip(18).take(k.len() as int) == k,
        e matches ConfigErrorView::TypeMismatch(k) ==> e.text().skip(10).take(k.len() as int) == k,
        e matches ConfigErrorView::Conflict(m) ==> e.text() == "conf conflict: "@ + m,
        e matches ConfigErrorView::Invalid(m) ==> e.text() == "invalid conf value: "@ + m,
{
    reveal_strlit("unknown conf key `");
    reveal_strlit("conf key `");
    reveal_strlit("");
    match e {
        ConfigErrorView::UnknownKey(k) => {
            assert(e.text().skip(18).take(k.len() as int) =~= k);
        },
        ConfigErrorView::TypeMismatch(k) => {
            assert(e.text().skip(10).take(k.len() as int) =~= k);
        },
        ConfigErrorView::Conflict(m) => {
            assert(e.text() =~= "conf conflict: "@ + m);
        },
        ConfigErrorView::Invalid(m) => {
            assert(e.text() =~= "invalid conf value: "@ + m);
        },
    }
}

/// The pairs of a conf are taken over one by one, in their order, each with its key and its
/// value, and a configuration is what its fields hold.
pub proof fn law_pairs_are_taken_over(
    pairs: Seq<(String, ConfValue)>,
    config: BridgeConfig,
    i: int,
)
    ensures
        pairs_view(pairs).len() == pairs.len(),
        0 <= i < pairs.len() ==> {
            &&& pairs_view(pairs)[i].0 == pairs[i].0@
            &&& pairs[i].1 matches ConfValue::Int(v) ==> pairs_view(pairs)[i].1
                == ConfValueView::Int(v)
            &&& pairs[i].1 matches ConfValue::Str(s) ==> pairs_view(pairs)[i].1
                == ConfValueView::Str(s@)
        },
        config@.channels == config.channels,
        config@.rate == config.rate,
{
}

} // verus!
