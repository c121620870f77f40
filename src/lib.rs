//! Connection strings of the form `scheme://host[:port][/path]`, read into
//! typed configuration records, one per protocol family, with narrowing
//! conversions into the datagram record.
//!
//! `tokenizer` splits the text into candidate parts and never fails; the
//! builders here (`from_str` of each record type) apply each family's rules on
//! those parts: which schemes it takes, which parts it requires, and the
//! default port.
use vstd::prelude::*;

pub mod text;
pub mod tokenizer;

use crate::text::{lemma_trim_unchanged, same_text};
use crate::tokenizer::{
    connection_text, lemma_tokenize_reads_back, lemma_unreadable_port_is_absent,
    parse_config_from_str, port_token, readable_address, readable_scheme, tokenize,
};

verus! {

/// The protocol family that a configuration record belongs to.
#[derive(Debug, Clone, Copy, PartialEq, Eq, Structural)]
pub enum ServerProtocolType {
    Http,
    SecureHttp,
    WebSocket,
    SecureWebSocket,
    Tcp,
    Udp,
    MongoDB,
}

/// The error of every builder: a usage message that names the expected shape.
#[derive(Debug, Clone)]
pub struct ServerConfigConversionError {
    error_message: String,
}

impl View for ServerConfigConversionError {
    type V = Seq<char>;

    closed spec fn view(&self) -> Seq<char> {
        self.error_message@
    }
}

impl ServerConfigConversionError {
    /// The human-readable text of the error.
    pub fn message(&self) -> (r: String)
        ensures
            r@ == self@,
    {
        self.error_message.clone()
    }
}

/// The usage message of the request configuration builder.
pub const HTTP_USAGE: &'static str = "Invalid input, valid http config string would look like this: 'http[s]://host_name[:port]'";

/// The usage message of the stream configuration builder.
pub const WEB_SOCKET_USAGE: &'static str = "Invalid input, valid web socket config string would look like this: 'ws[s]://host_name[:port][/path]'";

/// The usage message of the byte-stream configuration builder.
pub const TCP_USAGE: &'static str = "Invalid input, valid tcp config string would look like this: 'tcp://host_name:port'";

/// The usage message of the datagram configuration builder.
pub const UDP_USAGE: &'static str = "Invalid input, valid udp config string would look like this: 'udp://host_name:port'";

/// The port that a request or stream configuration takes when none is given.
pub open spec fn default_port(secure: bool) -> u16 {
    if secure {
        443
    } else {
        80
    }
}

/// What `s` describes as a request configuration: its kind, host and port.
/// The scheme must be `http` or `https` and the host present; the port defaults
/// to 443 for `https` and to 80 for `http`.
pub open spec fn request_config_of(s: Seq<char>) -> Option<(ServerProtocolType, Seq<char>, u16)> {
    let (scheme, host, port, _) = tokenize(s);
    if scheme == Some("http"@) || scheme == Some("https"@) {
        let secure = scheme == Some("https"@);
        match host {
            Some(h) => Some(
                (
                    if secure {
                        ServerProtocolType::SecureHttp
                    } else {
                        ServerProtocolType::Http
                    },
                    h,
                    match port {
                        Some(p) => p,
                        None => default_port(secure),
                    },
                ),
            ),
            None => None,
        }
    } else {
        None
    }
}

/// What `s` describes as a stream configuration: its kind, host, port and path.
/// The scheme must be `ws` or `wss` and the host present; the port defaults to
/// 443 for `wss` and to 80 for `ws`, and the path to the empty text.
pub open spec fn stream_config_of(s: Seq<char>) -> Option<
    (ServerProtocolType, Seq<char>, u16, Seq<char>),
> {
    let (scheme, host, port, path) = tokenize(s);
    if scheme == Some("ws"@) || scheme == Some("wss"@) {
        let secure = scheme == Some("wss"@);
        match host {
            Some(h) => Some(
                (
                    if secure {
                        ServerProtocolType::SecureWebSocket
                    } else {
                        ServerProtocolType::WebSocket
                    },
                    h,
                    match port {
                        Some(p) => p,
                        None => default_port(secure),
                    },
                    match path {
                        Some(p) => p,
                        None => Seq::empty(),
                    },
                ),
            ),
            None => None,
        }
    } else {
        None
    }
}

/// What `s` describes as a connection of the given scheme: its host and port.
/// The scheme must be exactly `scheme`, and host and port must both be present.
pub open spec fn connection_config_of(s: Seq<char>, scheme: Seq<char>) -> Option<(Seq<char>, u16)> {
    let (sc, host, port, _) = tokenize(s);
    match (host, port) {
        (Some(h), Some(p)) => if sc == Some(scheme) {
            Some((h, p))
        } else {
            None
        },
        _ => None,
    }
}

proof fn lemma_literal_schemes()
    ensures
        readable_scheme("http"@),
        readable_scheme("https"@),
        readable_scheme("ws"@),
        readable_scheme("wss"@),
        "http"@ != "https"@,
        "ws"@ != "wss"@,
{
    reveal_strlit("http");
    reveal_strlit("https");
    reveal_strlit("ws");
    reveal_strlit("wss");
    lemma_trim_unchanged("http"@);
    lemma_trim_unchanged("https"@);
    lemma_trim_unchanged("ws"@);
    lemma_trim_unchanged("wss"@);
}

/// A request connection string `http[s]://host[:port][/path]` builds the
/// configuration with the scheme's kind, that host, and that port or else the
/// scheme's default port.
pub proof fn lemma_request_reads_back(
    secure: bool,
    host: Seq<char>,
    port: Option<u16>,
    path: Option<Seq<char>>,
)
    requires
        readable_address(host, port, path),
    ensures
        request_config_of(
            connection_text(
                if secure {
                    "https"@
                } else {
                    "http"@
                },
                host,
                port,
                path,
            ),
        ) == Some(
            (
                if secure {
                    ServerProtocolType::SecureHttp
                } else {
                    ServerProtocolType::Http
                },
                host,
                match port {
                    Some(p) => p,
                    None => default_port(secure),
                },
            ),
        ),
{
    lemma_literal_schemes();
    let scheme = if secure {
        "https"@
    } else {
        "http"@
    };
    lemma_tokenize_reads_back(scheme, host, port, path);
}

/// A stream connection string `ws[s]://host[:port][/path]` builds the
/// configuration with the scheme's kind, that host, that port or else the
/// scheme's default port, and that path or else the empty path.
pub proof fn lemma_stream_reads_back(
    secure: bool,
    host: Seq<char>,
    port: Option<u16>,
    path: Option<Seq<char>>,
)
    requires
        readable_address(host, port, path),
    ensures
        stream_config_of(
            connection_text(
                if secure {
                    "wss"@
                } else {
                    "ws"@
                },
                host,
                port,
                path,
            ),
        ) == Some(
            (
                if secure {
                    ServerProtocolType::SecureWebSocket
                } else {
                    ServerProtocolType::WebSocket
                },
                host,
                match port {
                    Some(p) => p,
                    None => default_port(secure),
                },
                match path {
                    Some(p) => p,
                    None => Seq::empty(),
                },
            ),
        ),
{
    lemma_literal_schemes();
    let scheme = if secure {
        "wss"@
    } else {
        "ws"@
    };
    lemma_tokenize_reads_back(scheme, host, port, path);
}

/// A connection string `scheme://host:port[/path]` builds, for its own scheme,
/// the connection configuration with that host and port.
pub proof fn lemma_connection_reads_back(
    scheme: Seq<char>,
    host: Seq<char>,
    port: u16,
    path: Option<Seq<char>>,
)
    requires
        readable_scheme(scheme),
        readable_address(host, Some(port), path),
    ensures
        connection_config_of(connection_text(scheme, host, Some(port), path), scheme) == Some(
            (host, port),
        ),
{
    lemma_tokenize_reads_back(scheme, host, Some(port), path);
}

/// A port that is written but does not read as a number counts as no port: a
/// request or stream configuration then takes its scheme's default port, and no
/// connection configuration is built.
pub proof fn lemma_unreadable_port_rules(s: Seq<char>)
    requires
        crate::text::split_on(s, ':').len() >= 3,
        crate::text::parse_u16(port_token(s)) is None,
    ensures
        tokenize(s).2 is None,
        request_config_of(s) matches Some(c) ==> c.2 == default_port(
            c.0 == ServerProtocolType::SecureHttp,
        ),
        stream_config_of(s) matches Some(c) ==> c.2 == default_port(
            c.0 == ServerProtocolType::SecureWebSocket,
        ),
        forall|scheme: Seq<char>| connection_config_of(s, scheme) is None,
{
    lemma_unreadable_port_is_absent(s);
}

fn usage_error(message: &str) -> (e: ServerConfigConversionError)
    ensures
        e@ == message@,
{
    ServerConfigConversionError { error_message: message.to_owned() }
}

/// A request configuration: plain-text or secure HTTP.
#[derive(Debug, Clone)]
pub struct HttpServerConfig {
    pub protocol_type: ServerProtocolType,
    pub host: String,
    pub port: u16,
}

impl HttpServerConfig {
    /// Builds the configuration that `value` describes, `http[s]://host[:port]`.
    pub fn from_str(value: &str) -> (r: Result<HttpServerConfig, ServerConfigConversionError>)
        ensures
            match r {
                Ok(c) => request_config_of(value@) == Some((c.protocol_type, c.host@, c.port)),
                Err(e) => request_config_of(value@) is None && e@ == HTTP_USAGE@,
            },
    {
        let (scheme, host, port, _) = parse_config_from_str(value);
        match (scheme, host) {
            (Some(scheme), Some(host)) => {
                let secure = same_text(scheme.as_str(), "https");
                if !secure && !same_text(scheme.as_str(), "http") {
                    return Err(usage_error(HTTP_USAGE));
                }
                Ok(HttpServerConfig {
                    protocol_type: if secure {
                        ServerProtocolType::SecureHttp
                    } else {
                        ServerProtocolType::Http
                    },
                    host,
                    port: match port {
                        Some(p) => p,
                        None => if secure {
                            443
                        } else {
                            80
                        },
                    },
                })
            },
            _ => Err(usage_error(HTTP_USAGE)),
        }
    }
}

impl std::str::FromStr for HttpServerConfig {
    type Err = ServerConfigConversionError;

    fn from_str(value: &str) -> Result<HttpServerConfig, ServerConfigConversionError> {
        HttpServerConfig::from_str(value)
    }
}

/// A stream configuration: plain-text or secure WebSocket, with a path.
#[derive(Debug, Clone)]
pub struct WebSocketServerConfig {
    pub protocol_type: ServerProtocolType,
    pub host: String,
    pub port: u16,
    pub path: String,
}

impl WebSocketServerConfig {
    /// Builds the configuration that `value` describes, `ws[s]://host[:port][/path]`.
    pub fn from_str(value: &str) -> (r: Result<WebSocketServerConfig, ServerConfigConversionError>)
        ensures
            match r {
                Ok(c) => stream_config_of(value@) == Some(
                    (c.protocol_type, c.host@, c.port, c.path@),
                ),
                Err(e) => stream_config_of(value@) is None && e@ == WEB_SOCKET_USAGE@,
            },
    {
        let (scheme, host, port, path) = parse_config_from_str(value);
        match (scheme, host) {
            (Some(scheme), Some(host)) => {
                let secure = same_text(scheme.as_str(), "wss");
                if !secure && !same_text(scheme.as_str(), "ws") {
                    return Err(usage_error(WEB_SOCKET_USAGE));
                }
                Ok(WebSocketServerConfig {
                    protocol_type: if secure {
                        ServerProtocolType::SecureWebSocket
                    } else {
                        ServerProtocolType::WebSocket
                    },
                    host,
                    port: match port {
                        Some(p) => p,
                        None => if secure {
                            443
                        } else {
                            80
                        },
                    },
                    path: match path {
                        Some(p) => p,
                        None => String::new(),
                    },
                })
            },
            _ => Err(usage_error(WEB_SOCKET_USAGE)),
        }
    }
}

impl std::str::FromStr for WebSocketServerConfig {
    type Err = ServerConfigConversionError;

    fn from_str(value: &str) -> Result<WebSocketServerConfig, ServerConfigConversionError> {
        WebSocketServerConfig::from_str(value)
    }
}

/// A byte-stream connection configuration.
#[derive(Debug, Clone)]
pub struct TcpServerConfig {
    pub protocol_type: ServerProtocolType,
    pub host: String,
    pub port: u16,
}

impl TcpServerConfig {
    /// Builds the configuration that `value` describes, `tcp://host:port`; the
    /// port is required.
    pub fn from_str(value: &str) -> (r: Result<TcpServerConfig, ServerConfigConversionError>)
        ensures
            match r {
                Ok(c) => connection_config_of(value@, "tcp"@) == Some((c.host@, c.port))
                    && c.protocol_type == ServerProtocolType::Tcp,
                Err(e) => connection_config_of(value@, "tcp"@) is None && e@ == TCP_USAGE@,
            },
    {
        let (scheme, host, port, _) = parse_config_from_str(value);
        match (scheme, host, port) {
            (Some(scheme), Some(host), Some(port)) => {
                if !same_text(scheme.as_str(), "tcp") {
                    return Err(usage_error(TCP_USAGE));
                }
                Ok(TcpServerConfig { protocol_type: ServerProtocolType::Tcp, host, port })
            },
            _ => Err(usage_error(TCP_USAGE)),
        }
    }
}

impl std::str::FromStr for TcpServerConfig {
    type Err = ServerConfigConversionError;

    fn from_str(value: &str) -> Result<TcpServerConfig, ServerConfigConversionError> {
        TcpServerConfig::from_str(value)
    }
}

/// A datagram connection configuration.
#[derive(Debug, Clone)]
pub struct UdpServerConfig {
    pub protocol_type: ServerProtocolType,
    pub host: String,
    pub port: u16,
}

impl UdpServerConfig {
    /// Builds the configuration that `value` describes, `udp://host:port`; the
    /// port is required.
    pub fn from_str(value: &str) -> (r: Result<UdpServerConfig, ServerConfigConversionError>)
        ensures
            match r {
                Ok(c) => connection_config_of(value@, "udp"@) == Some((c.host@, c.port))
                    && c.protocol_type == ServerProtocolType::Udp,
                Err(e) => connection_config_of(value@, "udp"@) is None && e@ == UDP_USAGE@,
            },
    {
        let (scheme, host, port, _) = parse_config_from_str(value);
        match (scheme, host, port) {
            (Some(scheme), Some(host), Some(port)) => {
                if !same_text(scheme.as_str(), "udp") {
                    return Err(usage_error(UDP_USAGE));
                }
                Ok(UdpServerConfig { protocol_type: ServerProtocolType::Udp, host, port })
            },
            _ => Err(usage_error(UDP_USAGE)),
        }
    }
}

impl std::str::FromStr for UdpServerConfig {
    type Err = ServerConfigConversionError;

    fn from_str(value: &str) -> Result<UdpServerConfig, ServerConfigConversionError> {
        UdpServerConfig::from_str(value)
    }
}

/// Narrows a request configuration to a datagram one: host and port are kept.
impl From<HttpServerConfig> for UdpServerConfig {
    fn from(config: HttpServerConfig) -> (r: UdpServerConfig)
        ensures
            r.protocol_type == ServerProtocolType::Udp,
            r.host == config.host,
            r.port == config.port,
    {
        UdpServerConfig { protocol_type: ServerProtocolType::Udp, host: config.host, port: config.port }
    }
}

impl vstd::std_specs::convert::FromSpecImpl<HttpServerConfig> for UdpServerConfig {
    open spec fn obeys_from_spec() -> bool {
        true
    }

    open spec fn from_spec(config: HttpServerConfig) -> UdpServerConfig {
        UdpServerConfig { protocol_type: ServerProtocolType::Udp, host: config.host, port: config.port }
    }
}

/// Narrows a byte-stream configuration to a datagram one: host and port are kept.
impl From<TcpServerConfig> for UdpServerConfig {
    fn from(config: TcpServerConfig) -> (r: UdpServerConfig)
        ensures
            r.protocol_type == ServerProtocolType::Udp,
            r.host == config.host,
            r.port == config.port,
    {
        UdpServerConfig { protocol_type: ServerProtocolType::Udp, host: config.host, port: config.port }
    }
}

impl vstd::std_specs::convert::FromSpecImpl<TcpServerConfig> for UdpServerConfig {
    open spec fn obeys_from_spec() -> bool {
        true
    }

    open spec fn from_spec(config: TcpServerConfig) -> UdpServerConfig {
        UdpServerConfig { protocol_type: ServerProtocolType::Udp, host: config.host, port: config.port }
    }
}

/// A database connection configuration with credentials.
#[derive(Debug, Clone)]
pub struct MongoDbServerConfig {
    pub protocol_type: ServerProtocolType,
    pub host: String,
    pub port: u16,
    pub user_name: String,
    pub password: String,
}

} // verus!
