use from_into_train_demo::tokenizer::parse_config_from_str;
use from_into_train_demo::{
    HttpServerConfig, ServerProtocolType, TcpServerConfig, UdpServerConfig, WebSocketServerConfig,
    HTTP_USAGE, TCP_USAGE, UDP_USAGE, WEB_SOCKET_USAGE,
};

fn owned(s: &str) -> Option<String> {
    Some(s.to_string())
}

#[test]
fn parse_http_from_string() {
    let test_connection_str = "http://  www.google.com : 8080";
    let temp_result = HttpServerConfig::from_str(test_connection_str);
    println!("test_connection_str: {:?}", test_connection_str);
    println!("temp_result: {:?}\n", temp_result);
    assert_eq!(temp_result.is_ok(), true);

    let config = temp_result.as_ref().unwrap();
    let _: &HttpServerConfig = config;
    assert_eq!(config.host, "www.google.com");
    assert_eq!(config.port, 8080);
}

#[test]
fn parse_secure_http_from_string() {
    let test_connection_str = "https://www.google.com";
    let temp_result = HttpServerConfig::from_str(test_connection_str);
    println!("test_connection_str: {:?}", test_connection_str);
    println!("temp_result: {:?}\n", temp_result);

    let config = temp_result.as_ref().unwrap();
    let _: &HttpServerConfig = config;
    assert_eq!(config.host, "www.google.com");
    assert_eq!(config.port, 443);
}

#[test]
fn parse_web_socket_from_string() {
    let test_connection_str = "ws://www.google.com/path-to-connect";
    let temp_result = WebSocketServerConfig::from_str(test_connection_str);
    println!("test_connection_str: {:?}", test_connection_str);
    println!("temp_result: {:?}\n", temp_result);

    let config = temp_result.as_ref().unwrap();
    let _: &WebSocketServerConfig = config;
    assert_eq!(config.host, "www.google.com");
    assert_eq!(config.port, 80);
    assert_eq!(config.path, "path-to-connect");
}

#[test]
fn parse_secure_web_socket_from_string() {
    let test_connection_str = "wss://www.google.com/path-to-connect";
    let temp_result = WebSocketServerConfig::from_str(test_connection_str);
    println!("test_connection_str: {:?}", test_connection_str);
    println!("temp_result: {:?}\n", temp_result);

    let config = temp_result.as_ref().unwrap();
    let _: &WebSocketServerConfig = config;
    assert_eq!(config.host, "www.google.com");
    assert_eq!(config.port, 443);
    assert_eq!(config.path, "path-to-connect");
}

#[test]
fn parse_secure_web_socket_with_port_and_path_from_string() {
    let test_connection_str = "wss://www.google.com:8888/path-to-connect";
    let temp_result = WebSocketServerConfig::from_str(test_connection_str);
    println!("test_connection_str: {:?}", test_connection_str);
    println!("temp_result: {:?}\n", temp_result);

    let config = temp_result.as_ref().unwrap();
    let _: &WebSocketServerConfig = config;
    assert_eq!(config.host, "www.google.com");
    assert_eq!(config.port, 8888);
    assert_eq!(config.path, "path-to-connect");
}

#[test]
fn parse_tcp_from_string() {
    let test_connection_str = "tcp://www.google.com:9999";
    let temp_result = TcpServerConfig::from_str(test_connection_str);
    println!("test_connection_str: {:?}", test_connection_str);
    println!("temp_result: {:?}\n", temp_result);

    let config = temp_result.as_ref().unwrap();
    let _: &TcpServerConfig = config;
    assert_eq!(config.host, "www.google.com");
    assert_eq!(config.port, 9999);
}

#[test]
fn parse_udp_from_string() {
    let test_connection_str = "udp://www.google.com:7777";
    let temp_result = UdpServerConfig::from_str(test_connection_str);
    println!("test_connection_str: {:?}", test_connection_str);
    println!("temp_result: {:?}\n", temp_result);

    let config = temp_result.as_ref().unwrap();
    let _: &UdpServerConfig = config;
    assert_eq!(config.host, "www.google.com");
    assert_eq!(config.port, 7777);
}

#[test]
fn parse_udp_from_tcp_config() {
    let test_connection_str = "tcp://test.com:7890";
    let temp_result = TcpServerConfig::from_str(test_connection_str);
    let config: UdpServerConfig = temp_result.unwrap().into();
    println!(
        "test_connection_str (into UdpServerConfig): {:?}",
        test_connection_str
    );
    println!("config: {:?}", &config);

    let _: &UdpServerConfig = &config;
    assert_eq!(config.host, "test.com");
    assert_eq!(config.port, 7890);
}

#[test]
fn parse_udp_from_http_config() {
    let test_connection_str = "https://www.rust-lang.org";
    let temp_result = HttpServerConfig::from_str(test_connection_str);
    let config: UdpServerConfig = temp_result.unwrap().into();
    println!(
        "test_connection_str (into UdpServerConfig): {:?}",
        test_connection_str
    );
    println!("config: {:?}", &config);

    let _: &UdpServerConfig = &config;
    assert_eq!(config.host, "www.rust-lang.org");
    assert_eq!(config.port, 443);
}

#[test]
fn tokenizer_trims_scheme_host_and_port() {
    let tokens = parse_config_from_str("http://  www.google.com : 8080");
    assert_eq!(tokens, (owned("http"), owned("www.google.com"), Some(8080), None));
}

#[test]
fn tokenizer_without_colon_finds_nothing() {
    assert_eq!(parse_config_from_str("www.google.com"), (None, None, None, None));
    assert_eq!(parse_config_from_str(""), (None, None, None, None));
}

#[test]
fn tokenizer_with_blank_scheme_finds_nothing() {
    assert_eq!(parse_config_from_str("  ://www.google.com:80"), (None, None, None, None));
}

#[test]
fn tokenizer_rejects_host_without_dot() {
    assert_eq!(parse_config_from_str("http://localhost:8080/x"), (owned("http"), None, None, None));
    assert_eq!(parse_config_from_str("http://   /x"), (owned("http"), None, None, None));
}

#[test]
fn tokenizer_path_after_port_takes_precedence() {
    let tokens = parse_config_from_str("ws://a.b/first:81/second");
    assert_eq!(tokens, (owned("ws"), owned("a.b"), Some(81), owned("second")));
    let tokens = parse_config_from_str("ws://a.b/first:81");
    assert_eq!(tokens, (owned("ws"), owned("a.b"), Some(81), owned("first")));
}

#[test]
fn tokenizer_keeps_path_verbatim() {
    let tokens = parse_config_from_str("ws://a.b/ some path ");
    assert_eq!(tokens, (owned("ws"), owned("a.b"), None, owned(" some path ")));
}

#[test]
fn tokenizer_trims_unicode_white_space() {
    let tokens = parse_config_from_str("\u{3000}http\t://\u{a0}www.a.com\u{2003}:\n42");
    assert_eq!(tokens, (owned("http"), owned("www.a.com"), Some(42), None));
}

#[test]
fn tokenizer_reads_signed_and_padded_ports() {
    assert_eq!(parse_config_from_str("tcp://a.b:+0065535").2, Some(65535));
    assert_eq!(parse_config_from_str("tcp://a.b:0").2, Some(0));
}

#[test]
fn tokenizer_leaves_bad_port_absent() {
    assert_eq!(parse_config_from_str("tcp://a.b:65536").2, None);
    assert_eq!(parse_config_from_str("tcp://a.b:99999999999").2, None);
    assert_eq!(parse_config_from_str("tcp://a.b:-1").2, None);
    assert_eq!(parse_config_from_str("tcp://a.b:+").2, None);
    assert_eq!(parse_config_from_str("tcp://a.b:8o").2, None);
    assert_eq!(parse_config_from_str("tcp://a.b:").2, None);
}

#[test]
fn http_with_bad_port_takes_default() {
    let config = HttpServerConfig::from_str("http://www.google.com:http").unwrap();
    assert_eq!(config.port, 80);
    assert!(matches!(config.protocol_type, ServerProtocolType::Http));
    let config = HttpServerConfig::from_str("https://www.google.com:70000").unwrap();
    assert_eq!(config.port, 443);
    assert!(matches!(config.protocol_type, ServerProtocolType::SecureHttp));
}

#[test]
fn tcp_and_udp_with_bad_port_fail() {
    let err = TcpServerConfig::from_str("tcp://www.google.com:port").unwrap_err();
    assert_eq!(err.message(), TCP_USAGE);
    let err = UdpServerConfig::from_str("udp://www.google.com:65536").unwrap_err();
    assert_eq!(err.message(), UDP_USAGE);
}

#[test]
fn tcp_without_port_fails() {
    let err = TcpServerConfig::from_str("tcp://www.google.com").unwrap_err();
    assert_eq!(
        err.message(),
        "Invalid input, valid tcp config string would look like this: 'tcp://host_name:port'"
    );
}

#[test]
fn builders_reject_other_schemes() {
    let err = HttpServerConfig::from_str("ws://www.google.com").unwrap_err();
    assert_eq!(err.message(), HTTP_USAGE);
    let err = HttpServerConfig::from_str("HTTP://www.google.com").unwrap_err();
    assert_eq!(err.message(), HTTP_USAGE);
    let err = WebSocketServerConfig::from_str("http://www.google.com").unwrap_err();
    assert_eq!(err.message(), WEB_SOCKET_USAGE);
    let err = TcpServerConfig::from_str("udp://www.google.com:1").unwrap_err();
    assert_eq!(err.message(), TCP_USAGE);
    let err = UdpServerConfig::from_str("tcp://www.google.com:1").unwrap_err();
    assert_eq!(err.message(), UDP_USAGE);
}

#[test]
fn builders_reject_missing_host() {
    assert!(HttpServerConfig::from_str("http://localhost").is_err());
    assert!(WebSocketServerConfig::from_str("ws://").is_err());
    assert!(TcpServerConfig::from_str("tcp://:80").is_err());
    assert!(UdpServerConfig::from_str("no scheme here").is_err());
}

#[test]
fn web_socket_path_defaults_to_empty() {
    let config = WebSocketServerConfig::from_str("wss://chat.example.org:9000").unwrap();
    assert!(matches!(config.protocol_type, ServerProtocolType::SecureWebSocket));
    assert_eq!(config.host, "chat.example.org");
    assert_eq!(config.port, 9000);
    assert_eq!(config.path, "");
}

#[test]
fn web_socket_kind_follows_scheme() {
    let config = WebSocketServerConfig::from_str("ws://chat.example.org/room").unwrap();
    assert!(matches!(config.protocol_type, ServerProtocolType::WebSocket));
    assert_eq!(config.path, "room");
}

#[test]
fn conversions_keep_host_and_port() {
    let http = HttpServerConfig::from_str("http://api.example.com:8081").unwrap();
    let udp = UdpServerConfig::from(http.clone());
    assert!(matches!(udp.protocol_type, ServerProtocolType::Udp));
    assert_eq!(udp.host, http.host);
    assert_eq!(udp.port, http.port);

    let tcp = TcpServerConfig::from_str("tcp://db.example.com:5432").unwrap();
    let udp = UdpServerConfig::from(tcp.clone());
    assert!(matches!(udp.protocol_type, ServerProtocolType::Udp));
    assert_eq!(udp.host, "db.example.com");
    assert_eq!(udp.port, 5432);
}

#[test]
fn tcp_config_converts_to_datagram() {
    let tcp = TcpServerConfig {
        protocol_type: ServerProtocolType::Tcp,
        host: "test.com".to_string(),
        port: 7890,
    };
    let udp: UdpServerConfig = tcp.into();
    assert!(matches!(udp.protocol_type, ServerProtocolType::Udp));
    assert_eq!(udp.host, "test.com");
    assert_eq!(udp.port, 7890);
}

#[test]
fn str_parse_uses_the_builders() {
    let config: HttpServerConfig = "https://www.google.com:8443".parse().unwrap();
    assert_eq!(config.host, "www.google.com");
    assert_eq!(config.port, 8443);
    let config: WebSocketServerConfig = "ws://a.example.com/live".parse().unwrap();
    assert_eq!(config.path, "live");
    let config: UdpServerConfig = "udp://a.example.com:53".parse().unwrap();
    assert_eq!(config.port, 53);
    let err = "tcp://a.example.com".parse::<TcpServerConfig>().unwrap_err();
    assert_eq!(err.message(), TCP_USAGE);
}

#[test]
fn written_parts_read_back() {
    let config = HttpServerConfig::from_str("http://api.example.com:8080/status").unwrap();
    assert!(matches!(config.protocol_type, ServerProtocolType::Http));
    assert_eq!(config.host, "api.example.com");
    assert_eq!(config.port, 8080);
    let config = WebSocketServerConfig::from_str("wss://api.example.com:65535/feed").unwrap();
    assert_eq!(config.host, "api.example.com");
    assert_eq!(config.port, 65535);
    assert_eq!(config.path, "feed");
    let config = TcpServerConfig::from_str("tcp://db.example.com:0/ignored").unwrap();
    assert!(matches!(config.protocol_type, ServerProtocolType::Tcp));
    assert_eq!(config.host, "db.example.com");
    assert_eq!(config.port, 0);
    let tokens = parse_config_from_str("udp://x.y:1234/p");
    assert_eq!(tokens, (owned("udp"), owned("x.y"), Some(1234), owned("p")));
}
