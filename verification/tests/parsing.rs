use open_proxies::model::{is_valid_host, Proto, Proxy};
use open_proxies::parse::{parse_candidate, parse_lines, parse_u16, proto_of};

#[test]
fn test_recognized_protocol_kept() {
    let p = parse_candidate("http:100.100.100.100:8080").unwrap();
    assert_eq!(p.proto, Proto::HTTP);
    assert_eq!(p.host, "100.100.100.100");
    assert_eq!(p.port, 8080);

    let p = parse_candidate("HTTPS:100.100.100.100:8080").unwrap();
    assert_eq!(p.proto, Proto::HTTP);

    let p = parse_candidate("socks4:100.100.100.100:1080").unwrap();
    assert_eq!(p.proto, Proto::SOCKS4);

    let p = parse_candidate("SoCkS5:100.100.100.100:1080").unwrap();
    assert_eq!(p.proto, Proto::SOCKS5);

    let p = parse_candidate("gopher:100.100.100.100:1080").unwrap();
    assert_eq!(p.proto, Proto::UNKNOWN);

    let p = parse_candidate("UNKNOWN:100.100.100.100:1080").unwrap();
    assert_eq!(p.proto, Proto::UNKNOWN);
}

#[test]
fn test_two_field_form_defaults_unknown() {
    let p = parse_candidate("100.100.100.100:1080").unwrap();
    assert_eq!(p.proto, Proto::UNKNOWN);
    assert_eq!(p.host, "100.100.100.100");
    assert_eq!(p.port, 1080);
}

#[test]
fn test_invalid_candidates_dropped() {
    // zero port
    assert!(parse_candidate("http:100.100.100.100:0").is_none());
    // non-numeric port
    assert!(parse_candidate("http:100.100.100.100:eighty").is_none());
    // port too large
    assert!(parse_candidate("http:100.100.100.100:70000").is_none());
    // host not a fixed-width dotted quad
    assert!(parse_candidate("http:1.2.3.4:8080").is_none());
    assert!(parse_candidate("http:badhost:8080").is_none());
    // wrong field count
    assert!(parse_candidate("nocolonatall").is_none());
    assert!(parse_candidate("a:b:c:d").is_none());
    assert!(parse_candidate("").is_none());
}

#[test]
fn test_parse_lines_drops_exactly_the_bad_ones() {
    let lines: Vec<String> = vec![
        "http:100.100.100.100:8080".to_string(),
        "100.100.100.101:1080".to_string(),
        "badhost:0".to_string(),
        "socks5:100.100.100.102:0".to_string(),
        "socks5:100.100.100.103:1080".to_string(),
    ];
    let parsed: Vec<Proxy> = parse_lines(&lines);
    // the bad-host line and the zero-port line are dropped: the list shrinks
    // by exactly two
    assert_eq!(parsed.len(), 3);
    assert_eq!(parsed[0].proto, Proto::HTTP);
    assert_eq!(parsed[1].proto, Proto::UNKNOWN);
    assert_eq!(parsed[2].proto, Proto::SOCKS5);
}

#[test]
fn test_host_check() {
    assert!(is_valid_host("100.100.100.100"));
    assert!(is_valid_host("123.456.789.012"));
    assert!(!is_valid_host("1.2.3.4"));
    assert!(!is_valid_host("100.100.100.10"));
    assert!(!is_valid_host("100.100.100.1000"));
    assert!(!is_valid_host(""));
    let p = Proxy { proto: Proto::HTTP, host: "100.100.100.100".to_string(), port: 80 };
    assert!(p.check_host());
    let q = Proxy { proto: Proto::HTTP, host: "localhost".to_string(), port: 80 };
    assert!(!q.check_host());
}

#[test]
fn test_parse_u16_values() {
    assert_eq!(parse_u16("8080"), Some(8080));
    assert_eq!(parse_u16("+80"), Some(80));
    assert_eq!(parse_u16("0"), Some(0));
    assert_eq!(parse_u16("65535"), Some(65535));
    assert_eq!(parse_u16("65536"), None);
    assert_eq!(parse_u16(""), None);
    assert_eq!(parse_u16("+"), None);
    assert_eq!(parse_u16("80x"), None);
    assert_eq!(parse_u16("-80"), None);
}

#[test]
fn test_proto_of_names() {
    assert_eq!(proto_of("http"), Proto::HTTP);
    assert_eq!(proto_of("Https"), Proto::HTTP);
    assert_eq!(proto_of("SOCKS4"), Proto::SOCKS4);
    assert_eq!(proto_of("socks5"), Proto::SOCKS5);
    assert_eq!(proto_of("unknown"), Proto::UNKNOWN);
    assert_eq!(proto_of("ftp"), Proto::UNKNOWN);
    assert_eq!(proto_of(""), Proto::UNKNOWN);
}
