use ormos::config::Kind;
use ormos::forward::{Forwarder, ReadStep};
use ormos::parser::http::{is_http, try_read_hostname, Error as HttpError, Hostname};
use ormos::parser::tls::{Error as TlsError, ServiceName, MAX_TLS_WIRE_SIZE};

// A real ClientHello, produced by rustls's client side, carrying the given
// server name.
fn client_hello_bytes(server: &str) -> Vec<u8> {
    let roots = rustls::RootCertStore::empty();
    let config = rustls::ClientConfig::builder()
        .with_safe_defaults()
        .with_root_certificates(roots)
        .with_no_client_auth();
    let name = rustls::ServerName::try_from(server).expect("a valid dns name");
    let mut conn = rustls::ClientConnection::new(std::sync::Arc::new(config), name)
        .expect("a client connection");
    let mut out = Vec::new();
    while conn.wants_write() {
        conn.write_tls(&mut out).expect("writing to a Vec");
    }
    out
}

#[test]
fn http_methods_are_recognized() {
    assert!(is_http(b"GET / HTTP/1.1"));
    assert!(is_http(b"DELETE /x HTTP/1.1"));
    assert!(is_http(b"CONNECT example.com:443 HTTP/1.1"));
    assert!(is_http(b"GET"));
    assert!(!is_http(b"GETX / HTTP/1.1"));
    assert!(!is_http(b""));
    assert!(!is_http(b"\x16\x03\x01\x02\x00"));
}

#[test]
fn hostname_is_read_from_the_first_host_header() {
    let req = b"GET / HTTP/1.1\r\nHost: example.com\r\nAccept: */*\r\n\r\n";
    assert_eq!(try_read_hostname(req), Some(b"example.com".to_vec()));
}

#[test]
fn hostname_header_name_is_case_insensitive() {
    let req = b"GET / HTTP/1.1\r\nhOsT: example.com\r\n\r\n";
    assert_eq!(try_read_hostname(req), Some(b"example.com".to_vec()));
}

#[test]
fn hostname_value_keeps_everything_after_the_first_colon() {
    let req = b"GET / HTTP/1.1\r\nHost: example.com:443\r\n\r\n";
    assert_eq!(try_read_hostname(req), Some(b"example.com:443".to_vec()));
}

#[test]
fn hostname_is_absent_until_the_header_arrives() {
    assert_eq!(try_read_hostname(b"GET / HTTP/1.1\r\nAccept"), None);
}

#[test]
fn h1_parser_fails_on_other_protocols() {
    let parser = Hostname;
    assert_eq!(
        parser.parse_step(b"\x16\x03\x01\x02\x00"),
        Err(HttpError::NotHttp1)
    );
}

#[test]
fn h1_parser_asks_for_more_until_the_host_arrives() {
    let parser = Hostname;
    assert_eq!(parser.parse_step(b"GET / HTTP/1.1\r\nAcc"), Ok(None));
    assert_eq!(
        parser.parse_step(b"GET / HTTP/1.1\r\nHost: a.net\r\n"),
        Ok(Some(b"a.net".to_vec()))
    );
}

#[test]
fn tls_parser_reads_the_sni() {
    let hello = client_hello_bytes("example.com");
    let parser = ServiceName;
    assert_eq!(parser.parse_step(&hello), Ok(Some(b"example.com".to_vec())));
}

#[test]
fn tls_parser_asks_for_more_on_a_partial_record() {
    let hello = client_hello_bytes("example.com");
    let parser = ServiceName;
    assert_eq!(parser.parse_step(&hello[..5]), Ok(None));
    assert_eq!(parser.parse_step(&hello[..hello.len() - 1]), Ok(None));
}

#[test]
fn tls_parser_rejects_other_protocols() {
    let parser = ServiceName;
    assert_eq!(
        parser.parse_step(b"GET / HTTP/1.1\r\nHost: a\r\n\r\n"),
        Err(TlsError::Malformed)
    );
}

#[test]
fn tls_parser_gives_up_past_the_record_size_limit() {
    // A well-formed handshake record whose ClientHello claims far more
    // bytes than ever arrive, spread over enough records to pass the
    // limit without completing.
    let mut buf = vec![0x16, 0x03, 0x01, 0x40, 0x00, 0x01, 0x00, 0xff, 0xff];
    buf.resize(5 + 16384, 0);
    buf.extend_from_slice(&[0x16, 0x03, 0x01, 0x40, 0x00]);
    buf.resize(buf.len() + 16384, 0);
    assert!(buf.len() > MAX_TLS_WIRE_SIZE);
    let parser = ServiceName;
    assert_eq!(parser.parse_step(&buf), Err(TlsError::MaxSizeExceeded));
}

#[test]
fn forwarder_settles_a_name_across_chunked_reads() {
    let mut fwd = Forwarder::new(&vec![Kind::H1, Kind::Tls]);
    assert_eq!(fwd.on_read(b"GET / HT"), ReadStep::NeedMore);
    match fwd.on_read(b"TP/1.1\r\nHost: example.com\r\n\r\n") {
        ReadStep::Found(name) => assert_eq!(name, b"example.com".to_vec()),
        other => panic!("expected a name, got {:?}", other),
    }
}

#[test]
fn forwarder_reports_when_every_parser_failed() {
    let mut fwd = Forwarder::new(&vec![Kind::H1, Kind::Tls]);
    assert_eq!(fwd.on_read(b"SSH-2.0-OpenSSH_9.0\r\n"), ReadStep::NoParser);
}

#[test]
fn tls_parser_yields_the_empty_name_when_no_server_is_named() {
    // A ClientHello for a bare IP address carries no server-name
    // extension; the parser answers with the empty name.
    let hello = client_hello_bytes("192.168.0.1");
    let parser = ServiceName;
    assert_eq!(parser.parse_step(&hello), Ok(Some(Vec::new())));
}
