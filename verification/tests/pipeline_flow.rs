use ormos::config::{ConfigFile, Kind, Listener, Rule};
use ormos::forward::{Forwarder, Phase, ReadStep, Splice};
use ormos::net::{IpAddress, SocketAddress};
use ormos::resolver::constant::{Config as ConstantRule, PortBinding};
use ormos::resolver::dns::{pick_ip, Config as DnsRule, SrvRecord, Strategy};
use ormos::resolver::filter::Config as FilterRule;
use ormos::resolver::pipeline::{Admission, Pipeline, Step, ADMISSION_CAPACITY};
use ormos::resolver::rewrite::Config as RewriteRule;

fn client_hello_bytes(server: &str) -> Vec<u8> {
    let roots = rustls::RootCertStore::empty();
    let config = rustls::ClientConfig::builder()
        .with_safe_defaults()
        .with_root_certificates(roots)
        .with_no_client_auth();
    let name = rustls::ServerName::try_from(server).expect("a valid dns name");
    let mut conn = rustls::ClientConnection::new(std::sync::Arc::new(config), name)
        .expect("a client connection");
    let mut out = Vec::new();
    while conn.wants_write() {
        conn.write_tls(&mut out).expect("writing to a Vec");
    }
    out
}

fn pipeline_of(rules: Vec<Rule>) -> Pipeline {
    let file = ConfigFile {
        listen: Vec::new(),
        rules,
    };
    file.validate().expect("a valid configuration").pipeline
}

#[test]
fn constant_ip_override_short_circuits_to_the_configured_address() {
    // One TLS listener on 127.0.0.1:8443; a client sends a ClientHello
    // with the server name example.com; the configured address is dialed
    // at the listener port, and the ClientHello bytes are replayed
    // verbatim to the upstream before anything else.
    let listener = Listener {
        address: SocketAddress::v4(127, 0, 0, 1, 8443),
        parsers: vec![Kind::Tls],
    };
    let pipeline = pipeline_of(vec![Rule::Constant(ConstantRule::Ip {
        name: b"example.com".to_vec(),
        ips: vec![SocketAddress::v4(1, 1, 1, 1, 0).ip],
    })]);

    let hello = client_hello_bytes("example.com");
    let mut fwd = Forwarder::new(&listener.parsers().to_vec());
    let name = match fwd.on_read(&hello) {
        ReadStep::Found(name) => name,
        other => panic!("expected a name, got {:?}", other),
    };
    assert_eq!(name, b"example.com".to_vec());

    match pipeline.begin(name, listener.address.port) {
        Step::Resolved(d) => assert_eq!(d, SocketAddress::v4(1, 1, 1, 1, 8443)),
        other => panic!("expected a destination, got {:?}", other),
    }

    fwd.resolution_succeeded();
    let (_splice, first_write) = fwd.dial_succeeded();
    assert_eq!(first_write, hello);
    assert_eq!(fwd.phase(), Phase::Splicing);
}

#[test]
fn constant_port_override_changes_the_remote_port() {
    let pipeline = pipeline_of(vec![
        Rule::Constant(ConstantRule::Ip {
            name: b"example.com".to_vec(),
            ips: vec![SocketAddress::v4(1, 1, 1, 1, 0).ip],
        }),
        Rule::Constant(ConstantRule::Port {
            name: b"example.com".to_vec(),
            ports: vec![PortBinding(8443, 443)],
        }),
    ]);

    match pipeline.begin(b"example.com".to_vec(), 8443) {
        Step::Resolved(d) => assert_eq!(d, SocketAddress::v4(1, 1, 1, 1, 443)),
        other => panic!("expected a destination, got {:?}", other),
    }
}

#[test]
fn rewrite_runs_before_dns_and_dns_sees_the_rewritten_name() {
    let pipeline = pipeline_of(vec![
        Rule::Rewrite(RewriteRule {
            matcher: "^([a-z]+)\\.com$".to_string(),
            replacer: b"$1.internal".to_vec(),
        }),
        Rule::Dns(DnsRule {
            address: SocketAddress::v4(8, 8, 8, 8, 53),
            strategy: Strategy::Ipv6Only,
            srv: Vec::new(),
        }),
    ]);

    let mut fwd = Forwarder::new(&vec![Kind::H1]);
    let name = match fwd.on_read(b"GET / HTTP/1.1\r\nHost: example.com\r\n\r\n") {
        ReadStep::Found(name) => name,
        other => panic!("expected a name, got {:?}", other),
    };

    let (query_name, query_port) = match pipeline.begin(name, 8080) {
        Step::IpQuery { name, port } => (name, port),
        other => panic!("expected an address query, got {:?}", other),
    };
    assert_eq!(query_name, b"example.internal".to_vec());
    assert_eq!(query_port, 8080);

    let answer = vec![SocketAddress::v4(10, 0, 0, 5, 0).ip];
    match pipeline.on_ip_answer(Some(answer), query_port) {
        Step::Resolved(d) => assert_eq!(d, SocketAddress::v4(10, 0, 0, 5, 8080)),
        other => panic!("expected a destination, got {:?}", other),
    }
}

#[test]
fn filter_rejects_an_unknown_name_when_no_fallback_is_configured() {
    let pipeline = pipeline_of(vec![Rule::Filter(FilterRule {
        names: vec![b"allowed.net".to_vec()],
    })]);

    match pipeline.begin(b"other.com".to_vec(), 443) {
        Step::Rejected(name) => assert_eq!(name, b"other.com".to_vec()),
        other => panic!("expected a refusal, got {:?}", other),
    }
}

#[test]
fn fallback_absorbs_a_filter_rejection() {
    let pipeline = pipeline_of(vec![
        Rule::Filter(FilterRule {
            names: vec![b"allowed.net".to_vec()],
        }),
        Rule::Fallback(SocketAddress::v4(192, 0, 2, 1, 80)),
    ]);

    match pipeline.begin(b"other.com".to_vec(), 443) {
        Step::Resolved(d) => assert_eq!(d, SocketAddress::v4(192, 0, 2, 1, 80)),
        other => panic!("expected the default destination, got {:?}", other),
    }
}

#[test]
fn filter_lets_an_allowed_suffix_through() {
    let pipeline = pipeline_of(vec![Rule::Filter(FilterRule {
        names: vec![b"allowed.net".to_vec()],
    })]);

    // The name passes the filter; with no stage left to resolve it, the
    // walk ends unresolved.
    assert_eq!(
        pipeline.begin(b"svc.allowed.net".to_vec(), 443),
        Step::Unresolved
    );
}

#[test]
fn srv_eligible_names_resolve_via_srv_target_and_port() {
    let pipeline = pipeline_of(vec![Rule::Dns(DnsRule {
        address: SocketAddress::v4(10, 0, 0, 2, 53),
        strategy: Strategy::Ipv6Only,
        srv: vec![b"svc.local".to_vec()],
    })]);

    let (name, port) = match pipeline.begin(b"api.svc.local".to_vec(), 8443) {
        Step::SrvQuery { name, port } => (name, port),
        other => panic!("expected an SRV query, got {:?}", other),
    };
    assert_eq!(name, b"api.svc.local".to_vec());

    let records = vec![SrvRecord {
        target: b"h1.svc.local".to_vec(),
        port: 6000,
    }];
    let (name, port) = match pipeline.on_srv_answer(name, port, Some(records)) {
        Step::IpQuery { name, port } => (name, port),
        other => panic!("expected a follow-up address query, got {:?}", other),
    };
    assert_eq!(name, b"h1.svc.local".to_vec());
    assert_eq!(port, 6000);

    let answer = vec![SocketAddress::v4(10, 0, 0, 7, 0).ip];
    match pipeline.on_ip_answer(Some(answer), port) {
        Step::Resolved(d) => assert_eq!(d, SocketAddress::v4(10, 0, 0, 7, 6000)),
        other => panic!("expected a destination, got {:?}", other),
    }
}

#[test]
fn an_empty_srv_race_falls_back_to_an_address_race() {
    let pipeline = pipeline_of(vec![Rule::Dns(DnsRule {
        address: SocketAddress::v4(10, 0, 0, 2, 53),
        strategy: Strategy::Ipv6Only,
        srv: vec![b"svc.local".to_vec()],
    })]);

    match pipeline.on_srv_answer(b"api.svc.local".to_vec(), 8443, None) {
        Step::IpQuery { name, port } => {
            assert_eq!(name, b"api.svc.local".to_vec());
            assert_eq!(port, 8443);
        }
        other => panic!("expected an address query, got {:?}", other),
    }
}

#[test]
fn an_empty_dns_answer_without_fallback_is_unresolved() {
    let pipeline = pipeline_of(vec![Rule::Dns(DnsRule {
        address: SocketAddress::v4(10, 0, 0, 2, 53),
        strategy: Strategy::Ipv6Only,
        srv: Vec::new(),
    })]);
    assert_eq!(pipeline.on_ip_answer(None, 443), Step::Unresolved);
    assert_eq!(pipeline.on_ip_answer(Some(Vec::new()), 443), Step::Unresolved);
}

#[test]
fn picked_addresses_never_carry_port_zero() {
    let ips = vec![IpAddress::V4(0x0a000005)];
    assert_eq!(pick_ip(&ips, 0), None);
    assert_eq!(pick_ip(&Vec::new(), 443), None);
    assert_eq!(
        pick_ip(&ips, 443),
        Some(SocketAddress {
            ip: IpAddress::V4(0x0a000005),
            port: 443
        })
    );
}

#[test]
fn admission_suspends_the_caller_past_the_bound() {
    let mut admission = Admission::new();
    for _ in 0..ADMISSION_CAPACITY {
        assert!(admission.try_acquire());
    }
    assert!(!admission.try_acquire());
    assert!(!admission.try_acquire());
    admission.release();
    assert!(admission.try_acquire());
}

#[test]
fn splice_hands_over_the_prefix_then_each_chunk_in_order() {
    let prefix = b"\x16\x03\x01hello".to_vec();
    let (mut splice, first) = Splice::begin(&prefix);
    assert_eq!(first, prefix);
    let a = splice.forward_chunk(b"abc");
    let b = splice.forward_chunk(b"defg");
    let mut upstream = Vec::new();
    upstream.extend_from_slice(&first);
    upstream.extend_from_slice(&a);
    upstream.extend_from_slice(&b);
    assert_eq!(upstream, b"\x16\x03\x01helloabcdefg".to_vec());
}

#[test]
fn the_deadline_drops_a_connection_before_the_splice() {
    let mut fwd = Forwarder::new(&vec![Kind::H1, Kind::Tls]);
    assert_eq!(fwd.phase(), Phase::Reading);
    assert_eq!(fwd.on_read(b"GET / HT"), ReadStep::NeedMore);
    fwd.deadline_expired();
    assert_eq!(fwd.phase(), Phase::Dropped);
}

#[test]
fn a_connection_walks_the_phases_to_closed() {
    let mut fwd = Forwarder::new(&vec![Kind::H1]);
    match fwd.on_read(b"GET / HTTP/1.1\r\nHost: a.net\r\n\r\n") {
        ReadStep::Found(_) => {}
        other => panic!("expected a name, got {:?}", other),
    }
    assert_eq!(fwd.phase(), Phase::Resolving);
    fwd.resolution_succeeded();
    assert_eq!(fwd.phase(), Phase::Dialing);
    let _ = fwd.dial_succeeded();
    assert_eq!(fwd.phase(), Phase::Splicing);
    fwd.splice_finished();
    assert_eq!(fwd.phase(), Phase::Closed);
}

#[test]
fn the_filter_check_reports_the_refused_name() {
    let check = ormos::resolver::filter::Check::new(&vec![FilterRule {
        names: vec![b"allowed.net".to_vec()],
    }]);
    match check.check(b"svc.allowed.net".to_vec(), 443) {
        Ok((name, port)) => {
            assert_eq!(name, b"svc.allowed.net".to_vec());
            assert_eq!(port, 443);
        }
        Err(e) => panic!("expected admission, got {:?}", e),
    }
    match check.check(b"other.com".to_vec(), 443) {
        Err(ormos::resolver::filter::Error::NotSupported(name)) => {
            assert_eq!(name, b"other.com".to_vec())
        }
        Ok(_) => panic!("expected a refusal"),
    }
}

#[test]
fn the_default_strategy_prefers_v6() {
    assert_eq!(Strategy::default(), Strategy::Ipv6Only);
}
