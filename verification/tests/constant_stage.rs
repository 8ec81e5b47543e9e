use ormos::net::SocketAddress;
use ormos::resolver::constant::{Config, Layer, PortBinding, Step};

// Stands in for an inner resolver that answers every request with a fixed
// address at the request's port, as the tests around the constant stage
// expect.
fn inner_stage(port: u16) -> Option<SocketAddress> {
    Some(SocketAddress::v4(1, 2, 3, 4, port))
}

fn run(layer: &Layer, name: &[u8], port: u16) -> Option<SocketAddress> {
    match layer.step(name, port) {
        Step::Resolved(d) => Some(d),
        Step::Continue(p) => inner_stage(p),
    }
}

#[test]
fn given_no_match_does_nothing() {
    let layer = Layer::new(vec![]);

    let outcome = run(&layer, b"example.com", 1234).expect("Infallible");

    assert_eq!(outcome, SocketAddress::v4(1, 2, 3, 4, 1234));
}

#[test]
fn given_match_on_port_overrides_port() {
    let port_rule = Config::Port {
        name: b"example.com".to_vec(),
        ports: vec![PortBinding(1234, 222)],
    };
    let layer = Layer::new(vec![port_rule]);

    let outcome = run(&layer, b"example.com", 1234).expect("Infallible");

    assert_eq!(outcome, SocketAddress::v4(1, 2, 3, 4, 222));
}

#[test]
fn given_match_on_ip_overrides_ip() {
    let ip_rule = Config::Ip {
        name: b"example.com".to_vec(),
        ips: vec![SocketAddress::v4(1, 1, 1, 1, 0).ip],
    };
    let layer = Layer::new(vec![ip_rule]);

    let outcome = run(&layer, b"example.com", 1234).expect("Infallible");

    assert_eq!(outcome, SocketAddress::v4(1, 1, 1, 1, 1234));
}

#[test]
fn given_a_match_on_both_overrides_both() {
    let port_rule = Config::Port {
        name: b"example.com".to_vec(),
        ports: vec![PortBinding(1234, 222)],
    };
    let ip_rule = Config::Ip {
        name: b"example.com".to_vec(),
        ips: vec![SocketAddress::v4(1, 1, 1, 1, 0).ip],
    };
    let layer = Layer::new(vec![ip_rule, port_rule]);

    let outcome = run(&layer, b"example.com", 1234).expect("Infallible");

    assert_eq!(outcome, SocketAddress::v4(1, 1, 1, 1, 222));
}

#[test]
fn port_binding_reads_both_written_forms() {
    assert_eq!(PortBinding::parse(b"80"), Some(PortBinding(80, 80)));
    assert_eq!(PortBinding::parse(b"8443:443"), Some(PortBinding(8443, 443)));
}

#[test]
fn port_binding_skips_segments_that_are_not_ports() {
    assert_eq!(PortBinding::parse(b"xyz:80"), Some(PortBinding(80, 80)));
    assert_eq!(PortBinding::parse(b"80:70:60"), Some(PortBinding(80, 70)));
    assert_eq!(PortBinding::parse(b""), None);
    assert_eq!(PortBinding::parse(b"65536"), None);
    assert_eq!(PortBinding::parse(b"+443"), Some(PortBinding(443, 443)));
}

#[test]
fn colliding_port_bindings_let_the_later_one_win() {
    let layer = Layer::new(vec![
        Config::Port {
            name: b"first.xyz".to_vec(),
            ports: vec![PortBinding(80, 80), PortBinding(80, 4444)],
        },
        Config::Port {
            name: b"first.xyz".to_vec(),
            ports: vec![PortBinding(3333, 5555)],
        },
    ]);
    assert_eq!(layer.step(b"first.xyz", 80), Step::Continue(4444));
    assert_eq!(layer.step(b"first.xyz", 3333), Step::Continue(5555));
    assert_eq!(layer.step(b"first.xyz", 9999), Step::Continue(9999));
}

#[test]
fn a_port_override_to_zero_is_unresolved() {
    let layer = Layer::new(vec![
        Config::Port {
            name: b"first.xyz".to_vec(),
            ports: vec![PortBinding(80, 0)],
        },
        Config::Ip {
            name: b"first.xyz".to_vec(),
            ips: vec![SocketAddress::v4(1, 1, 1, 1, 0).ip],
        },
    ]);
    assert_eq!(layer.step(b"first.xyz", 80), Step::Continue(0));
}
