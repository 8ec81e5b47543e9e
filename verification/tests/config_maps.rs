use ormos::config::{
    default_parsers, default_ports, forward_addr_by_service_name,
    remote_port_by_service_name_and_local, ConfigFile, Error, Kind, Listener, Rule, Service,
};
use ormos::net::{IpAddress, SocketAddress};
use ormos::resolver::constant::PortBinding;
use ormos::resolver::{constant, rewrite};

fn ip4(a: u8, b: u8, c: u8, d: u8) -> IpAddress {
    SocketAddress::v4(a, b, c, d, 0).ip
}

#[test]
fn config_keys_by_name() {
    let services = vec![
        Service {
            name: b"first.xyz".to_vec(),
            ports: vec![PortBinding(80, 80)],
            forward: Vec::new(),
        },
        Service {
            name: b"second.xyz".to_vec(),
            ports: vec![PortBinding(80, 80)],
            forward: vec![ip4(127, 0, 0, 1)],
        },
    ];

    let by_name = forward_addr_by_service_name(services);
    assert_eq!(by_name.len(), 1);

    let second = by_name.get(b"second.xyz").unwrap();
    assert_eq!(second.len(), 1);
    assert_eq!(second.first().unwrap(), &ip4(127, 0, 0, 1));
}

#[test]
fn config_keys_by_name_and_port() {
    let services = vec![
        Service {
            name: b"first.xyz".to_vec(),
            ports: vec![PortBinding(80, 80), PortBinding(3333, 4444)],
            forward: Vec::new(),
        },
        Service {
            name: b"second.xyz".to_vec(),
            ports: vec![PortBinding(80, 80), PortBinding(3333, 5555)],
            forward: vec![ip4(127, 0, 0, 1)],
        },
    ];

    let by_name_and_port = remote_port_by_service_name_and_local(services);

    assert_eq!(by_name_and_port.get(b"first.xyz", 80).unwrap(), 80);
    assert_eq!(by_name_and_port.get(b"first.xyz", 3333).unwrap(), 4444);
    assert_eq!(by_name_and_port.get(b"second.xyz", 80).unwrap(), 80);
    assert_eq!(by_name_and_port.get(b"second.xyz", 3333).unwrap(), 5555);
}

#[test]
fn config_keys_by_name_and_port_latter_takes_precedence() {
    let services = vec![Service {
        name: b"first.xyz".to_vec(),
        ports: vec![PortBinding(80, 80), PortBinding(80, 4444)],
        forward: Vec::new(),
    }];

    let by_name_and_port = remote_port_by_service_name_and_local(services);

    assert_eq!(by_name_and_port.get(b"first.xyz", 80).unwrap(), 4444);
}

#[test]
fn service_defaults_to_https() {
    let svc = Service {
        name: b"first.xyz".to_vec(),
        ports: default_ports(),
        forward: Vec::new(),
    };
    assert_eq!(svc.ports.len(), 1);
    assert_eq!(svc.ports.first().unwrap(), &PortBinding(443, 443));
}

#[test]
fn service_no_defaults_when_ports_defined() {
    let ports = vec![
        PortBinding::parse(b"80").expect("Failed to parse valid yaml"),
        PortBinding::parse(b"3333:4444").expect("Failed to parse valid yaml"),
    ];
    let svc = Service {
        name: b"first.xyz".to_vec(),
        ports,
        forward: Vec::new(),
    };
    assert_eq!(svc.ports.len(), 2);
    let mut iter = svc.ports.iter();
    assert_eq!(iter.next().unwrap(), &PortBinding(80, 80));
    assert_eq!(iter.next().unwrap(), &PortBinding(3333, 4444));
}

#[test]
fn listener_deserializes() {
    let parsed = vec![
        Listener {
            address: SocketAddress::v4(127, 0, 0, 1, 1234),
            parsers: vec![
                Kind::from_str("h1").expect("valid address"),
                Kind::from_str("tls").expect("valid address"),
            ],
        },
        Listener {
            address: SocketAddress::v4(127, 0, 0, 1, 3333),
            parsers: vec![Kind::from_str("http/1").expect("valid address")],
        },
    ];

    assert_eq!(parsed[0].address, SocketAddress::v4(127, 0, 0, 1, 1234));
    assert_eq!(parsed[0].parsers(), &[Kind::H1, Kind::Tls]);
    assert_eq!(parsed[1].parsers(), &[Kind::H1]);
}

#[test]
fn mod_deserializes() {
    let parsed = vec![
        constant::Config::Port {
            name: b"first.xyz".to_vec(),
            ports: vec![
                PortBinding::parse(b"80").unwrap(),
                PortBinding::parse(b"3333:4444").unwrap(),
            ],
        },
        constant::Config::Ip {
            name: b"first.xyz".to_vec(),
            ips: vec![ip4(1, 2, 3, 4), ip4(8, 8, 8, 8)],
        },
    ];
    assert_eq!(
        parsed[0],
        constant::Config::Port {
            name: b"first.xyz".to_vec(),
            ports: vec![PortBinding(80, 80), PortBinding(3333, 4444)]
        }
    );
    assert_eq!(
        parsed[1],
        constant::Config::Ip {
            name: b"first.xyz".to_vec(),
            ips: vec![ip4(1, 2, 3, 4), ip4(8, 8, 8, 8)]
        }
    );
}

#[test]
fn unknown_parser_kind_is_refused() {
    assert_eq!(Kind::from_str("h2"), Err(Error::InvalidParserKind));
}

#[test]
fn empty_rules_are_refused() {
    let file = ConfigFile {
        listen: Vec::new(),
        rules: Vec::new(),
    };
    match file.validate() {
        Err(Error::NoRules) => {}
        _ => panic!("an empty rule list must be refused"),
    }
}

#[test]
fn invalid_rewrite_pattern_is_refused() {
    let file = ConfigFile {
        listen: Vec::new(),
        rules: vec![Rule::Rewrite(rewrite::Config {
            matcher: "(".to_string(),
            replacer: b"x".to_vec(),
        })],
    };
    match file.validate() {
        Err(Error::InvalidRegex) => {}
        _ => panic!("an invalid pattern must be refused"),
    }
}

#[test]
fn missing_listeners_fall_back_to_the_default() {
    let file = ConfigFile {
        listen: Vec::new(),
        rules: vec![Rule::Fallback(SocketAddress::v4(192, 0, 2, 1, 80))],
    };
    let config = file.validate().expect("a fallback rule alone is a valid config");
    assert_eq!(config.listen.len(), 1);
    assert_eq!(config.listen[0].address, SocketAddress::v4(127, 0, 0, 1, 8314));
    assert_eq!(config.listen[0].parsers(), default_parsers().as_slice());
    assert_eq!(config.listening_ports(), vec![8314]);
}
