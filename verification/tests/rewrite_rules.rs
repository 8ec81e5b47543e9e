use ormos::resolver::rewrite::{Config, Error, Layer};

#[test]
fn rules_patch_on_a_match() {
    let rule = Config {
        matcher: r"^(?P<svc>[a-z]+)\.some\.domain$".to_string(),
        replacer: b"$svc.patched".to_vec(),
    };
    assert_eq!(rule.apply(b"likes.some.domain"), Some(b"likes.patched".to_vec()));
    assert_eq!(rule.apply(b"follows.some.domain"), Some(b"follows.patched".to_vec()));
    assert_eq!(rule.apply(b"example.com"), None);
    assert_eq!(rule.apply(b"some.domain"), None);
}

#[test]
fn rewrite_deserializes() {
    let rule = Layer::new(vec![Config {
        matcher: r"^(?P<svc>[a-z]+)\.com$".to_string(),
        replacer: b"$svc.internal".to_vec(),
    }]);
    assert!(rule.is_ok(), "Failed to deserialize rule");
}

#[test]
fn config_order() {
    let layer = Layer::new(vec![
        Config {
            matcher: r"^(?P<svc>[a-z]+)\.com$".to_string(),
            replacer: b"$svc.internal".to_vec(),
        },
        Config {
            matcher: r"^(?P<svc>[a-z]+)\.com$".to_string(),
            replacer: b"$svc.never-picked".to_vec(),
        },
        Config {
            matcher: r"^(?P<svc>[a-z]+)\.org$".to_string(),
            replacer: b"$svc.borg".to_vec(),
        },
    ])
    .expect("Failed to deserialize rules");

    assert_eq!(layer.apply_all(b"example.com"), b"example.internal".to_vec());
    assert_eq!(layer.apply_all(b"abc.com"), b"abc.internal".to_vec());
    assert_eq!(layer.apply_all(b"abc.org"), b"abc.borg".to_vec());
    assert_eq!(layer.apply_all(b"abc.net"), b"abc.net".to_vec());
}

#[test]
fn an_invalid_pattern_is_refused() {
    let layer = Layer::new(vec![Config {
        matcher: "(".to_string(),
        replacer: b"x".to_vec(),
    }]);
    assert_eq!(layer.err(), Some(Error::InvalidRegex));
}
