use workflow_ux::avatar::{parse_value, Avatar, AvatarProvider};

const MD5_ABC: &str = "900150983cd24fb0d6963f7d28e17f72";

#[test]
fn provider_names_round_trip() {
    for p in AvatarProvider::list() {
        assert_eq!(AvatarProvider::from_str(p.as_str()), Some(p));
    }
    assert_eq!(AvatarProvider::Custom.descr(), "Custom URL");
    assert_eq!(AvatarProvider::Gravatar.descr(), "Gravatar");
    assert_eq!(AvatarProvider::from_str("Other"), None);
}

#[test]
fn new_avatar_shows_fallback() {
    let a = Avatar::new("fallback.png".to_string());
    assert_eq!(a.build_url(100), "fallback.png");
    assert_eq!(a.serialize_value(), None);
    assert!(!a.is_set());
    assert_eq!(a.change_label(), "Set");
    assert_eq!(a.save_label(), "Save");
}

#[test]
fn robohash_value_and_url() {
    let mut a = Avatar::new("f.png".to_string());
    assert!(a.set_provider(AvatarProvider::Robohash));
    assert!(!a.set_provider(AvatarProvider::Robohash));
    a.on_text_change("hello");
    assert_eq!(a.serialize_value(), Some("Robohash|hello|set2".to_string()));
    assert_eq!(
        a.build_url(100),
        "https://robohash.org/hello.jpg?ignoreext=false&size=100x100&set=set2"
    );
}

#[test]
fn robohash_text_is_cleaned() {
    let mut a = Avatar::new("f.png".to_string());
    a.set_provider(AvatarProvider::Robohash);
    a.set_robotext("a|b\"c", Some("set3".to_string()));
    assert_eq!(a.serialize_value(), Some("Robohash|ab&quot;c|set3".to_string()));
}

#[test]
fn gravatar_hashes_email() {
    let mut a = Avatar::new("f.png".to_string());
    a.on_hash_type_change("md5");
    a.on_text_change("abc");
    assert_eq!(a.build_url(80), format!("https://s.gravatar.com/avatar/{}?s=80", MD5_ABC));
    assert_eq!(a.serialize_value(), Some(format!("Gravatar|{}", MD5_ABC)));
    assert!(a.save());
    assert_eq!(a.value(), format!("Gravatar|{}", MD5_ABC));
    assert!(a.is_set());
    assert_eq!(a.change_label(), "Change");
    assert_eq!(a.save_label(), "Update");
}

#[test]
fn gravatar_sha256_hash_type() {
    let mut a = Avatar::new("f.png".to_string());
    a.on_hash_type_change("sha256");
    a.on_text_change("abc");
    assert_eq!(
        a.serialize_value(),
        Some("Gravatar|ba7816bf8f01cfea414140de5dae2223b00361a396177a9cb410ff61f20015ad".to_string())
    );
}

#[test]
fn unknown_hash_type_changes_nothing() {
    let mut a = Avatar::new("f.png".to_string());
    a.on_hash_type_change("sha1");
    a.on_text_change("abc");
    assert_eq!(a.serialize_value(), None);
}

#[test]
fn stored_gravatar_value_reads_back() {
    let mut a = Avatar::new("f.png".to_string());
    let v = format!("Gravatar|{}", MD5_ABC);
    a.set_value(&v);
    assert_eq!(a.value(), v);
    assert_eq!(a.build_url(10), format!("https://s.gravatar.com/avatar/{}?s=10", MD5_ABC));
}

#[test]
fn stored_robohash_and_custom_values_read_back() {
    let mut a = Avatar::new("f.png".to_string());
    a.set_value("Robohash|kitty|set4");
    assert_eq!(a.value(), "Robohash|kitty|set4");
    a.set_value("Custom|http://x.org/a.png");
    assert_eq!(a.value(), "Custom|http://x.org/a.png");
    assert_eq!(a.build_url(50), "http://x.org/a.png");
}

#[test]
fn libravatar_is_stored_as_robohash() {
    let mut a = Avatar::new("f.png".to_string());
    assert_eq!(a.deserialize_value("Libravatar|abc"), Some("Robohash|abc".to_string()));
}

#[test]
fn unknown_provider_is_refused() {
    let mut a = Avatar::new("f.png".to_string());
    a.set_value("Robohash|kitty");
    a.set_value("Unknown|x");
    assert_eq!(a.value(), "Robohash|kitty|set2");
}

#[test]
fn empty_value_means_gravatar() {
    let mut a = Avatar::new("f.png".to_string());
    assert_eq!(a.deserialize_value(""), None);
    assert_eq!(a.value(), "");
}

#[test]
fn long_custom_url_is_not_stored() {
    let mut a = Avatar::new("f.png".to_string());
    a.set_provider(AvatarProvider::Custom);
    let long = "x".repeat(201);
    a.set_custom_url(&long);
    assert_eq!(a.serialize_value(), None);
    let ok = "y".repeat(200);
    a.set_custom_url(&ok);
    assert_eq!(a.serialize_value(), Some(format!("Custom|{}", ok)));
}

#[test]
fn value_is_split_in_parts() {
    let (p, t, s) = parse_value("Robohash|txt|set3|extra").unwrap();
    assert_eq!(p, AvatarProvider::Robohash);
    assert_eq!(t, "txt");
    assert_eq!(s, Some("set3".to_string()));
    let (p, t, s) = parse_value("").unwrap();
    assert_eq!(p, AvatarProvider::Gravatar);
    assert_eq!(t, "");
    assert_eq!(s, None);
    assert!(parse_value("Nope|x").is_none());
}

#[test]
fn editable_flag() {
    let mut a = Avatar::new("f.png".to_string());
    a.set_editable(false);
    assert!(!a.changeable);
}
