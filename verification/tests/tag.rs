use taskchampion_swift::tag::create_tag;

#[test]
fn tag_accepts_valid_names() {
    for s in ["z", "abc", ":abc", "\u{1f980}", "\u{1f980}testing", "a123_456", "WAITING"] {
        let t = create_tag(s.to_string()).unwrap();
        assert_eq!(t.get_value(), s);
    }
}

#[test]
fn tag_rejects_invalid_names() {
    for s in ["", "a:b", "999", "+testing", "-testing", "-", " abcfoobar", "abc foobar", "NOSUCH"] {
        assert!(create_tag(s.to_string()).is_none(), "{s}");
    }
}

#[test]
fn tag_synthetic_names() {
    assert!(create_tag("PENDING".to_string()).unwrap().is_synthetic());
    assert!(create_tag("BLOCKED".to_string()).unwrap().is_synthetic());
    assert!(!create_tag("work".to_string()).unwrap().is_synthetic());
    assert!(!create_tag("Work".to_string()).unwrap().is_synthetic());
}
