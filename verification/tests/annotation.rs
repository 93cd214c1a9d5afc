use taskchampion_swift::annotation::create_annotation;
use taskchampion_swift::time::is_usable_time_text;

#[test]
fn annotation_from_decimal_seconds() {
    let a = create_annotation("call Bob".to_string(), "1700000000".to_string()).unwrap();
    assert_eq!(a.get_description(), "call Bob");
    assert_eq!(a.get_entry(), 1700000000);
    let b = create_annotation("x".to_string(), "-5".to_string()).unwrap();
    assert_eq!(b.get_entry(), -5);
}

#[test]
fn annotation_rejects_non_integer_entry() {
    assert!(create_annotation("x".to_string(), "soon".to_string()).is_none());
    assert!(create_annotation("x".to_string(), "".to_string()).is_none());
    assert!(create_annotation("x".to_string(), " 12".to_string()).is_none());
    assert!(create_annotation("x".to_string(), "99999999999999999999".to_string()).is_none());
}

#[test]
fn time_text_range() {
    assert!(is_usable_time_text("0"));
    assert!(is_usable_time_text("8210266876799"));
    assert!(!is_usable_time_text("8210266876800"));
    assert!(is_usable_time_text("-8334601315200"));
    assert!(!is_usable_time_text("-8334601315201"));
    assert!(is_usable_time_text("not a number"));
}
