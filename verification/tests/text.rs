use taskchampion_swift::annotation::create_annotation;
use taskchampion_swift::text::{contains_text, str_equals};
use taskchampion_swift::time::is_usable_time_text;

#[test]
fn parse_i64_forms() {
    let entry_of = |text: &str| -> Option<i64> {
        create_annotation("note".to_string(), text.to_string()).map(|a| a.get_entry())
    };
    assert_eq!(entry_of("42"), Some(42));
    assert_eq!(entry_of("+42"), Some(42));
    assert_eq!(entry_of("-42"), Some(-42));
    assert_eq!(entry_of("007"), Some(7));
    assert_eq!(entry_of("9223372036854775808"), None);
    assert_eq!(entry_of("-"), None);
    assert_eq!(entry_of("4 2"), None);
    assert_eq!(entry_of("1_000"), None);
    assert!(!is_usable_time_text("9223372036854775807"));
    assert!(is_usable_time_text("9223372036854775808"));
    assert!(is_usable_time_text("8210266876799"));
    assert!(!is_usable_time_text("8210266876800"));
}

#[test]
fn text_comparison_and_search() {
    assert!(str_equals("abc", "abc"));
    assert!(!str_equals("abc", "abd"));
    assert!(!str_equals("abc", "ab"));
    assert!(contains_text("error while unsealing data", "unsealing"));
    assert!(contains_text("abc", ""));
    assert!(!contains_text("unseal", "unsealing"));
}
