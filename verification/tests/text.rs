use iceblink_sync::text::{chars_of, is_present};

#[test]
fn chars_of_lists_the_characters() {
    assert_eq!(chars_of(""), Vec::<char>::new());
    assert_eq!(chars_of("a;b"), vec!['a', ';', 'b']);
    assert_eq!(chars_of("äö€"), vec!['ä', 'ö', '€']);
}

#[test]
fn is_present_needs_a_text_that_is_not_empty() {
    assert!(is_present(&Some("x".to_string())));
    assert!(is_present(&Some(" ".to_string())));
    assert!(!is_present(&Some(String::new())));
    assert!(!is_present(&None));
}
