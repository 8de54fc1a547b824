use my_augment::chat::shellescape;

#[test]
fn test_shellescape_simple() {
    assert_eq!(shellescape("hello world", false), "'hello world'");
}

#[test]
fn test_shellescape_with_quote() {
    assert_eq!(shellescape("it's a trap", false), "'it'\\''s a trap'");
}

#[test]
fn test_shellescape_with_special_chars() {
    assert_eq!(shellescape("special!", true), "'special\\!'");
}

#[test]
fn test_shellescape_with_special_chars_and_quote() {
    assert_eq!(shellescape("it's special!", true), "'it'\\''s special\\!'");
}

#[test]
fn test_shellescape_empty_string() {
    assert_eq!(shellescape("", false), "''");
}
