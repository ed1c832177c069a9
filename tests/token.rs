use simple_auth::token::{equals_ascii, get_token, starts_with_ascii};

#[test]
fn test_get_token() {
    let token = "Bearer FOOBAR…";
    assert_eq!(get_token(token), Some("FOOBAR…"));
}

#[test]
fn token_after_scheme() {
    assert_eq!(get_token("Bearer FOOBAR"), Some("FOOBAR"));
}

#[test]
fn scheme_keyword_is_case_sensitive() {
    assert_eq!(get_token("bearer foo"), None);
    assert_eq!(get_token("BEARER foo"), None);
}

#[test]
fn scheme_without_separator_has_no_token() {
    assert_eq!(get_token("Bearer"), None);
    assert_eq!(get_token(""), None);
}

#[test]
fn scheme_with_empty_body_gives_empty_token() {
    assert_eq!(get_token("Bearer "), Some(""));
}

#[test]
fn no_trimming_around_the_scheme() {
    assert_eq!(get_token(" Bearer foo"), None);
    assert_eq!(get_token("Bearer  foo"), Some(" foo"));
    assert_eq!(get_token("Bearer\tfoo"), None);
}

#[test]
fn other_schemes_are_refused() {
    assert_eq!(get_token("Basic dXNlcjpwYXNz"), None);
    assert_eq!(get_token("not bearer"), None);
}

#[test]
fn multibyte_text_before_and_after_the_scheme() {
    assert_eq!(get_token("Bé"), None);
    assert_eq!(get_token("Beärer x"), None);
    assert_eq!(get_token("Bearer é"), Some("é"));
}

#[test]
fn ascii_prefix_and_equality() {
    assert!(starts_with_ascii("OPTIONS", "OPT"));
    assert!(!starts_with_ascii("OP", "OPT"));
    assert!(!starts_with_ascii("opTIONS", "OPT"));
    assert!(equals_ascii("OPTIONS", "OPTIONS"));
    assert!(!equals_ascii("OPTIONSX", "OPTIONS"));
    assert!(!equals_ascii("options", "OPTIONS"));
    assert!(!equals_ascii("", "OPTIONS"));
}
