use whiteboard_browser::url::{is_encoding_header, URL};

#[test]
fn absolute_url_parses() {
    let u = URL::url("https://example.com/a?b=c".to_string()).unwrap();
    assert_eq!(u.parsed(), "https://example.com/a?b=c");
}

#[test]
fn text_that_is_no_url_is_refused() {
    assert!(URL::url("not a url".to_string()).is_none());
    assert!(URL::url(String::new()).is_none());
    assert!(URL::url("example.com".to_string()).is_none());
}

#[test]
fn encoding_headers_are_recognised_in_any_case() {
    assert!(is_encoding_header("transfer-encoding"));
    assert!(is_encoding_header("Content-Encoding"));
    assert!(!is_encoding_header("content-length"));
    assert!(!is_encoding_header("transfer-encodings"));
    assert!(!is_encoding_header(""));
}
