use whiteboard_browser::url_bar::{navigation_target_of, url_bar_key, url_input_display, KeyAction};

fn press(input: &str, key: &str, key_char: Option<&str>) -> (String, KeyAction) {
    let mut s = input.to_string();
    let action = url_bar_key(&mut s, key, key_char);
    (s, action)
}

#[test]
fn enter_adds_https_to_a_bare_host() {
    let (s, action) = press("example.com", "return", None);
    assert_eq!(s, "example.com");
    match action {
        KeyAction::Navigate(url) => assert_eq!(url, "https://example.com"),
        _ => panic!("expected navigation"),
    }
}

#[test]
fn enter_keeps_an_http_address_and_trims_it() {
    let (_, action) = press("  http://a.b/c  ", "return", None);
    match action {
        KeyAction::Navigate(url) => assert_eq!(url, "http://a.b/c"),
        _ => panic!("expected navigation"),
    }
    assert_eq!(navigation_target_of("https://x.y"), Some("https://x.y".to_string()));
}

#[test]
fn enter_on_blank_input_does_nothing() {
    let (s, action) = press("   ", "return", None);
    assert_eq!(s, "   ");
    assert!(matches!(action, KeyAction::Ignore));
    assert_eq!(navigation_target_of(""), None);
}

#[test]
fn target_is_stable_under_enter() {
    let first = navigation_target_of(" news.site ").unwrap();
    assert_eq!(navigation_target_of(&first), Some(first.clone()));
}

#[test]
fn backspace_removes_the_last_character() {
    let (s, action) = press("abc", "backspace", None);
    assert_eq!(s, "ab");
    assert!(matches!(action, KeyAction::Redraw));
    let (s, action) = press("", "backspace", None);
    assert_eq!(s, "");
    assert!(matches!(action, KeyAction::Redraw));
    let (s, _) = press("a\u{e9}", "backspace", None);
    assert_eq!(s, "a");
}

#[test]
fn escape_only_redraws() {
    let (s, action) = press("abc", "escape", Some("x"));
    assert_eq!(s, "abc");
    assert!(matches!(action, KeyAction::Redraw));
}

#[test]
fn printable_text_is_appended() {
    let (s, action) = press("x", "a", Some("a"));
    assert_eq!(s, "xa");
    assert!(matches!(action, KeyAction::Redraw));
    let (s, _) = press("x", "space", Some(" "));
    assert_eq!(s, "x ");
}

#[test]
fn control_and_non_ascii_text_is_ignored() {
    let (s, action) = press("x", "tab", Some("\t"));
    assert_eq!(s, "x");
    assert!(matches!(action, KeyAction::Ignore));
    let (s, action) = press("x", "e", Some("\u{e9}"));
    assert_eq!(s, "x");
    assert!(matches!(action, KeyAction::Ignore));
    let (s, action) = press("x", "f1", None);
    assert_eq!(s, "x");
    assert!(matches!(action, KeyAction::Ignore));
}

#[test]
fn typing_then_backspace_restores_input() {
    let (s, _) = press("abc", "q", Some("q"));
    let (s, _) = press(&s, "backspace", None);
    assert_eq!(s, "abc");
}

#[test]
fn url_bar_text_shows_caret_hint_or_input() {
    assert_eq!(url_input_display("abc", true), "abc|");
    assert_eq!(url_input_display("", true), "|");
    assert_eq!(url_input_display("", false), "Enter URL\u{2026}");
    assert_eq!(url_input_display("abc", false), "abc");
}
