use whiteboard_browser::tile::TileContent;
use whiteboard_browser::tile_window::{render_tile_content, ContentRow, TileWindowView};

#[test]
fn window_starts_with_the_tile_state_and_hands_it_back() {
    let w = TileWindowView::new(
        3,
        "https://a.b".to_string(),
        "a.b".to_string(),
        "A".to_string(),
        TileContent::Error("x".to_string()),
    );
    let t = w.back_to_canvas();
    assert_eq!(t.id, 3);
    assert_eq!(t.url, "https://a.b");
    assert_eq!(t.url_input, "a.b");
    assert_eq!(t.title, "A");
    assert!(matches!(&t.content, TileContent::Error(e) if e == "x"));
}

#[test]
fn window_navigation_loads_the_page() {
    let mut w = TileWindowView::new(0, String::new(), String::new(), "New Tab".to_string(), TileContent::Empty);
    w.navigate("https://p.q".to_string());
    assert_eq!(w.title, "Loading\u{2026}");
    assert_eq!(w.url, "https://p.q");
    assert!(matches!(w.content, TileContent::Loading));
    w.finish_navigation(Ok("First &amp; last".to_string()));
    assert_eq!(w.title, "First & last");
    w.finish_navigation(Err("dns".to_string()));
    assert_eq!(w.title, "https://p.q");
}

#[test]
fn rows_for_empty_loading_and_error() {
    let rows = render_tile_content(&TileContent::Empty);
    assert_eq!(rows.len(), 1);
    assert!(matches!(&rows[0], ContentRow::Hint(s) if s == "Click the URL bar above and type a URL, then press Enter"));
    let rows = render_tile_content(&TileContent::Loading);
    assert!(matches!(&rows[0], ContentRow::Progress(s) if s == "\u{27F3} Loading\u{2026}"));
    let rows = render_tile_content(&TileContent::Error("boom".to_string()));
    assert!(matches!(&rows[0], ContentRow::Failure(s) if s == "\u{26A0} Error: boom"));
}

#[test]
fn rows_for_lines_show_gaps_and_at_most_300_lines() {
    let rows = render_tile_content(&TileContent::Loaded(vec!["a".to_string(), String::new()]));
    assert_eq!(rows.len(), 2);
    assert!(matches!(&rows[0], ContentRow::Text(s) if s == "a"));
    assert!(matches!(rows[1], ContentRow::Gap));
    let many: Vec<String> = (0..305).map(|i| format!("line {}", i)).collect();
    let rows = render_tile_content(&TileContent::Loaded(many));
    assert_eq!(rows.len(), 300);
    assert!(matches!(&rows[299], ContentRow::Text(s) if s == "line 299"));
}
