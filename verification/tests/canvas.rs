use whiteboard_browser::url_bar::KeyAction;
use whiteboard_browser::canvas_view::{mouse_down_action, CanvasView, MouseDownAction, TileHit, ViewMode};
use whiteboard_browser::tile::{BrowserTile, TileContent};

fn ids(view: &CanvasView) -> Vec<u64> {
    view.tiles.iter().map(|t| t.id).collect()
}

#[test]
fn new_canvas_has_two_fresh_tiles() {
    let view = CanvasView::new();
    assert_eq!(ids(&view), vec![0, 1]);
    assert_eq!(view.next_tile_id, 2);
    assert_eq!(view.view_mode, ViewMode::Canvas);
    for t in &view.tiles {
        assert_eq!(t.title, "New Tab");
        assert_eq!(t.url, "");
        assert_eq!(t.url_input, "");
        assert!(matches!(t.content, TileContent::Empty));
    }
}

#[test]
fn add_tile_hands_out_the_next_id() {
    let mut view = CanvasView::new();
    assert_eq!(view.add_tile(), 2);
    assert_eq!(view.add_tile(), 3);
    assert_eq!(ids(&view), vec![0, 1, 2, 3]);
    assert_eq!(view.next_tile_id, 4);
}

#[test]
fn remove_tile_keeps_the_others_in_order() {
    let mut view = CanvasView::new();
    view.add_tile();
    view.remove_tile(1);
    assert_eq!(ids(&view), vec![0, 2]);
    view.remove_tile(7);
    assert_eq!(ids(&view), vec![0, 2]);
    assert_eq!(view.add_tile(), 3);
}

#[test]
fn close_undoes_add() {
    let mut view = CanvasView::new();
    let id = view.add_tile();
    view.remove_tile(id);
    assert_eq!(ids(&view), vec![0, 1]);
}

#[test]
fn sync_from_window_updates_only_that_tile() {
    let mut view = CanvasView::new();
    view.sync_tile_from_window(
        1,
        "https://a.b".to_string(),
        "a.b".to_string(),
        "A".to_string(),
        TileContent::Loaded(vec!["A".to_string()]),
    );
    assert_eq!(view.tiles[1].url, "https://a.b");
    assert_eq!(view.tiles[1].url_input, "a.b");
    assert_eq!(view.tiles[1].title, "A");
    assert!(matches!(&view.tiles[1].content, TileContent::Loaded(l) if l == &vec!["A".to_string()]));
    assert_eq!(view.tiles[0].title, "New Tab");
    view.sync_tile_from_window(9, "u".to_string(), "u".to_string(), "t".to_string(), TileContent::Empty);
    assert_eq!(ids(&view), vec![0, 1]);
}

#[test]
fn mode_switches_keep_the_tiles() {
    let mut view = CanvasView::new();
    view.tiles[0].url_input = "typed".to_string();
    let windows: Vec<BrowserTile> = view.switch_to_windows_mode();
    assert_eq!(view.view_mode, ViewMode::Windows);
    assert_eq!(windows.len(), 2);
    assert_eq!(windows[0].id, 0);
    assert_eq!(windows[0].url_input, "typed");
    assert_eq!(windows[1].id, 1);
    view.switch_to_canvas_mode();
    assert_eq!(view.view_mode, ViewMode::Canvas);
    assert_eq!(ids(&view), vec![0, 1]);
}

#[test]
fn navigation_shows_loading_then_the_page() {
    let mut view = CanvasView::new();
    view.navigate_tile(0, "https://e.x".to_string());
    assert_eq!(view.tiles[0].url, "https://e.x");
    assert_eq!(view.tiles[0].title, "Loading\u{2026}");
    assert!(matches!(view.tiles[0].content, TileContent::Loading));
    view.finish_tile_navigation(0, Ok("<b>Hi</b> there<br>more".to_string()));
    assert_eq!(view.tiles[0].title, "Hi there");
    match &view.tiles[0].content {
        TileContent::Loaded(lines) => assert_eq!(lines, &vec!["Hi there".to_string(), "more".to_string()]),
        _ => panic!("expected loaded content"),
    }
    assert_eq!(view.tiles[1].title, "New Tab");
}

#[test]
fn failed_or_empty_page_is_titled_by_its_address() {
    let mut view = CanvasView::new();
    view.navigate_tile(1, "https://down.x".to_string());
    view.finish_tile_navigation(1, Err("timed out".to_string()));
    assert_eq!(view.tiles[1].title, "https://down.x");
    assert!(matches!(&view.tiles[1].content, TileContent::Error(e) if e == "timed out"));
    view.navigate_tile(1, "https://empty.x".to_string());
    view.finish_tile_navigation(1, Ok("   ".to_string()));
    assert_eq!(view.tiles[1].title, "https://empty.x");
    assert!(matches!(&view.tiles[1].content, TileContent::Loaded(l) if l.is_empty()));
}

#[test]
fn load_for_a_closed_tile_changes_nothing() {
    let mut view = CanvasView::new();
    view.navigate_tile(0, "https://e.x".to_string());
    view.remove_tile(0);
    view.finish_tile_navigation(0, Ok("x".to_string()));
    assert_eq!(ids(&view), vec![1]);
    assert_eq!(view.tiles[0].title, "New Tab");
}

#[test]
fn topmost_hit_tile_decides_the_press() {
    let hits = vec![(0, TileHit::Header), (1, TileHit::CloseButton), (2, TileHit::Miss)];
    assert_eq!(mouse_down_action(&hits), MouseDownAction::CloseTile(1));
    let hits = vec![(0, TileHit::UrlBar), (1, TileHit::Miss)];
    assert_eq!(mouse_down_action(&hits), MouseDownAction::FocusUrlBar(0));
    let hits = vec![(4, TileHit::Header)];
    assert_eq!(mouse_down_action(&hits), MouseDownAction::MoveTile(4));
}

#[test]
fn press_that_hits_no_tile_pans() {
    let hits = vec![(0, TileHit::Miss), (1, TileHit::Miss)];
    assert_eq!(mouse_down_action(&hits), MouseDownAction::PanCanvas);
    assert_eq!(mouse_down_action(&Vec::new()), MouseDownAction::PanCanvas);
}

#[test]
fn url_bar_keys_reach_the_right_tile() {
    let mut view = CanvasView::new();
    assert!(matches!(view.url_bar_key_for_tile(1, "a", Some("a")), KeyAction::Redraw));
    assert!(matches!(view.url_bar_key_for_tile(1, "b", Some("b")), KeyAction::Redraw));
    assert_eq!(view.tiles[1].url_input, "ab");
    assert_eq!(view.tiles[0].url_input, "");
    match view.url_bar_key_for_tile(1, "return", None) {
        KeyAction::Navigate(url) => assert_eq!(url, "https://ab"),
        _ => panic!("expected navigation"),
    }
    assert!(matches!(view.url_bar_key_for_tile(5, "a", Some("a")), KeyAction::Ignore));
}

#[test]
fn unchanged_windows_sync_back_to_the_same_tiles() {
    let mut view = CanvasView::new();
    view.navigate_tile(0, "https://e.x".to_string());
    let windows = view.switch_to_windows_mode();
    for w in windows {
        view.sync_tile_from_window(w.id, w.url, w.url_input, w.title, w.content);
    }
    view.switch_to_canvas_mode();
    assert_eq!(ids(&view), vec![0, 1]);
    assert_eq!(view.tiles[0].url, "https://e.x");
    assert_eq!(view.tiles[0].title, "Loading\u{2026}");
    assert!(matches!(view.tiles[0].content, TileContent::Loading));
    assert_eq!(view.tiles[1].title, "New Tab");
}
