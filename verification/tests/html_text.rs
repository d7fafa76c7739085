use whiteboard_browser::html::{html_to_text, tag_name_from_lowercased, TextScan};

fn lines(html: &str) -> Vec<String> {
    html_to_text(html)
}

#[test]
fn plain_text_is_one_trimmed_line() {
    assert_eq!(lines("  hi there  "), vec!["hi there".to_string()]);
}

#[test]
fn empty_page_has_no_lines() {
    assert!(lines("").is_empty());
    assert!(lines("   ").is_empty());
}

#[test]
fn tags_are_dropped() {
    assert_eq!(lines("Hello <b>World</b>"), vec!["Hello World".to_string()]);
}

#[test]
fn br_ends_a_line() {
    assert_eq!(lines("a<br>b"), vec!["a".to_string(), "b".to_string()]);
    assert_eq!(lines("x<br />y"), vec!["x".to_string(), "y".to_string()]);
}

#[test]
fn upper_case_br_is_lowercased() {
    assert_eq!(lines("a<BR>b"), vec!["a".to_string(), "b".to_string()]);
}

#[test]
fn br_with_slash_attached_is_no_break() {
    assert_eq!(lines("a<br/>b"), vec!["ab".to_string()]);
}

#[test]
fn closing_block_tags_lose_their_slash_and_break_nothing() {
    assert_eq!(lines("<p>one</p><p>two</p>"), vec!["onetwo".to_string()]);
    assert_eq!(lines("<h1>Title</h1>Body"), vec!["TitleBody".to_string()]);
}

#[test]
fn script_hides_the_rest() {
    assert_eq!(lines("x<script>var a = 1;</script>y"), vec!["x".to_string()]);
}

#[test]
fn style_hides_the_rest() {
    assert!(lines("<style>p { color: red }</style>text").is_empty());
}

#[test]
fn hidden_page_keeps_one_empty_line_per_break_run() {
    assert_eq!(lines("<script>x<br>y<br>z"), vec![String::new()]);
}

#[test]
fn entities_are_decoded() {
    assert_eq!(lines("Tom &amp; Jerry"), vec!["Tom & Jerry".to_string()]);
    assert_eq!(lines("&lt;tag&gt;"), vec!["<tag>".to_string()]);
    assert_eq!(lines("&quot;q&quot; &apos;a&apos;"), vec!["\"q\" 'a'".to_string()]);
    assert_eq!(lines("&copy; 2024 &reg;"), vec!["\u{a9} 2024 \u{ae}".to_string()]);
    assert_eq!(lines("a&mdash;b&ndash;c"), vec!["a\u{2014}b\u{2013}c".to_string()]);
    assert_eq!(lines("wait&hellip;"), vec!["wait...".to_string()]);
    assert_eq!(lines("&laquo;x&raquo;"), vec!["\u{ab}x\u{bb}".to_string()]);
    assert_eq!(lines("a&nbsp;b"), vec!["a b".to_string()]);
}

#[test]
fn unknown_entity_decodes_to_nothing() {
    assert_eq!(lines("&unknown; x"), vec!["x".to_string()]);
}

#[test]
fn lone_ampersand_is_kept() {
    assert_eq!(lines("a & b"), vec!["a & b".to_string()]);
    assert_eq!(lines("&amp"), vec!["&amp".to_string()]);
}

#[test]
fn long_entity_name_is_kept_as_text() {
    assert_eq!(lines("&abcdefghijklmnop;"), vec!["&abcdefghijklmnop;".to_string()]);
}

#[test]
fn entity_name_runs_over_markup() {
    assert_eq!(lines("&a<b>c"), vec!["&a<b>c".to_string()]);
}

#[test]
fn line_breaks_become_single_spaces() {
    assert_eq!(lines("line1\nline2"), vec!["line1 line2".to_string()]);
    assert_eq!(lines("A\n\r\nB"), vec!["A B".to_string()]);
    assert_eq!(lines("\nA"), vec!["A".to_string()]);
}

#[test]
fn blank_line_runs_collapse_to_one() {
    assert_eq!(
        lines("a<br><br><br>b"),
        vec!["a".to_string(), String::new(), "b".to_string()]
    );
}

#[test]
fn blank_page_with_break_is_one_empty_line() {
    assert_eq!(lines("  <br>  "), vec![String::new()]);
}

#[test]
fn lines_are_trimmed() {
    for l in lines("  a  <br>\n b \n<br> c") {
        assert_eq!(l.trim(), l.as_str());
    }
}

#[test]
fn tag_name_takes_first_word_without_slashes() {
    let name: String = tag_name_from_lowercased("//div class=\"x\"").into_iter().collect();
    assert_eq!(name, "div");
    let empty: String = tag_name_from_lowercased("   ").into_iter().collect();
    assert_eq!(empty, "");
}

#[test]
fn end_tag_br_finishes_the_trimmed_line() {
    let mut sc = TextScan::new();
    sc.in_tag = true;
    sc.line = vec![' ', 'a', ' '];
    sc.tag = vec!['B', 'R'];
    sc.end_tag("br");
    assert_eq!(sc.lines, vec!["a".to_string()]);
    assert!(sc.line.is_empty());
    assert!(!sc.in_tag);
    assert!(sc.tag.is_empty());
    assert!(!sc.in_script && !sc.in_style);
}

#[test]
fn end_tag_script_or_style_hides_even_when_closing() {
    let mut sc = TextScan::new();
    sc.line = vec!['x'];
    sc.end_tag("/script");
    assert!(sc.in_script);
    assert_eq!(sc.line, vec!['x']);
    assert!(sc.lines.is_empty());
    sc.end_tag("style type=\"text/css\"");
    assert!(sc.in_style);
}

#[test]
fn end_tag_closing_paragraph_changes_nothing_but_the_tag() {
    let mut sc = TextScan::new();
    sc.line = vec!['p'];
    sc.end_tag("/p");
    assert_eq!(sc.line, vec!['p']);
    assert!(sc.lines.is_empty());
    assert!(!sc.in_script && !sc.in_style);
}

#[test]
fn page_without_references_keeps_no_markup() {
    for l in lines("a<b>c</b>\nd<br>e\r\nf") {
        assert!(!l.contains('<') && !l.contains('\n') && !l.contains('\r'));
    }
}
