//! Turning an HTML page into the plain text lines that a tile shows.

use vstd::prelude::*;

use crate::text::{
    chars_of, first_word, first_word_chars, same_chars, string_of, strip_slashes,
    strip_slashes_chars, trim, trim_chars,
};

verus! {

/// What `str::to_lowercase` returns for a string with characters `s`
/// (Unicode lowercase mapping, with the final-sigma rule).
pub uninterp spec fn lowercase(s: Seq<char>) -> Seq<char>;

/// `str::to_lowercase`: its result is `lowercase` of its argument.
#[verifier::external_body]
fn to_lowercase(s: &str) -> (res: String)
    ensures
        res@ == lowercase(s@),
{
    s.to_lowercase()
}

/// The name that a tag's text `tag` (what stands between `<` and `>`) is
/// matched by: trimmed, lowercased, cut at the first white space, and with
/// its leading slashes removed.
pub open spec fn tag_name(tag: Seq<char>) -> Seq<char> {
    strip_slashes(first_word(lowercase(trim(tag))))
}

/// The state of the scan over a page.
#[verifier::ext_equal]
pub struct Scan {
    /// Lines finished so far.
    pub lines: Seq<Seq<char>>,
    /// The line being built.
    pub line: Seq<char>,
    /// Inside `<` ... `>`.
    pub in_tag: bool,
    /// A `script` tag has been seen.
    pub in_script: bool,
    /// A `style` tag has been seen.
    pub in_style: bool,
    /// The text of the tag being read.
    pub tag: Seq<char>,
}

/// The state before the first character.
pub open spec fn scan_start() -> Scan {
    Scan {
        lines: Seq::empty(),
        line: Seq::empty(),
        in_tag: false,
        in_script: false,
        in_style: false,
        tag: Seq::empty(),
    }
}

/// What a `>` does when the tag is named `name`: `br` ends the line, and
/// `script` and `style` hide all further text.
pub open spec fn apply_tag(st: Scan, name: Seq<char>) -> Scan {
    let breaks = name == "br"@;
    Scan {
        lines: if breaks { st.lines.push(trim(st.line)) } else { st.lines },
        line: if breaks { Seq::empty() } else { st.line },
        in_tag: false,
        in_script: st.in_script || name == "script"@,
        in_style: st.in_style || name == "style"@,
        tag: Seq::empty(),
    }
}

/// What a `>` does: the tag's name decides. Since the name has lost its
/// leading slashes, only `br` ends a line; `script` and `style`, opening or
/// closing, hide all further text.
pub open spec fn close_tag(st: Scan) -> Scan {
    apply_tag(st, tag_name(st.tag))
}

/// Where the name of an entity that starts with `&` at `start` ends: at the
/// first `;` or space after `start`, at the end of `s`, or after eleven
/// characters, whichever comes first.
pub open spec fn entity_end(s: Seq<char>, start: int, j: int) -> int
    decreases s.len() - j,
{
    if j < s.len() && s[j] != ';' && s[j] != ' ' && j - start < 12 {
        entity_end(s, start, j + 1)
    } else {
        j
    }
}

/// The text that a named character reference `&name;` stands for.
pub open spec fn decode_entity(name: Seq<char>) -> Seq<char> {
    if name == "amp"@ {
        seq!['&']
    } else if name == "lt"@ {
        seq!['<']
    } else if name == "gt"@ {
        seq!['>']
    } else if name == "nbsp"@ {
        seq![' ']
    } else if name == "quot"@ {
        seq!['"']
    } else if name == "apos"@ {
        seq!['\'']
    } else if name == "copy"@ {
        seq!['\u{a9}']
    } else if name == "reg"@ {
        seq!['\u{ae}']
    } else if name == "mdash"@ {
        seq!['\u{2014}']
    } else if name == "ndash"@ {
        seq!['\u{2013}']
    } else if name == "hellip"@ {
        seq!['.', '.', '.']
    } else if name == "laquo"@ {
        seq!['\u{ab}']
    } else if name == "raquo"@ {
        seq!['\u{bb}']
    } else {
        Seq::empty()
    }
}

/// A line break in the source becomes one space, unless the line is empty
/// or already ends with a space.
pub open spec fn break_to_space(line: Seq<char>) -> Seq<char> {
    if line.len() > 0 && line.last() != ' ' {
        line.push(' ')
    } else {
        line
    }
}

pub proof fn lemma_entity_end_bounds(s: Seq<char>, start: int, j: int)
    ensures
        entity_end(s, start, j) >= j,
        j <= s.len() ==> entity_end(s, start, j) <= s.len(),
    decreases s.len() - j,
{
    if j < s.len() && s[j] != ';' && s[j] != ' ' && j - start < 12 {
        lemma_entity_end_bounds(s, start, j + 1);
    }
}

/// The scan of `s` from position `i` on, starting in state `st`.
pub open spec fn scan(s: Seq<char>, i: int, st: Scan) -> Scan
    decreases s.len() - i,
{
    if i < 0 || i >= s.len() {
        st
    } else {
        let ch = s[i];
        if st.in_tag {
            if ch == '>' {
                scan(s, i + 1, close_tag(st))
            } else {
                scan(s, i + 1, Scan { tag: st.tag.push(ch), ..st })
            }
        } else if ch == '<' {
            scan(s, i + 1, Scan { in_tag: true, tag: Seq::empty(), ..st })
        } else if st.in_script || st.in_style {
            scan(s, i + 1, st)
        } else if ch == '&' {
            let e = entity_end(s, i, i + 1);
            proof {
                lemma_entity_end_bounds(s, i, i + 1);
            }
            let name = s.subrange(i + 1, e);
            if e < s.len() && s[e] == ';' {
                scan(s, e + 1, Scan { line: st.line + decode_entity(name), ..st })
            } else {
                scan(s, e, Scan { line: st.line.push('&') + name, ..st })
            }
        } else if ch == '\n' || ch == '\r' {
            scan(s, i + 1, Scan { line: break_to_space(st.line), ..st })
        } else {
            scan(s, i + 1, Scan { line: st.line.push(ch), ..st })
        }
    }
}

/// The lines at the end of the scan: the last line is kept when it is not blank.
pub open spec fn finish(st: Scan) -> Seq<Seq<char>> {
    if trim(st.line).len() > 0 {
        st.lines.push(trim(st.line))
    } else {
        st.lines
    }
}

/// `lines` with every blank line dropped that follows a blank line
/// (`prev_blank` tells whether the line before `lines[0]` was blank).
pub open spec fn collapse(lines: Seq<Seq<char>>, prev_blank: bool) -> Seq<Seq<char>>
    decreases lines.len(),
{
    if lines.len() == 0 {
        Seq::empty()
    } else {
        let blank = trim(lines[0]).len() == 0;
        if blank && prev_blank {
            collapse(lines.drop_first(), prev_blank)
        } else {
            seq![lines[0]] + collapse(lines.drop_first(), blank)
        }
    }
}

/// The text lines of the page `html`.
pub open spec fn page_lines(html: Seq<char>) -> Seq<Seq<char>> {
    collapse(finish(scan(html, 0, scan_start())), false)
}

/// The names on which the scan ends a line: `br` and the closing tags of
/// paragraphs, blocks, headings, list items and table cells.
pub open spec fn breaks_line(name: Seq<char>) -> bool {
    ||| name == "br"@
    ||| name == "/p"@
    ||| name == "/div"@
    ||| name == "/h1"@
    ||| name == "/h2"@
    ||| name == "/h3"@
    ||| name == "/h4"@
    ||| name == "/h5"@
    ||| name == "/h6"@
    ||| name == "/li"@
    ||| name == "/tr"@
    ||| name == "/td"@
    ||| name == "/th"@
}

/// The names after which the scan adds a blank line: closing top-level headings.
pub open spec fn ends_heading(name: Seq<char>) -> bool {
    name == "/h1"@ || name == "/h2"@ || name == "/h3"@
}

/// A tag name has lost its leading slashes, so it is none of the closing
/// names above, and only `br` breaks a line.
pub proof fn lemma_name_has_no_slash(word: Seq<char>)
    ensures
        strip_slashes(word) != "/script"@,
        strip_slashes(word) != "/style"@,
        breaks_line(strip_slashes(word)) <==> strip_slashes(word) == "br"@,
        !ends_heading(strip_slashes(word)),
{
    lemma_strip_slashes_head(word);
    reveal_strlit("/script");
    reveal_strlit("/style");
    reveal_strlit("/p");
    reveal_strlit("/div");
    reveal_strlit("/h1");
    reveal_strlit("/h2");
    reveal_strlit("/h3");
    reveal_strlit("/h4");
    reveal_strlit("/h5");
    reveal_strlit("/h6");
    reveal_strlit("/li");
    reveal_strlit("/tr");
    reveal_strlit("/td");
    reveal_strlit("/th");
    let n = strip_slashes(word);
    if n.len() > 0 {
        assert(n[0] != '/');
        assert("/script"@[0] == '/');
        assert("/style"@[0] == '/');
        assert("/p"@[0] == '/');
        assert("/div"@[0] == '/');
        assert("/h1"@[0] == '/');
        assert("/h2"@[0] == '/');
        assert("/h3"@[0] == '/');
        assert("/h4"@[0] == '/');
        assert("/h5"@[0] == '/');
        assert("/h6"@[0] == '/');
        assert("/li"@[0] == '/');
        assert("/tr"@[0] == '/');
        assert("/td"@[0] == '/');
        assert("/th"@[0] == '/');
    }
}

proof fn lemma_strip_slashes_head(s: Seq<char>)
    ensures
        strip_slashes(s).len() == 0 || strip_slashes(s)[0] != '/',
    decreases s.len(),
{
    if s.len() > 0 && s[0] == '/' {
        lemma_strip_slashes_head(s.drop_first());
    }
}

/// The name of a tag from its text already trimmed and lowercased: its
/// first word, without leading slashes.
pub fn tag_name_from_lowercased(lowered: &str) -> (res: Vec<char>)
    ensures
        res@ == strip_slashes(first_word(lowered@)),
{
    let word = first_word_chars(&chars_of(lowered));
    strip_slashes_chars(&word)
}

fn is_line_break(name: &Vec<char>) -> (res: bool)
    ensures
        res == breaks_line(name@),
{
    same_chars(name, "br") || same_chars(name, "/p") || same_chars(name, "/div") || same_chars(
        name,
        "/h1",
    ) || same_chars(name, "/h2") || same_chars(name, "/h3") || same_chars(name, "/h4")
        || same_chars(name, "/h5") || same_chars(name, "/h6") || same_chars(name, "/li")
        || same_chars(name, "/tr") || same_chars(name, "/td") || same_chars(name, "/th")
}

fn is_heading_end(name: &Vec<char>) -> (res: bool)
    ensures
        res == ends_heading(name@),
{
    same_chars(name, "/h1") || same_chars(name, "/h2") || same_chars(name, "/h3")
}

/// The text that `&name;` stands for.
fn decode_entity_chars(name: &Vec<char>) -> (res: Vec<char>)
    ensures
        res@ == decode_entity(name@),
{
    let mut res: Vec<char> = Vec::new();
    if same_chars(name, "amp") {
        res.push('&');
    } else if same_chars(name, "lt") {
        res.push('<');
    } else if same_chars(name, "gt") {
        res.push('>');
    } else if same_chars(name, "nbsp") {
        res.push(' ');
    } else if same_chars(name, "quot") {
        res.push('"');
    } else if same_chars(name, "apos") {
        res.push('\'');
    } else if same_chars(name, "copy") {
        res.push('\u{a9}');
    } else if same_chars(name, "reg") {
        res.push('\u{ae}');
    } else if same_chars(name, "mdash") {
        res.push('\u{2014}');
    } else if same_chars(name, "ndash") {
        res.push('\u{2013}');
    } else if same_chars(name, "hellip") {
        res.push('.');
        res.push('.');
        res.push('.');
    } else if same_chars(name, "laquo") {
        res.push('\u{ab}');
    } else if same_chars(name, "raquo") {
        res.push('\u{bb}');
    }
    assert(res@ =~= decode_entity(name@));
    res
}

/// Appends the characters of `src` to `dst`.
fn append_chars(dst: &mut Vec<char>, src: &Vec<char>)
    ensures
        final(dst)@ == old(dst)@ + src@,
{
    let mut k: usize = 0;
    while k < src.len()
        invariant
            k <= src.len(),
            dst@ == old(dst)@ + src@.take(k as int),
        decreases src.len() - k,
    {
        dst.push(src[k]);
        assert(src@.take(k as int).push(src@[k as int]) =~= src@.take(k + 1));
        k = k + 1;
    }
    assert(src@.take(src.len() as int) =~= src@);
}

/// The executable state of the scan over a page.
pub struct TextScan {
    /// Lines finished so far.
    pub lines: Vec<String>,
    /// The line being built.
    pub line: Vec<char>,
    /// Inside `<` ... `>`.
    pub in_tag: bool,
    /// A `script` tag has been seen.
    pub in_script: bool,
    /// A `style` tag has been seen.
    pub in_style: bool,
    /// The text of the tag being read.
    pub tag: Vec<char>,
}

impl View for TextScan {
    type V = Scan;

    open spec fn view(&self) -> Scan {
        Scan {
            lines: self.lines.deep_view(),
            line: self.line@,
            in_tag: self.in_tag,
            in_script: self.in_script,
            in_style: self.in_style,
            tag: self.tag@,
        }
    }
}

impl TextScan {
    /// The state before the first character.
    pub fn new() -> (res: Self)
        ensures
            res@ == scan_start(),
    {
        let res = TextScan {
            lines: Vec::new(),
            line: Vec::new(),
            in_tag: false,
            in_script: false,
            in_style: false,
            tag: Vec::new(),
        };
        assert(res@ =~= scan_start());
        res
    }

    /// The step at the `>` that ends a tag, given the tag's text already
    /// trimmed and lowercased: the tag's name, its first word without
    /// leading slashes, decides what happens.
    pub fn end_tag(&mut self, lowered: &str)
        ensures
            final(self)@ == apply_tag(old(self)@, strip_slashes(first_word(lowered@))),
    {
        let name = tag_name_from_lowercased(lowered);
        let ghost st = self@;
        proof {
            lemma_name_has_no_slash(first_word(lowered@));
            reveal_strlit("script");
            reveal_strlit("style");
            assert("script"@.len() != "style"@.len());
        }
        if same_chars(&name, "script") {
            self.in_script = true;
        } else if same_chars(&name, "/script") {
            self.in_script = false;
        } else if same_chars(&name, "style") {
            self.in_style = true;
        } else if same_chars(&name, "/style") {
            self.in_style = false;
        }
        if is_line_break(&name) {
            let trimmed = trim_chars(&self.line);
            let ghost before = self.lines.deep_view();
            self.lines.push(string_of(&trimmed));
            assert(self.lines.deep_view() =~= before.push(trim(st.line)));
            self.line = Vec::new();
        }
        if is_heading_end(&name) {
            self.lines.push(String::new());
        }
        self.tag = Vec::new();
        self.in_tag = false;
        let ghost cl = apply_tag(st, name@);
        assert(self.in_script == cl.in_script);
        assert(self.in_style == cl.in_style);
        assert(self.lines.deep_view() =~= cl.lines);
        assert(self.line@ =~= cl.line);
        assert(self@ =~= cl);
    }

    /// The step at the `>` that ends a tag.
    fn close_tag(&mut self)
        ensures
            final(self)@ == close_tag(old(self)@),
    {
        let trimmed = string_of(&trim_chars(&self.tag));
        let lower = to_lowercase(trimmed.as_str());
        self.end_tag(lower.as_str());
    }
}

/// Converts HTML to readable text lines.
///
/// Text outside tags is kept; a line break in the source becomes a space;
/// `<br>` ends a line; named character references are decoded; everything
/// after a `script` or `style` tag is hidden; lines are trimmed, and runs of
/// blank lines are cut down to one.
pub fn html_to_text(html: &str) -> (res: Vec<String>)
    ensures
        res.deep_view() == page_lines(html@),
{
    let chars = chars_of(html);
    let len = chars.len();
    let mut sc = TextScan::new();
    let mut i: usize = 0;
    while i < len
        invariant
            len == chars@.len(),
            chars@ == html@,
            i <= len,
            scan(chars@, i as int, sc@) == scan(chars@, 0, scan_start()),
        decreases len - i,
    {
        let ch = chars[i];
        if sc.in_tag {
            if ch == '>' {
                sc.close_tag();
            } else {
                sc.tag.push(ch);
            }
        } else if ch == '<' {
            sc.in_tag = true;
            sc.tag = Vec::new();
        } else if !sc.in_script && !sc.in_style {
            if ch == '&' {
                let mut entity: Vec<char> = Vec::new();
                let start = i;
                i = i + 1;
                while i < len && chars[i] != ';' && chars[i] != ' ' && i - start < 12
                    invariant
                        len == chars@.len(),
                        start < i <= len,
                        entity@ == chars@.subrange(start + 1, i as int),
                        entity_end(chars@, start as int, start + 1) == entity_end(
                            chars@,
                            start as int,
                            i as int,
                        ),
                    decreases len - i,
                {
                    entity.push(chars[i]);
                    i = i + 1;
                    assert(entity@ =~= chars@.subrange(start + 1, i as int));
                }
                if i < len && chars[i] == ';' {
                    let decoded = decode_entity_chars(&entity);
                    append_chars(&mut sc.line, &decoded);
                } else {
                    sc.line.push('&');
                    append_chars(&mut sc.line, &entity);
                    i = i - 1;
                }
            } else if ch == '\n' || ch == '\r' {
                if sc.line.len() > 0 && sc.line[sc.line.len() - 1] != ' ' {
                    sc.line.push(' ');
                }
            } else {
                sc.line.push(ch);
            }
        }
        i = i + 1;
    }
    let mut result = sc.lines;
    let last = trim_chars(&sc.line);
    if last.len() > 0 {
        let ghost before = result.deep_view();
        result.push(string_of(&last));
        assert(result.deep_view() =~= before.push(trim(sc.line@)));
    }
    collapse_blank_runs(&result)
}

/// Drops every blank line that follows a blank line.
fn collapse_blank_runs(lines: &Vec<String>) -> (res: Vec<String>)
    ensures
        res.deep_view() == collapse(lines.deep_view(), false),
{
    let mut cleaned: Vec<String> = Vec::new();
    let mut prev_empty = false;
    let mut k: usize = 0;
    assert(lines.deep_view().skip(0) =~= lines.deep_view());
    while k < lines.len()
        invariant
            k <= lines.len(),
            collapse(lines.deep_view(), false) == cleaned.deep_view() + collapse(
                lines.deep_view().skip(k as int),
                prev_empty,
            ),
        decreases lines.len() - k,
    {
        let ghost rest = lines.deep_view().skip(k as int);
        assert(rest[0] == lines[k as int]@);
        assert(rest.drop_first() =~= lines.deep_view().skip(k + 1));
        let is_empty = trim_chars(&chars_of(lines[k].as_str())).len() == 0;
        if !(is_empty && prev_empty) {
            prev_empty = is_empty;
            let ghost before = cleaned.deep_view();
            cleaned.push(lines[k].clone());
            assert(cleaned.deep_view() =~= before + seq![rest[0]]);
        }
        k = k + 1;
    }
    assert(lines.deep_view().skip(lines.len() as int) =~= Seq::<Seq<char>>::empty());
    assert(cleaned.deep_view() + Seq::<Seq<char>>::empty() =~= cleaned.deep_view());
    cleaned
}

} // verus!
