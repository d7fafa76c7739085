//! What holds of every page that `html_to_text` converts.

use vstd::prelude::*;

use crate::html::{
    break_to_space, close_tag, collapse, decode_entity, entity_end, finish,
    lemma_entity_end_bounds, page_lines, scan, scan_start, tag_name, Scan,
};
use crate::text::{lemma_trim_idempotent, lemma_trim_keeps, trim};

verus! {

/// Every line of `lines` has no white space at either end.
pub open spec fn all_trimmed(lines: Seq<Seq<char>>) -> bool {
    forall|k: int| 0 <= k < lines.len() ==> trim(#[trigger] lines[k]) == lines[k]
}

/// Every line of `lines` is empty.
pub open spec fn all_empty(lines: Seq<Seq<char>>) -> bool {
    forall|k: int| 0 <= k < lines.len() ==> (#[trigger] lines[k]).len() == 0
}

/// `s` holds no markup, no character reference and no line break.
pub open spec fn is_plain_text(s: Seq<char>) -> bool {
    forall|i: int|
        0 <= i < s.len() ==> #[trigger] s[i] != '<' && s[i] != '&' && s[i] != '\n' && s[i]
            != '\r'
}

proof fn lemma_push_trimmed(lines: Seq<Seq<char>>, line: Seq<char>)
    requires
        all_trimmed(lines),
    ensures
        all_trimmed(lines.push(trim(line))),
{
    lemma_trim_idempotent(line);
    let l2 = lines.push(trim(line));
    assert forall|k: int| 0 <= k < l2.len() implies trim(#[trigger] l2[k]) == l2[k] by {
        if k < lines.len() {
            assert(l2[k] == lines[k]);
        }
    }
}

proof fn lemma_scan_trimmed(s: Seq<char>, i: int, st: Scan)
    requires
        all_trimmed(st.lines),
    ensures
        all_trimmed(scan(s, i, st).lines),
    decreases s.len() - i,
{
    if 0 <= i < s.len() {
        let ch = s[i];
        if st.in_tag {
            if ch == '>' {
                lemma_push_trimmed(st.lines, st.line);
                lemma_scan_trimmed(s, i + 1, close_tag(st));
            } else {
                lemma_scan_trimmed(s, i + 1, Scan { tag: st.tag.push(ch), ..st });
            }
        } else if ch == '<' {
            lemma_scan_trimmed(s, i + 1, Scan { in_tag: true, tag: Seq::empty(), ..st });
        } else if st.in_script || st.in_style {
            lemma_scan_trimmed(s, i + 1, st);
        } else if ch == '&' {
            let e = crate::html::entity_end(s, i, i + 1);
            lemma_entity_end_bounds(s, i, i + 1);
            let name = s.subrange(i + 1, e);
            if e < s.len() && s[e] == ';' {
                lemma_scan_trimmed(
                    s,
                    e + 1,
                    Scan { line: st.line + crate::html::decode_entity(name), ..st },
                );
            } else {
                lemma_scan_trimmed(s, e, Scan { line: st.line.push('&') + name, ..st });
            }
        } else if ch == '\n' || ch == '\r' {
            lemma_scan_trimmed(
                s,
                i + 1,
                Scan { line: crate::html::break_to_space(st.line), ..st },
            );
        } else {
            lemma_scan_trimmed(s, i + 1, Scan { line: st.line.push(ch), ..st });
        }
    }
}

proof fn lemma_collapse_keeps(lines: Seq<Seq<char>>, p: bool, pred: spec_fn(Seq<char>) -> bool)
    requires
        forall|k: int| 0 <= k < lines.len() ==> pred(#[trigger] lines[k]),
    ensures
        forall|k: int|
            0 <= k < collapse(lines, p).len() ==> pred(#[trigger] collapse(lines, p)[k]),
    decreases lines.len(),
{
    if lines.len() > 0 {
        let rest = lines.drop_first();
        assert forall|k: int| 0 <= k < rest.len() implies pred(#[trigger] rest[k]) by {
            assert(rest[k] == lines[k + 1]);
        }
        let blank = trim(lines[0]).len() == 0;
        lemma_collapse_keeps(rest, p, pred);
        lemma_collapse_keeps(rest, blank, pred);
        if !(blank && p) {
            let r = collapse(lines, p);
            assert(r == seq![lines[0]] + collapse(rest, blank));
            assert forall|k: int| 0 <= k < r.len() implies pred(#[trigger] r[k]) by {
                if k > 0 {
                    assert(r[k] == collapse(rest, blank)[k - 1]);
                }
            }
        } else {
            assert(collapse(lines, p) == collapse(rest, p));
        }
    }
}

proof fn lemma_collapse_no_blank_runs(lines: Seq<Seq<char>>, p: bool)
    ensures
        p ==> collapse(lines, p).len() == 0 || trim(collapse(lines, p)[0]).len() != 0,
        forall|k: int|
            0 <= k < collapse(lines, p).len() - 1 ==> !(trim(#[trigger] collapse(lines, p)[k]).len()
                == 0 && trim(collapse(lines, p)[k + 1]).len() == 0),
    decreases lines.len(),
{
    if lines.len() > 0 {
        let rest = lines.drop_first();
        let blank = trim(lines[0]).len() == 0;
        lemma_collapse_no_blank_runs(rest, p);
        lemma_collapse_no_blank_runs(rest, blank);
        if !(blank && p) {
            let r = collapse(lines, p);
            let t = collapse(rest, blank);
            assert(r == seq![lines[0]] + t);
            assert forall|k: int| 0 <= k < r.len() - 1 implies !(trim(#[trigger] r[k]).len() == 0
                && trim(r[k + 1]).len() == 0) by {
                assert(r[k + 1] == t[k]);
                if k > 0 {
                    assert(r[k] == t[k - 1]);
                }
            }
        }
    }
}

/// Every line that `html_to_text` returns is trimmed: it neither starts nor
/// ends with white space.
pub proof fn law_lines_are_trimmed(html: Seq<char>)
    ensures
        all_trimmed(page_lines(html)),
{
    let st = scan(html, 0, scan_start());
    lemma_scan_trimmed(html, 0, scan_start());
    let fl = finish(st);
    if trim(st.line).len() > 0 {
        lemma_push_trimmed(st.lines, st.line);
    }
    let pred = |l: Seq<char>| trim(l) == l;
    assert forall|k: int| 0 <= k < fl.len() implies pred(#[trigger] fl[k]) by {}
    lemma_collapse_keeps(fl, false, pred);
    assert forall|k: int| 0 <= k < page_lines(html).len() implies trim(
        #[trigger] page_lines(html)[k],
    ) == page_lines(html)[k] by {
        assert(pred(page_lines(html)[k]));
    }
}

/// `html_to_text` never returns two empty lines in a row.
pub proof fn law_no_two_empty_lines_in_a_row(html: Seq<char>)
    ensures
        forall|k: int|
            0 <= k < page_lines(html).len() - 1 ==> !((#[trigger] page_lines(html)[k]).len() == 0
                && page_lines(html)[k + 1].len() == 0),
{
    let fl = finish(scan(html, 0, scan_start()));
    lemma_collapse_no_blank_runs(fl, false);
    law_lines_are_trimmed(html);
    let r = page_lines(html);
    assert forall|k: int| 0 <= k < r.len() - 1 implies !((#[trigger] r[k]).len() == 0 && r[k
        + 1].len() == 0) by {
        assert(trim(r[k]) == r[k]);
        assert(trim(r[k + 1]) == r[k + 1]);
    }
}

/// The state of a scan that has read only plain text, `line` so far.
pub open spec fn text_state(line: Seq<char>) -> Scan {
    Scan {
        lines: Seq::empty(),
        line,
        in_tag: false,
        in_script: false,
        in_style: false,
        tag: Seq::empty(),
    }
}

proof fn lemma_scan_plain(s: Seq<char>, i: int)
    requires
        is_plain_text(s),
        0 <= i <= s.len(),
    ensures
        scan(s, i, text_state(s.take(i))) == text_state(s),
    decreases s.len() - i,
{
    if i < s.len() {
        assert(s.take(i).push(s[i]) =~= s.take(i + 1));
        lemma_scan_plain(s, i + 1);
    } else {
        assert(s.take(i) =~= s);
    }
}

/// Plain text, with no markup, no character reference and no line break,
/// comes back as one line, trimmed, or as no line at all when it is blank.
pub proof fn law_plain_text_is_one_line(text: Seq<char>)
    requires
        is_plain_text(text),
    ensures
        trim(text).len() > 0 ==> page_lines(text) == seq![trim(text)],
        trim(text).len() == 0 ==> page_lines(text) == Seq::<Seq<char>>::empty(),
{
    assert(text.take(0) =~= Seq::<char>::empty());
    assert(text_state(text.take(0)) == scan_start());
    lemma_scan_plain(text, 0);
    lemma_trim_idempotent(text);
    let one = seq![trim(text)];
    if trim(text).len() > 0 {
        assert(finish(text_state(text)) =~= one);
        assert(one.drop_first() =~= Seq::<Seq<char>>::empty());
        assert(collapse(one, false) == seq![one[0]] + collapse(one.drop_first(), false));
        assert(collapse(one, false) =~= one);
    }
}

/// The scan state is hidden: a `script` or `style` tag has been seen, no
/// text is pending and all finished lines are empty.
pub open spec fn hidden(st: Scan) -> bool {
    &&& st.in_script || st.in_style
    &&& st.line.len() == 0
    &&& all_empty(st.lines)
}

proof fn lemma_scan_hidden(s: Seq<char>, i: int, st: Scan)
    requires
        hidden(st),
    ensures
        hidden(scan(s, i, st)),
    decreases s.len() - i,
{
    if 0 <= i < s.len() {
        let ch = s[i];
        if st.in_tag {
            if ch == '>' {
                let e: Seq<char> = Seq::empty();
                assert(trim(st.line) == e);
                let c = close_tag(st);
                assert forall|k: int| 0 <= k < c.lines.len() implies (#[trigger] c.lines[k]).len()
                    == 0 by {
                    if k < st.lines.len() {
                        assert(st.lines.push(trim(st.line))[k] == st.lines[k]);
                    }
                }
                lemma_scan_hidden(s, i + 1, c);
            } else {
                lemma_scan_hidden(s, i + 1, Scan { tag: st.tag.push(ch), ..st });
            }
        } else if ch == '<' {
            lemma_scan_hidden(s, i + 1, Scan { in_tag: true, tag: Seq::empty(), ..st });
        } else {
            lemma_scan_hidden(s, i + 1, st);
        }
    }
}

proof fn lemma_scan_tag_text(s: Seq<char>, tag: Seq<char>, j: int, st: Scan)
    requires
        0 <= j <= tag.len(),
        tag.len() + 1 <= s.len(),
        forall|k: int| 0 <= k < tag.len() ==> s[k + 1] == #[trigger] tag[k] && tag[k] != '>',
        st.in_tag,
        st.tag == tag.take(j),
    ensures
        scan(s, j + 1, st) == scan(s, tag.len() + 1int, Scan { tag, ..st }),
    decreases tag.len() - j,
{
    if j < tag.len() {
        assert(s[j + 1] == tag[j]);
        assert(tag.take(j).push(tag[j]) =~= tag.take(j + 1));
        lemma_scan_tag_text(s, tag, j + 1, Scan { tag: st.tag.push(s[j + 1]), ..st });
    } else {
        assert(tag.take(j) =~= tag);
        assert(st == Scan { tag, ..st });
    }
}

/// A `script` or `style` tag hides the rest of the page: after it, no text
/// comes out, only empty lines (at most one, by the law on empty lines).
pub proof fn law_script_or_style_hides_the_rest(tag: Seq<char>, rest: Seq<char>)
    requires
        tag_name(tag) == "script"@ || tag_name(tag) == "style"@,
        forall|k: int| 0 <= k < tag.len() ==> #[trigger] tag[k] != '>',
    ensures
        all_empty(page_lines(seq!['<'] + tag + seq!['>'] + rest)),
{
    let s = seq!['<'] + tag + seq!['>'] + rest;
    let n = tag.len() as int;
    let st0 = Scan { in_tag: true, tag: Seq::empty(), ..scan_start() };
    assert(scan(s, 0, scan_start()) == scan(s, 1, st0));
    assert forall|k: int| 0 <= k < tag.len() implies s[k + 1] == #[trigger] tag[k] && tag[k]
        != '>' by {}
    assert(tag.take(0) =~= Seq::<char>::empty());
    lemma_scan_tag_text(s, tag, 0, st0);
    let st1 = Scan { tag, ..st0 };
    assert(s[n + 1] == '>');
    let st2 = close_tag(st1);
    reveal_strlit("br");
    reveal_strlit("script");
    reveal_strlit("style");
    assert("br"@.len() == 2 && "script"@.len() == 6 && "style"@.len() == 5);
    assert(tag_name(tag) != "br"@);
    assert(scan(s, n + 1, st1) == scan(s, n + 2, st2));
    assert(hidden(st2));
    lemma_scan_hidden(s, n + 2, st2);
    let fin = scan(s, 0, scan_start());
    let e: Seq<char> = Seq::empty();
    assert(trim(fin.line) == e);
    let pred = |l: Seq<char>| l.len() == 0;
    assert forall|k: int| 0 <= k < fin.lines.len() implies pred(#[trigger] fin.lines[k]) by {}
    lemma_collapse_keeps(fin.lines, false, pred);
    assert forall|k: int| 0 <= k < page_lines(s).len() implies (
    #[trigger] page_lines(s)[k]).len() == 0 by {
        assert(pred(page_lines(s)[k]));
    }
}

/// `line` holds no `<` and no line break.
pub open spec fn free_of_markup(line: Seq<char>) -> bool {
    forall|i: int| 0 <= i < line.len() ==> #[trigger] line[i] != '<' && line[i] != '\n' && line[i] != '\r'
}

/// The state holds no `<` and no line break, in its line or its lines.
pub open spec fn scan_free_of_markup(st: Scan) -> bool {
    &&& free_of_markup(st.line)
    &&& forall|k: int| 0 <= k < st.lines.len() ==> free_of_markup(#[trigger] st.lines[k])
}

proof fn lemma_trim_free(line: Seq<char>)
    requires
        free_of_markup(line),
    ensures
        free_of_markup(trim(line)),
{
    let p = |c: char| c != '<' && c != '\n' && c != '\r';
    assert forall|i: int| 0 <= i < line.len() implies p(#[trigger] line[i]) by {}
    lemma_trim_keeps(line, p);
    assert forall|i: int| 0 <= i < trim(line).len() implies #[trigger] trim(line)[i] != '<'
        && trim(line)[i] != '\n' && trim(line)[i] != '\r' by {
        assert(p(trim(line)[i]));
    }
}

proof fn lemma_scan_free(s: Seq<char>, i: int, st: Scan)
    requires
        forall|k: int| 0 <= k < s.len() ==> #[trigger] s[k] != '&',
        scan_free_of_markup(st),
    ensures
        scan_free_of_markup(scan(s, i, st)),
    decreases s.len() - i,
{
    if 0 <= i < s.len() {
        let ch = s[i];
        if st.in_tag {
            if ch == '>' {
                let c = close_tag(st);
                lemma_trim_free(st.line);
                assert forall|k: int| 0 <= k < c.lines.len() implies free_of_markup(
                    #[trigger] c.lines[k],
                ) by {
                    if k < st.lines.len() {
                        assert(c.lines[k] == st.lines[k]);
                    }
                }
                lemma_scan_free(s, i + 1, c);
            } else {
                lemma_scan_free(s, i + 1, Scan { tag: st.tag.push(ch), ..st });
            }
        } else if ch == '<' {
            lemma_scan_free(s, i + 1, Scan { in_tag: true, tag: Seq::empty(), ..st });
        } else if st.in_script || st.in_style {
            lemma_scan_free(s, i + 1, st);
        } else if ch == '\n' || ch == '\r' {
            let l = crate::html::break_to_space(st.line);
            assert(free_of_markup(l));
            lemma_scan_free(s, i + 1, Scan { line: l, ..st });
        } else {
            assert(ch != '&');
            assert(free_of_markup(st.line.push(ch)));
            lemma_scan_free(s, i + 1, Scan { line: st.line.push(ch), ..st });
        }
    }
}

/// A page without `&` gives lines that hold no `<` and no line break: all
/// markup is taken out, and line breaks become spaces.
pub proof fn law_no_markup_left_without_references(html: Seq<char>)
    requires
        forall|k: int| 0 <= k < html.len() ==> #[trigger] html[k] != '&',
    ensures
        forall|k: int| 0 <= k < page_lines(html).len() ==> free_of_markup(#[trigger] page_lines(html)[k]),
{
    assert(scan_free_of_markup(scan_start()));
    lemma_scan_free(html, 0, scan_start());
    let st = scan(html, 0, scan_start());
    let fl = finish(st);
    lemma_trim_free(st.line);
    let pred = |l: Seq<char>| free_of_markup(l);
    assert forall|k: int| 0 <= k < fl.len() implies pred(#[trigger] fl[k]) by {
        if k < st.lines.len() {
            assert(fl[k] == st.lines[k]);
        }
    }
    lemma_collapse_keeps(fl, false, pred);
    assert forall|k: int| 0 <= k < page_lines(html).len() implies free_of_markup(
        #[trigger] page_lines(html)[k],
    ) by {
        assert(pred(page_lines(html)[k]));
    }
}

proof fn lemma_entity_end_shift(pre: Seq<char>, p: Seq<char>, start: int, j: int)
    requires
        0 <= start,
        start < j,
    ensures
        entity_end(pre + p, pre.len() + start, pre.len() + j) == pre.len() + entity_end(
            p,
            start,
            j,
        ),
    decreases p.len() - j,
{
    let s = pre + p;
    let n = pre.len() as int;
    if j < p.len() {
        assert(s[n + j] == p[j]);
        if p[j] != ';' && p[j] != ' ' && j - start < 12 {
            lemma_entity_end_shift(pre, p, start, j + 1);
        }
    }
}

/// The scan from a position on depends only on the characters from there on.
proof fn lemma_scan_shift(pre: Seq<char>, p: Seq<char>, i: int, st: Scan)
    requires
        0 <= i,
    ensures
        scan(pre + p, pre.len() + i, st) == scan(p, i, st),
    decreases p.len() - i,
{
    let s = pre + p;
    let n = pre.len() as int;
    if i < p.len() {
        let ch = p[i];
        assert(s[n + i] == ch);
        if st.in_tag {
            if ch == '>' {
                lemma_scan_shift(pre, p, i + 1, close_tag(st));
            } else {
                lemma_scan_shift(pre, p, i + 1, Scan { tag: st.tag.push(ch), ..st });
            }
        } else if ch == '<' {
            lemma_scan_shift(pre, p, i + 1, Scan { in_tag: true, tag: Seq::empty(), ..st });
        } else if st.in_script || st.in_style {
            lemma_scan_shift(pre, p, i + 1, st);
        } else if ch == '&' {
            let e = entity_end(p, i, i + 1);
            lemma_entity_end_bounds(p, i, i + 1);
            lemma_entity_end_shift(pre, p, i, i + 1);
            assert(entity_end(s, n + i, n + i + 1) == n + e);
            let name = p.subrange(i + 1, e);
            assert(s.subrange(n + i + 1, n + e) =~= name);
            if e < p.len() {
                assert(s[n + e] == p[e]);
            }
            if e < p.len() && p[e] == ';' {
                lemma_scan_shift(pre, p, e + 1, Scan { line: st.line + decode_entity(name), ..st });
            } else {
                lemma_scan_shift(pre, p, e, Scan { line: st.line.push('&') + name, ..st });
            }
        } else if ch == '\n' || ch == '\r' {
            lemma_scan_shift(pre, p, i + 1, Scan { line: break_to_space(st.line), ..st });
        } else {
            lemma_scan_shift(pre, p, i + 1, Scan { line: st.line.push(ch), ..st });
        }
    }
}

/// A tag that is none of `br`, `script` and `style` changes nothing: the
/// page reads as if the tag were not there.
pub proof fn law_other_tags_leave_the_text_alone(tag: Seq<char>, rest: Seq<char>)
    requires
        forall|k: int| 0 <= k < tag.len() ==> #[trigger] tag[k] != '>',
        tag_name(tag) != "br"@,
        tag_name(tag) != "script"@,
        tag_name(tag) != "style"@,
    ensures
        page_lines(seq!['<'] + tag + seq!['>'] + rest) == page_lines(rest),
{
    let pre = seq!['<'] + tag + seq!['>'];
    let s = seq!['<'] + tag + seq!['>'] + rest;
    let n = tag.len() as int;
    let st0 = Scan { in_tag: true, tag: Seq::empty(), ..scan_start() };
    assert(scan(s, 0, scan_start()) == scan(s, 1, st0));
    assert forall|k: int| 0 <= k < tag.len() implies s[k + 1] == #[trigger] tag[k] && tag[k]
        != '>' by {}
    assert(tag.take(0) =~= Seq::<char>::empty());
    lemma_scan_tag_text(s, tag, 0, st0);
    let st1 = Scan { tag, ..st0 };
    assert(s[n + 1] == '>');
    assert(scan(s, n + 1, st1) == scan(s, n + 2, close_tag(st1)));
    assert(close_tag(st1) == scan_start());
    assert(s =~= pre + rest);
    lemma_scan_shift(pre, rest, 0, scan_start());
    assert(scan(s, n + 2, scan_start()) == scan(rest, 0, scan_start()));
}

proof fn lemma_scan_plain_run(s: Seq<char>, i: int, m: int, st: Scan)
    requires
        0 <= i <= m <= s.len(),
        forall|k: int|
            i <= k < m ==> #[trigger] s[k] != '<' && s[k] != '&' && s[k] != '\n' && s[k] != '\r',
        !st.in_tag,
        !st.in_script,
        !st.in_style,
    ensures
        scan(s, i, st) == scan(s, m, Scan { line: st.line + s.subrange(i, m), ..st }),
    decreases m - i,
{
    if i < m {
        let st2 = Scan { line: st.line.push(s[i]), ..st };
        lemma_scan_plain_run(s, i + 1, m, st2);
        assert(st2.line + s.subrange(i + 1, m) =~= st.line + s.subrange(i, m));
    } else {
        assert(st.line + s.subrange(i, m) =~= st.line);
        assert(st == Scan { line: st.line + s.subrange(i, m), ..st });
    }
}

/// `<br>` (in any case, with any attributes) between two pieces of plain
/// text that are not blank splits them into two lines, each trimmed.
pub proof fn law_br_splits_lines(a: Seq<char>, tag: Seq<char>, b: Seq<char>)
    requires
        is_plain_text(a),
        is_plain_text(b),
        trim(a).len() > 0,
        trim(b).len() > 0,
        forall|k: int| 0 <= k < tag.len() ==> #[trigger] tag[k] != '>',
        tag_name(tag) == "br"@,
    ensures
        page_lines(a + seq!['<'] + tag + seq!['>'] + b) == seq![trim(a), trim(b)],
{
    let mid = seq!['<'] + tag + seq!['>'];
    let rest = mid + b;
    let s = a + seq!['<'] + tag + seq!['>'] + b;
    assert(s =~= a + rest);
    let n = tag.len() as int;
    // the text before the tag
    lemma_scan_plain_run(a, 0, a.len() as int, scan_start());
    assert(Seq::<char>::empty() + a.subrange(0, a.len() as int) =~= a);
    let sa = Scan { line: a, ..scan_start() };
    lemma_scan_plain_run(s, 0, a.len() as int, scan_start());
    assert forall|k: int| 0 <= k < a.len() implies s[k] == #[trigger] a[k] by {}
    assert(s.subrange(0, a.len() as int) =~= a);
    lemma_scan_shift(a, rest, 0, sa);
    // the tag
    let st0 = Scan { in_tag: true, tag: Seq::empty(), ..sa };
    assert(rest[0] == '<');
    assert(scan(rest, 0, sa) == scan(rest, 1, st0));
    assert forall|k: int| 0 <= k < tag.len() implies rest[k + 1] == #[trigger] tag[k] && tag[k]
        != '>' by {}
    assert(tag.take(0) =~= Seq::<char>::empty());
    lemma_scan_tag_text(rest, tag, 0, st0);
    let st1 = Scan { tag, ..st0 };
    assert(rest[n + 1] == '>');
    let st2 = close_tag(st1);
    reveal_strlit("br");
    reveal_strlit("script");
    reveal_strlit("style");
    assert("br"@.len() == 2 && "script"@.len() == 6 && "style"@.len() == 5);
    assert(scan(rest, n + 1, st1) == scan(rest, n + 2, st2));
    assert(st2.lines == seq![trim(a)]);
    assert(st2.line.len() == 0);
    // the text after the tag
    lemma_scan_shift(mid, b, 0, st2);
    lemma_scan_plain_run(b, 0, b.len() as int, st2);
    assert(st2.line + b.subrange(0, b.len() as int) =~= b);
    let fin = scan(s, 0, scan_start());
    assert(fin.lines == seq![trim(a)]);
    assert(fin.line == b);
    let fl = finish(fin);
    assert(fl =~= seq![trim(a), trim(b)]);
    lemma_trim_idempotent(a);
    lemma_trim_idempotent(b);
    reveal_with_fuel(collapse, 3);
    assert(fl.drop_first() =~= seq![trim(b)]);
    assert(fl.drop_first().drop_first() =~= Seq::<Seq<char>>::empty());
    assert(collapse(fl, false) =~= fl);
}

} // verus!
