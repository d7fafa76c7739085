//! Character-level helpers on strings: white space, trimming, tokens.

use vstd::prelude::*;

verus! {

/// `c` is white space in the sense of Unicode's `White_Space` property,
/// which is what `char::is_whitespace` tests.
pub open spec fn is_white(c: char) -> bool {
    ||| c == ' '
    ||| ('\u{9}' <= c && c <= '\u{d}')
    ||| c == '\u{85}'
    ||| c == '\u{a0}'
    ||| c == '\u{1680}'
    ||| ('\u{2000}' <= c && c <= '\u{200a}')
    ||| c == '\u{2028}'
    ||| c == '\u{2029}'
    ||| c == '\u{202f}'
    ||| c == '\u{205f}'
    ||| c == '\u{3000}'
}

/// Executable test for white space.
pub fn is_white_char(c: char) -> (res: bool)
    ensures
        res == is_white(c),
{
    c == ' ' || ('\u{9}' <= c && c <= '\u{d}') || c == '\u{85}' || c == '\u{a0}' || c
        == '\u{1680}' || ('\u{2000}' <= c && c <= '\u{200a}') || c == '\u{2028}' || c
        == '\u{2029}' || c == '\u{202f}' || c == '\u{205f}' || c == '\u{3000}'
}


/// `s` with its leading white space removed.
pub open spec fn trim_start(s: Seq<char>) -> Seq<char>
    decreases s.len(),
{
    if s.len() > 0 && is_white(s[0]) {
        trim_start(s.drop_first())
    } else {
        s
    }
}

/// `s` with its trailing white space removed.
pub open spec fn trim_end(s: Seq<char>) -> Seq<char>
    decreases s.len(),
{
    if s.len() > 0 && is_white(s.last()) {
        trim_end(s.drop_last())
    } else {
        s
    }
}

/// `s` with white space removed at both ends, as `str::trim` does.
pub open spec fn trim(s: Seq<char>) -> Seq<char> {
    trim_end(trim_start(s))
}

/// The longest prefix of `s` that holds no white space.
pub open spec fn leading_word(s: Seq<char>) -> Seq<char>
    decreases s.len(),
{
    if s.len() == 0 || is_white(s[0]) {
        Seq::empty()
    } else {
        seq![s[0]] + leading_word(s.drop_first())
    }
}

/// The first white-space separated word of `s`, or nothing when `s` is blank:
/// what `s.split_whitespace().next().unwrap_or("")` gives.
pub open spec fn first_word(s: Seq<char>) -> Seq<char> {
    leading_word(trim_start(s))
}

/// `s` with every leading `/` removed, as `trim_start_matches('/')` does.
pub open spec fn strip_slashes(s: Seq<char>) -> Seq<char>
    decreases s.len(),
{
    if s.len() > 0 && s[0] == '/' {
        strip_slashes(s.drop_first())
    } else {
        s
    }
}

proof fn lemma_trim_start_skip(s: Seq<char>, i: int)
    requires
        0 <= i <= s.len(),
        forall|j: int| 0 <= j < i ==> is_white(#[trigger] s[j]),
    ensures
        trim_start(s) == trim_start(s.skip(i)),
    decreases i,
{
    if i > 0 {
        assert(s.skip(1) =~= s.drop_first());
        lemma_trim_start_skip(s.drop_first(), i - 1);
        assert(s.drop_first().skip(i - 1) =~= s.skip(i));
    } else {
        assert(s.skip(0) =~= s);
    }
}

proof fn lemma_trim_end_take(s: Seq<char>, i: int)
    requires
        0 <= i <= s.len(),
        forall|j: int| i <= j < s.len() ==> is_white(#[trigger] s[j]),
    ensures
        trim_end(s) == trim_end(s.take(i)),
    decreases s.len() - i,
{
    if i < s.len() {
        lemma_trim_end_take(s.drop_last(), i);
        assert(s.drop_last().take(i) =~= s.take(i));
    } else {
        assert(s.take(i) =~= s);
    }
}

/// Copies `v[a..b]` into a new vector.
pub fn copy_range(v: &Vec<char>, a: usize, b: usize) -> (res: Vec<char>)
    requires
        a <= b <= v.len(),
    ensures
        res@ == v@.subrange(a as int, b as int),
{
    let mut res: Vec<char> = Vec::new();
    let mut k: usize = a;
    while k < b
        invariant
            a <= k <= b <= v.len(),
            res@ == v@.subrange(a as int, k as int),
        decreases b - k,
    {
        res.push(v[k]);
        k = k + 1;
    }
    res
}

/// White space removed at both ends, as `str::trim` does.
pub fn trim_chars(v: &Vec<char>) -> (res: Vec<char>)
    ensures
        res@ == trim(v@),
{
    let n = v.len();
    let mut a: usize = 0;
    while a < n && is_white_char(v[a])
        invariant
            a <= n == v.len(),
            forall|j: int| 0 <= j < a ==> is_white(#[trigger] v@[j]),
        decreases n - a,
    {
        a = a + 1;
    }
    proof {
        lemma_trim_start_skip(v@, a as int);
        if a < n {
            assert(trim_start(v@.skip(a as int)) == v@.skip(a as int));
        } else {
            assert(v@.skip(a as int).len() == 0);
        }
    }
    let mut b: usize = n;
    while b > a && is_white_char(v[b - 1])
        invariant
            a <= b <= n == v.len(),
            forall|j: int| b <= j < n ==> is_white(#[trigger] v@[j]),
        decreases b,
    {
        b = b - 1;
    }
    let res = copy_range(v, a, b);
    proof {
        let t = v@.skip(a as int);
        assert forall|j: int| (b - a) <= j < t.len() implies is_white(#[trigger] t[j]) by {
            assert(t[j] == v@[j + a]);
        }
        lemma_trim_end_take(t, (b - a) as int);
        assert(t.take((b - a) as int) =~= res@);
        if b > a {
            assert(res@.last() == v@[b - 1]);
        }
    }
    res
}

proof fn lemma_leading_word_take(t: Seq<char>, k: int)
    requires
        0 <= k <= t.len(),
        forall|j: int| 0 <= j < k ==> !is_white(#[trigger] t[j]),
        k == t.len() || is_white(t[k]),
    ensures
        leading_word(t) == t.take(k),
    decreases k,
{
    if k == 0 {
        assert(t.take(0) =~= Seq::<char>::empty());
    } else {
        lemma_leading_word_take(t.drop_first(), k - 1);
        assert(seq![t[0]] + t.drop_first().take(k - 1) =~= t.take(k));
    }
}

proof fn lemma_strip_slashes_skip(s: Seq<char>, i: int)
    requires
        0 <= i <= s.len(),
        forall|j: int| 0 <= j < i ==> #[trigger] s[j] == '/',
    ensures
        strip_slashes(s) == strip_slashes(s.skip(i)),
    decreases i,
{
    if i > 0 {
        lemma_strip_slashes_skip(s.drop_first(), i - 1);
        assert(s.drop_first().skip(i - 1) =~= s.skip(i));
    } else {
        assert(s.skip(0) =~= s);
    }
}

/// The first white-space separated word, or nothing for a blank input.
pub fn first_word_chars(v: &Vec<char>) -> (res: Vec<char>)
    ensures
        res@ == first_word(v@),
{
    let n = v.len();
    let mut a: usize = 0;
    while a < n && is_white_char(v[a])
        invariant
            a <= n == v.len(),
            forall|j: int| 0 <= j < a ==> is_white(#[trigger] v@[j]),
        decreases n - a,
    {
        a = a + 1;
    }
    let mut c: usize = a;
    while c < n && !is_white_char(v[c])
        invariant
            a <= c <= n == v.len(),
            forall|j: int| a <= j < c ==> !is_white(#[trigger] v@[j]),
        decreases n - c,
    {
        c = c + 1;
    }
    let res = copy_range(v, a, c);
    proof {
        lemma_trim_start_skip(v@, a as int);
        let t = v@.skip(a as int);
        if a < n {
            assert(trim_start(t) == t);
        } else {
            assert(t.len() == 0);
        }
        assert forall|j: int| 0 <= j < c - a implies !is_white(#[trigger] t[j]) by {
            assert(t[j] == v@[j + a]);
        }
        if c < n {
            assert(t[c - a] == v@[c as int]);
        }
        lemma_leading_word_take(t, (c - a) as int);
        assert(t.take((c - a) as int) =~= res@);
    }
    res
}

/// Leading `/` characters removed, as `trim_start_matches('/')` does.
pub fn strip_slashes_chars(v: &Vec<char>) -> (res: Vec<char>)
    ensures
        res@ == strip_slashes(v@),
{
    let n = v.len();
    let mut a: usize = 0;
    while a < n && v[a] == '/'
        invariant
            a <= n == v.len(),
            forall|j: int| 0 <= j < a ==> #[trigger] v@[j] == '/',
        decreases n - a,
    {
        a = a + 1;
    }
    let res = copy_range(v, a, n);
    proof {
        lemma_strip_slashes_skip(v@, a as int);
        assert(v@.skip(a as int) =~= res@);
    }
    res
}

/// Appends `c` to `s`: `String::push`.
#[verifier::external_body]
pub(crate) fn push_char(s: &mut String, c: char)
    ensures
        final(s)@ == old(s)@.push(c),
{
    s.push(c);
}

/// The characters of `s`, in order.
pub fn chars_of(s: &str) -> (res: Vec<char>)
    ensures
        res@ == s@,
{
    let mut res: Vec<char> = Vec::new();
    for c in it: s.chars()
        invariant
            res@ == it.seq().take(it.index() as int),
    {
        res.push(c);
    }
    res
}

/// A string holding the characters of `v`, in order.
pub fn string_of(v: &Vec<char>) -> (res: String)
    ensures
        res@ == v@,
{
    let mut res = String::new();
    let mut k: usize = 0;
    while k < v.len()
        invariant
            k <= v.len(),
            res@ == v@.take(k as int),
        decreases v.len() - k,
    {
        push_char(&mut res, v[k]);
        assert(v@.take(k as int).push(v@[k as int]) =~= v@.take(k + 1));
        k = k + 1;
    }
    assert(v@.take(v.len() as int) =~= v@);
    res
}

/// `v` holds exactly the characters of `lit`.
pub fn same_chars(v: &Vec<char>, lit: &str) -> (res: bool)
    ensures
        res == (v@ == lit@),
{
    let w = chars_of(lit);
    if v.len() != w.len() {
        return false;
    }
    let mut k: usize = 0;
    while k < v.len()
        invariant
            k <= v.len() == w.len(),
            w@ == lit@,
            forall|j: int| 0 <= j < k ==> v@[j] == w@[j],
        decreases v.len() - k,
    {
        if v[k] != w[k] {
            return false;
        }
        k = k + 1;
    }
    assert(v@ =~= w@);
    true
}

proof fn lemma_trim_start_head(s: Seq<char>)
    ensures
        trim_start(s).len() == 0 || !is_white(trim_start(s)[0]),
    decreases s.len(),
{
    if s.len() > 0 && is_white(s[0]) {
        lemma_trim_start_head(s.drop_first());
    }
}

proof fn lemma_trim_end_last(s: Seq<char>)
    ensures
        trim_end(s).len() == 0 || !is_white(trim_end(s).last()),
        trim_end(s).len() <= s.len(),
        trim_end(s) == s.take(trim_end(s).len() as int),
    decreases s.len(),
{
    if s.len() > 0 && is_white(s.last()) {
        lemma_trim_end_last(s.drop_last());
        assert(s.drop_last().take(trim_end(s).len() as int) =~= s.take(trim_end(s).len() as int));
    } else {
        assert(s.take(s.len() as int) =~= s);
    }
}

/// Trimming twice is trimming once: a trimmed string has no white space at
/// either end.
pub proof fn lemma_trim_idempotent(s: Seq<char>)
    ensures
        trim(trim(s)) == trim(s),
{
    let u = trim_start(s);
    let t = trim_end(u);
    lemma_trim_start_head(s);
    lemma_trim_end_last(u);
    if t.len() > 0 {
        assert(t[0] == u[0]);
        assert(trim_start(t) == t);
        assert(!is_white(t.last()));
        assert(trim_end(t) == t);
    } else {
        assert(trim_start(t) == t);
        assert(trim_end(t) == t);
    }
}

/// A trimmed string that is not empty neither starts nor ends with white space.
pub proof fn lemma_trim_ends(s: Seq<char>)
    ensures
        trim(s).len() > 0 ==> !is_white(trim(s)[0]) && !is_white(trim(s).last()),
{
    let u = trim_start(s);
    lemma_trim_start_head(s);
    lemma_trim_end_last(u);
    if trim(s).len() > 0 {
        assert(trim(s)[0] == u[0]);
    }
}

/// A string that neither starts nor ends with white space is its own trim.
pub proof fn lemma_trim_unpadded(s: Seq<char>)
    requires
        s.len() > 0,
        !is_white(s[0]),
        !is_white(s.last()),
    ensures
        trim(s) == s,
{
}

proof fn lemma_trim_start_keeps(s: Seq<char>, p: spec_fn(char) -> bool)
    requires
        forall|i: int| 0 <= i < s.len() ==> p(#[trigger] s[i]),
    ensures
        forall|j: int| 0 <= j < trim_start(s).len() ==> p(#[trigger] trim_start(s)[j]),
    decreases s.len(),
{
    if s.len() > 0 && is_white(s[0]) {
        let t = s.drop_first();
        assert forall|i: int| 0 <= i < t.len() implies p(#[trigger] t[i]) by {
            assert(t[i] == s[i + 1]);
        }
        lemma_trim_start_keeps(t, p);
        assert(trim_start(s) == trim_start(t));
    } else {
        assert(trim_start(s) == s);
    }
}

proof fn lemma_trim_end_keeps(s: Seq<char>, p: spec_fn(char) -> bool)
    requires
        forall|i: int| 0 <= i < s.len() ==> p(#[trigger] s[i]),
    ensures
        forall|j: int| 0 <= j < trim_end(s).len() ==> p(#[trigger] trim_end(s)[j]),
    decreases s.len(),
{
    if s.len() > 0 && is_white(s.last()) {
        let t = s.drop_last();
        assert forall|i: int| 0 <= i < t.len() implies p(#[trigger] t[i]) by {
            assert(t[i] == s[i]);
        }
        lemma_trim_end_keeps(t, p);
        assert(trim_end(s) == trim_end(t));
    } else {
        assert(trim_end(s) == s);
    }
}

/// Trimming only removes characters: what holds of every character of `s`
/// holds of every character of its trim.
pub proof fn lemma_trim_keeps(s: Seq<char>, p: spec_fn(char) -> bool)
    requires
        forall|i: int| 0 <= i < s.len() ==> p(#[trigger] s[i]),
    ensures
        forall|j: int| 0 <= j < trim(s).len() ==> p(#[trigger] trim(s)[j]),
{
    lemma_trim_start_keeps(s, p);
    lemma_trim_end_keeps(trim_start(s), p);
}

} // verus!
