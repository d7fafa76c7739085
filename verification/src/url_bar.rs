//! The URL bar of a tile: what a key press does to the typed text, and
//! which address Enter navigates to.

use vstd::prelude::*;

use crate::text::{
    chars_of, is_white, lemma_trim_ends, lemma_trim_unpadded, same_chars, string_of, trim,
    trim_chars,
};

verus! {

/// `s` begins with `prefix`.
pub open spec fn starts_with(s: Seq<char>, prefix: Seq<char>) -> bool {
    prefix.len() <= s.len() && s.take(prefix.len() as int) == prefix
}

/// A typed address, made absolute: kept when it names the `http` or `https`
/// scheme, else given the `https://` prefix.
pub open spec fn with_scheme(raw: Seq<char>) -> Seq<char> {
    if starts_with(raw, "http://"@) || starts_with(raw, "https://"@) {
        raw
    } else {
        "https://"@ + raw
    }
}

/// Where Enter in a URL bar holding `input` navigates: nowhere when the
/// input is blank, else to the trimmed input made absolute.
pub open spec fn navigation_target(input: Seq<char>) -> Option<Seq<char>> {
    let raw = trim(input);
    if raw.len() == 0 {
        None
    } else {
        Some(with_scheme(raw))
    }
}

/// Every character of `s` is printable ASCII: ASCII and not a control
/// character.
pub open spec fn is_typeable(s: Seq<char>) -> bool {
    forall|i: int| 0 <= i < s.len() ==> ' ' <= #[trigger] s[i] && s[i] <= '~'
}

/// What the view does after a key press in the URL bar.
pub enum KeyAction {
    /// Draw again.
    Redraw,
    /// Load the page at this address.
    Navigate(String),
    /// Nothing.
    Ignore,
}

/// A key action as plain values.
pub enum KeyActionModel {
    Redraw,
    Navigate(Seq<char>),
    Ignore,
}

impl View for KeyAction {
    type V = KeyActionModel;

    open spec fn view(&self) -> KeyActionModel {
        match self {
            KeyAction::Redraw => KeyActionModel::Redraw,
            KeyAction::Navigate(u) => KeyActionModel::Navigate(u@),
            KeyAction::Ignore => KeyActionModel::Ignore,
        }
    }
}

/// The URL bar's text after the key `key` was pressed, `typed` being the
/// text that the key produces, if any.
pub open spec fn edited_input(input: Seq<char>, key: Seq<char>, typed: Option<Seq<char>>) -> Seq<
    char,
> {
    if key == "backspace"@ {
        if input.len() > 0 {
            input.drop_last()
        } else {
            input
        }
    } else if key == "return"@ || key == "escape"@ {
        input
    } else {
        match typed {
            Some(t) => if is_typeable(t) {
                input + t
            } else {
                input
            },
            None => input,
        }
    }
}

/// What the view does after the key `key` was pressed in a URL bar
/// holding `input`.
pub open spec fn key_action(input: Seq<char>, key: Seq<char>, typed: Option<Seq<char>>) -> KeyActionModel {
    if key == "backspace"@ || key == "escape"@ {
        KeyActionModel::Redraw
    } else if key == "return"@ {
        match navigation_target(input) {
            Some(u) => KeyActionModel::Navigate(u),
            None => KeyActionModel::Ignore,
        }
    } else {
        match typed {
            Some(t) => if is_typeable(t) {
                KeyActionModel::Redraw
            } else {
                KeyActionModel::Ignore
            },
            None => KeyActionModel::Ignore,
        }
    }
}

/// `String::pop`: removes and returns the last character, if any.
#[verifier::external_body]
fn pop_char(s: &mut String) -> (res: Option<char>)
    ensures
        old(s)@.len() > 0 ==> res == Some(old(s)@.last()) && final(s)@ == old(s)@.drop_last(),
        old(s)@.len() == 0 ==> res.is_none() && final(s)@ == old(s)@,
{
    s.pop()
}

fn has_prefix(v: &Vec<char>, prefix: &str) -> (res: bool)
    ensures
        res == starts_with(v@, prefix@),
{
    let p = chars_of(prefix);
    if p.len() > v.len() {
        return false;
    }
    let mut k: usize = 0;
    while k < p.len()
        invariant
            k <= p.len() <= v.len(),
            p@ == prefix@,
            forall|j: int| 0 <= j < k ==> v@[j] == p@[j],
        decreases p.len() - k,
    {
        if v[k] != p[k] {
            assert(v@.take(p.len() as int)[k as int] != p@[k as int]);
            return false;
        }
        k = k + 1;
    }
    assert(v@.take(p.len() as int) =~= p@);
    true
}

/// Where Enter in a URL bar holding `input` navigates, if anywhere.
pub fn navigation_target_of(input: &str) -> (res: Option<String>)
    ensures
        res.is_some() == navigation_target(input@).is_some(),
        res matches Some(u) ==> Some(u@) == navigation_target(input@),
{
    let raw = trim_chars(&chars_of(input));
    if raw.len() == 0 {
        return None;
    }
    if has_prefix(&raw, "http://") || has_prefix(&raw, "https://") {
        Some(string_of(&raw))
    } else {
        let mut url = String::from_str("https://");
        let rest = string_of(&raw);
        url.append(rest.as_str());
        Some(url)
    }
}

fn is_typeable_str(s: &str) -> (res: bool)
    ensures
        res == is_typeable(s@),
{
    let v = chars_of(s);
    let mut k: usize = 0;
    while k < v.len()
        invariant
            k <= v.len(),
            v@ == s@,
            forall|j: int| 0 <= j < k ==> ' ' <= #[trigger] v@[j] && v@[j] <= '~',
        decreases v.len() - k,
    {
        if !(' ' <= v[k] && v[k] <= '~') {
            return false;
        }
        k = k + 1;
    }
    true
}

/// Handles a key pressed in a URL bar: Backspace deletes the last
/// character, Enter asks to navigate to the typed address, Escape only
/// redraws, and any other key appends the text it produces when that text
/// is printable ASCII.
pub fn url_bar_key(url_input: &mut String, key: &str, key_char: Option<&str>) -> (res: KeyAction)
    ensures
        final(url_input)@ == edited_input(
            old(url_input)@,
            key@,
            match key_char {
                Some(t) => Some(t@),
                None => None,
            },
        ),
        res@ == key_action(
            old(url_input)@,
            key@,
            match key_char {
                Some(t) => Some(t@),
                None => None,
            },
        ),
{
    let k = chars_of(key);
    if same_chars(&k, "backspace") {
        pop_char(url_input);
        KeyAction::Redraw
    } else if same_chars(&k, "return") {
        proof {
            reveal_strlit("backspace");
            reveal_strlit("return");
            reveal_strlit("escape");
        }
        assert("return"@[0] != "escape"@[0] && "return"@.len() != "backspace"@.len());
        match navigation_target_of(url_input.as_str()) {
            Some(url) => {
                assert(navigation_target(old(url_input)@) == Some(url@));
                KeyAction::Navigate(url)
            },
            None => KeyAction::Ignore,
        }
    } else if same_chars(&k, "escape") {
        proof {
            reveal_strlit("backspace");
            reveal_strlit("return");
            reveal_strlit("escape");
        }
        KeyAction::Redraw
    } else {
        match key_char {
            Some(t) => {
                if is_typeable_str(t) {
                    url_input.append(t);
                    KeyAction::Redraw
                } else {
                    KeyAction::Ignore
                }
            },
            None => KeyAction::Ignore,
        }
    }
}

/// The text that a URL bar shows: the input with a caret while it has the
/// focus, a hint while it is empty, else the input.
pub open spec fn url_bar_text(input: Seq<char>, focused: bool) -> Seq<char> {
    if focused {
        input.push('|')
    } else if input.len() == 0 {
        "Enter URL\u{2026}"@
    } else {
        input
    }
}

/// The text that a URL bar shows.
pub fn url_input_display(input: &str, focused: bool) -> (res: String)
    ensures
        res@ == url_bar_text(input@, focused),
{
    if focused {
        let mut s = String::from_str(input);
        s.append("|");
        proof {
            reveal_strlit("|");
        }
        s
    } else if input.is_empty() {
        String::from_str("Enter URL\u{2026}")
    } else {
        String::from_str(input)
    }
}

/// Enter always navigates to an `http` or `https` address.
pub proof fn law_target_has_web_scheme(input: Seq<char>)
    ensures
        navigation_target(input) matches Some(u) ==> starts_with(u, "http://"@) || starts_with(
            u,
            "https://"@,
        ),
{
    let raw = trim(input);
    if raw.len() > 0 && !(starts_with(raw, "http://"@) || starts_with(raw, "https://"@)) {
        let u = "https://"@ + raw;
        assert(u.take("https://"@.len() as int) =~= "https://"@);
    }
}

/// The address that Enter navigates to is where Enter navigates again when
/// the URL bar holds that address.
pub proof fn law_target_is_stable(input: Seq<char>)
    ensures
        navigation_target(input) matches Some(u) ==> navigation_target(u) == Some(u),
{
    let raw = trim(input);
    lemma_trim_ends(input);
    if raw.len() > 0 {
        law_target_has_web_scheme(input);
        let u = with_scheme(raw);
        reveal_strlit("https://");
        assert(u.len() > 0);
        if u != raw {
            assert(u[0] == 'h');
            assert(u.last() == raw.last());
            assert(!is_white(u[0]));
        }
        lemma_trim_unpadded(u);
    }
}

/// Typing a printable character and then Backspace leaves the URL bar as
/// it was.
pub proof fn law_backspace_undoes_typing(input: Seq<char>, key: Seq<char>, c: char)
    requires
        key != "backspace"@,
        key != "return"@,
        key != "escape"@,
        ' ' <= c <= '~',
    ensures
        edited_input(edited_input(input, key, Some(seq![c])), "backspace"@, None) == input,
{
    assert(is_typeable(seq![c]));
    assert((input + seq![c]).drop_last() =~= input);
}

} // verus!
