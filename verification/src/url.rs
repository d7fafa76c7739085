//! A parsed web address.

use vstd::prelude::*;

use crate::text::chars_of;

verus! {

/// Whether `Url::parse` (of the `url` crate, which `reqwest` re-exports)
/// accepts the text `input` as an absolute URL.
pub uninterp spec fn url_parse_accepts(input: Seq<char>) -> bool;

/// The serialization (`Url::as_str`) of the URL that `Url::parse` makes of
/// the text `input`, where it accepts it.
pub uninterp spec fn url_serialization(input: Seq<char>) -> Seq<char>;

/// `reqwest::Url::parse`, with the parsed URL given by its serialization
/// (`Url::as_str`): it succeeds exactly when `url_parse_accepts` holds of the
/// input, and then yields `url_serialization` of the input.
#[verifier::external_body]
fn parse_url(input: &str) -> (res: Option<String>)
    ensures
        res.is_some() == url_parse_accepts(input@),
        res matches Some(s) ==> s@ == url_serialization(input@),
{
    match reqwest::Url::parse(input) {
        Ok(url) => Some(url.as_str().to_string()),
        Err(_) => None,
    }
}

/// A web address that has been parsed, held as its serialization.
#[derive(Debug, Clone)]
pub struct URL {
    url: String,
}

impl URL {
    /// Parses `url`; `None` when it is not an absolute URL.
    pub fn url(url: String) -> (res: Option<Self>)
        ensures
            res.is_some() == url_parse_accepts(url@),
            res matches Some(u) ==> u.address() == url_serialization(url@),
    {
        match parse_url(url.as_str()) {
            Some(parsed) => Some(URL { url: parsed }),
            None => None,
        }
    }

    /// The serialization of the parsed address that this value holds.
    pub closed spec fn address(&self) -> Seq<char> {
        self.url@
    }

    /// The parsed address, serialized.
    pub fn parsed(&self) -> (res: &str)
        ensures
            res@ == self.address(),
    {
        self.url.as_str()
    }
}

/// The code of `c` with an ASCII capital letter taken to its small letter.
pub open spec fn lower_code(c: char) -> u32 {
    if 'A' <= c && c <= 'Z' {
        (c as u32 + 32) as u32
    } else {
        c as u32
    }
}

/// `a` and `b` are equal when ASCII letters are compared without case, as
/// header names are compared.
pub open spec fn same_ignoring_ascii_case(a: Seq<char>, b: Seq<char>) -> bool {
    a.len() == b.len() && forall|i: int| 0 <= i < a.len() ==> lower_code(#[trigger] a[i])
        == lower_code(b[i])
}

/// A response header that `request` refuses: a transfer or content encoding.
pub open spec fn is_encoding_header_name(name: Seq<char>) -> bool {
    same_ignoring_ascii_case(name, "transfer-encoding"@) || same_ignoring_ascii_case(
        name,
        "content-encoding"@,
    )
}

fn lower_code_of(c: char) -> (res: u32)
    ensures
        res == lower_code(c),
{
    if 'A' <= c && c <= 'Z' {
        c as u32 + 32
    } else {
        c as u32
    }
}

fn same_ignoring_case(a: &str, b: &str) -> (res: bool)
    ensures
        res == same_ignoring_ascii_case(a@, b@),
{
    let x = chars_of(a);
    let y = chars_of(b);
    if x.len() != y.len() {
        return false;
    }
    let mut k: usize = 0;
    while k < x.len()
        invariant
            k <= x.len() == y.len(),
            x@ == a@,
            y@ == b@,
            forall|j: int| 0 <= j < k ==> lower_code(#[trigger] x@[j]) == lower_code(y@[j]),
        decreases x.len() - k,
    {
        if lower_code_of(x[k]) != lower_code_of(y[k]) {
            return false;
        }
        k = k + 1;
    }
    true
}

/// Whether a response header named `name` is one that `request` refuses:
/// `transfer-encoding` or `content-encoding`, in any ASCII case.
pub fn is_encoding_header(name: &str) -> (res: bool)
    ensures
        res == is_encoding_header_name(name@),
{
    same_ignoring_case(name, "transfer-encoding") || same_ignoring_case(name, "content-encoding")
}

} // verus!
