use vstd::prelude::*;
use crate::text::{chars_of, string_of, append_chars};

verus! {

/// Characters that a URL scheme is made of.
pub open spec fn is_scheme_char(c: char) -> bool {
    ('a' <= c && c <= 'z') || ('A' <= c && c <= 'Z') || ('0' <= c && c <= '9') || c == '+' || c
        == '-' || c == '.'
}

/// The length of the run of scheme characters that `s` starts with, from `i` on.
pub open spec fn scheme_len(s: Seq<char>, i: int) -> int
    decreases s.len() - i,
{
    if 0 <= i < s.len() && is_scheme_char(s[i]) {
        scheme_len(s, i + 1)
    } else {
        i
    }
}

/// Whether `s` names a scheme: a non-empty run of scheme characters followed by `://`.
pub open spec fn has_scheme(s: Seq<char>) -> bool {
    let i = scheme_len(s, 0);
    1 <= i && i + 3 <= s.len() && s[i] == ':' && s[i + 1] == '/' && s[i + 2] == '/'
}

/// The scheme written in front of an endpoint that names none.
pub open spec fn default_scheme() -> Seq<char> {
    seq!['h', 't', 't', 'p', ':', '/', '/']
}

/// The address that is requested for an endpoint given by the user.
pub open spec fn normalized(s: Seq<char>) -> Seq<char> {
    if has_scheme(s) {
        s
    } else {
        default_scheme() + s
    }
}

proof fn lemma_scheme_len_of_default(s: Seq<char>)
    ensures
        scheme_len(default_scheme() + s, 0) == 4,
{
    let t = default_scheme() + s;
    assert(t[0] == 'h' && t[1] == 't' && t[2] == 't' && t[3] == 'p' && t[4] == ':');
    assert(scheme_len(t, 4) == 4);
    assert(scheme_len(t, 3) == 4);
    assert(scheme_len(t, 2) == 4);
    assert(scheme_len(t, 1) == 4);
}

/// Normalizing twice is normalizing once, and an endpoint without a scheme
/// reaches the same address as its `http://` form.
pub proof fn lemma_normalized_idempotent(s: Seq<char>)
    ensures
        normalized(normalized(s)) == normalized(s),
        !has_scheme(s) ==> normalized(default_scheme() + s) == normalized(s),
{
    lemma_scheme_len_of_default(s);
    let t = default_scheme() + s;
    assert(t[4] == ':' && t[5] == '/' && t[6] == '/');
    assert(has_scheme(t));
}

fn scheme_char(c: char) -> (r: bool)
    ensures
        r == is_scheme_char(c),
{
    ('a' <= c && c <= 'z') || ('A' <= c && c <= 'Z') || ('0' <= c && c <= '9') || c == '+' || c
        == '-' || c == '.'
}

/// Gives the endpoint a scheme: `http://` is put in front unless the text
/// already names one (as in `https://host/metrics`).
pub fn normalize_endpoint(endpoint: &str) -> (r: String)
    ensures
        r@ == normalized(endpoint@),
{
    let cs = chars_of(endpoint);
    let n = cs.len();
    let mut i: usize = 0;
    while i < n && scheme_char(cs[i])
        invariant
            i <= n == cs@.len(),
            scheme_len(cs@, 0) == scheme_len(cs@, i as int),
        decreases n - i,
    {
        i = i + 1;
    }
    if i >= 1 && n >= 3 && i <= n - 3 && cs[i] == ':' && cs[i + 1] == '/' && cs[i + 2] == '/' {
        string_of(&cs, 0, n)
    } else {
        let mut out: Vec<char> = vec!['h', 't', 't', 'p', ':', '/', '/'];
        append_chars(&mut out, &cs);
        let m = out.len();
        string_of(&out, 0, m)
    }
}

/// Whether a response status lets the body be used: a 2xx status does.
pub open spec fn status_accepted(status: u16) -> bool {
    200 <= status < 300
}

/// Whether a response with this status is to be read.
pub fn status_ok(status: u16) -> (r: bool)
    ensures
        r == status_accepted(status),
{
    200 <= status && status < 300
}

/// Decides what a fetch yields from the response status and body: the body
/// when the status is a success (2xx), else the status itself as the error.
pub fn fetch_outcome(status: u16, body: String) -> (r: Result<String, u16>)
    ensures
        status_accepted(status) ==> r == Ok::<String, u16>(body),
        !status_accepted(status) ==> r == Err::<String, u16>(status),
{
    if 200 <= status && status < 300 {
        Ok(body)
    } else {
        Err(status)
    }
}

} // verus!
