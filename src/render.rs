use vstd::prelude::*;
use crate::model::{Document, ParseError};
use crate::summary::{summarize, summary_of, DisplayRow};
use crate::text::{append_chars, chars_of, string_of};
use crate::view::ViewState;

verus! {

/// What the content region shows: the rows of the listing with the selected
/// row, or a single message in place of the listing.
pub enum Content {
    Table(Vec<DisplayRow>, usize),
    Message(String),
}

/// The text of a parse error: its reason, followed by the offending line
/// where there is one.
pub open spec fn error_text(reason: Seq<char>, line: Option<Seq<char>>) -> Seq<char> {
    match line {
        Some(l) => reason + seq![':', ' '] + l,
        None => reason,
    }
}

/// The message shown when the document from `endpoint` could not be parsed.
pub open spec fn failure_message(endpoint: Seq<char>, error: Seq<char>) -> Seq<char> {
    seq!['M', 'e', 't', 'r', 'i', 'c', 's', ' ', 'f', 'r', 'o', 'm', ' '] + endpoint + seq![
        ' ', 'c', 'o', 'u', 'l', 'd', ' ', 'n', 'o', 't', ' ', 'b', 'e', ' ', 'p', 'a', 'r', 's',
        'e', 'd', ':', ' ',
    ] + error
}

/// Renders a parse error as text.
pub fn describe_error(e: &ParseError) -> (r: String)
    ensures
        r@ == error_text(e.reason@, match e.line {
            Some(l) => Some(l@),
            None => None,
        }),
{
    let mut out = chars_of(e.reason.as_str());
    match &e.line {
        Some(l) => {
            let sep: Vec<char> = vec![':', ' '];
            append_chars(&mut out, &sep);
            let lc = chars_of(l.as_str());
            append_chars(&mut out, &lc);
        },
        None => {},
    }
    let n = out.len();
    string_of(&out, 0, n)
}

/// The display rows of a document, one per family, in the document's order.
pub fn rows_of(doc: &Document) -> (r: Vec<DisplayRow>)
    ensures
        r@.len() == doc@.len(),
        forall|i: int|
            0 <= i < r@.len() ==> {
                &&& (#[trigger] r@[i]).name@ == doc@[i].name
                &&& r@[i].kind@ == doc@[i].kind
                &&& r@[i].summary@ == summary_of(doc@[i])
            },
{
    let mut rows: Vec<DisplayRow> = Vec::new();
    let mut i: usize = 0;
    while i < doc.families.len()
        invariant
            i <= doc.families@.len(),
            doc@.len() == doc.families@.len(),
            rows@.len() == i,
            forall|k: int|
                0 <= k < i ==> {
                    &&& (#[trigger] rows@[k]).name@ == doc@[k].name
                    &&& rows@[k].kind@ == doc@[k].kind
                    &&& rows@[k].summary@ == summary_of(doc@[k])
                },
        decreases doc.families@.len() - i,
    {
        let row = summarize(&doc.families[i]);
        rows.push(row);
        i = i + 1;
    }
    rows
}

/// What the content region shows for a state: the listing with the current
/// offset selected where the document parsed, else the endpoint and the
/// error text.
pub fn content(state: &ViewState) -> (r: Content)
    ensures
        state.outcome matches Ok(d) ==> (r matches Content::Table(rows, sel) && sel
            == state.offset && rows@.len() == d@.len() && forall|i: int|
            0 <= i < rows@.len() ==> {
                &&& (#[trigger] rows@[i]).name@ == d@[i].name
                &&& rows@[i].kind@ == d@[i].kind
                &&& rows@[i].summary@ == summary_of(d@[i])
            }),
        state.outcome matches Err(e) ==> (r matches Content::Message(m) && m@ == failure_message(
            state.endpoint@,
            error_text(e.reason@, match e.line {
                Some(l) => Some(l@),
                None => None,
            }),
        )),
{
    match &state.outcome {
        Ok(doc) => Content::Table(rows_of(doc), state.offset),
        Err(e) => {
            let mut out: Vec<char> = vec![
                'M', 'e', 't', 'r', 'i', 'c', 's', ' ', 'f', 'r', 'o', 'm', ' ',
            ];
            let ep = chars_of(state.endpoint.as_str());
            append_chars(&mut out, &ep);
            let mid: Vec<char> = vec![
                ' ', 'c', 'o', 'u', 'l', 'd', ' ', 'n', 'o', 't', ' ', 'b', 'e', ' ', 'p', 'a',
                'r', 's', 'e', 'd', ':', ' ',
            ];
            append_chars(&mut out, &mid);
            let et = describe_error(e);
            let ec = chars_of(et.as_str());
            append_chars(&mut out, &ec);
            let n = out.len();
            let m = string_of(&out, 0, n);
            assert(m@ =~= failure_message(state.endpoint@, et@));
            Content::Message(m)
        },
    }
}

} // verus!
