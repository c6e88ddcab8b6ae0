use vstd::prelude::*;
use crate::model::{Sample, SampleView};
use crate::text::{chars_of, string_of};

verus! {

/// Blank characters between the words of a line.
pub open spec fn is_space(c: char) -> bool {
    c == ' ' || c == '\t' || c == '\r'
}

/// Characters that a metric name is made of.
pub open spec fn is_name_char(c: char) -> bool {
    ('a' <= c && c <= 'z') || ('A' <= c && c <= 'Z') || ('0' <= c && c <= '9') || c == '_'
        || c == ':'
}

/// The first index from `i` on that holds no blank (or the length).
pub open spec fn skip_spaces(s: Seq<char>, i: int) -> int
    decreases s.len() - i,
{
    if 0 <= i < s.len() && is_space(s[i]) {
        skip_spaces(s, i + 1)
    } else {
        i
    }
}

/// The end of the word that starts at `i`: the first blank from `i` on.
pub open spec fn word_end(s: Seq<char>, i: int) -> int
    decreases s.len() - i,
{
    if 0 <= i < s.len() && !is_space(s[i]) {
        word_end(s, i + 1)
    } else {
        i
    }
}

/// The end of the metric name that starts at `i`.
pub open spec fn name_end(s: Seq<char>, i: int) -> int
    decreases s.len() - i,
{
    if 0 <= i < s.len() && is_name_char(s[i]) {
        name_end(s, i + 1)
    } else {
        i
    }
}

/// The index of the `}` that closes a label list, reading from `i`, where
/// `quoted` tells whether `i` lies inside a quoted label value; a backslash
/// in a value escapes the next character. The length where none closes it.
pub open spec fn brace_end(s: Seq<char>, i: int, quoted: bool) -> int
    decreases s.len() - i,
{
    if i < 0 || i >= s.len() {
        s.len() as int
    } else if quoted {
        if s[i] == '\\' {
            if i + 1 < s.len() {
                brace_end(s, i + 2, true)
            } else {
                s.len() as int
            }
        } else if s[i] == '"' {
            brace_end(s, i + 1, false)
        } else {
            brace_end(s, i + 1, true)
        }
    } else if s[i] == '}' {
        i
    } else if s[i] == '"' {
        brace_end(s, i + 1, true)
    } else {
        brace_end(s, i + 1, false)
    }
}

pub open spec fn help_prefix() -> Seq<char> {
    seq!['#', ' ', 'H', 'E', 'L', 'P', ' ']
}

pub open spec fn type_prefix() -> Seq<char> {
    seq!['#', ' ', 'T', 'Y', 'P', 'E', ' ']
}

pub open spec fn starts_with(s: Seq<char>, p: Seq<char>) -> bool {
    p.len() <= s.len() && s.subrange(0, p.len() as int) == p
}

/// What one line of an exposition document is.
pub enum LineKind {
    Blank,
    Comment,
    Help(Seq<char>, Seq<char>),
    Type(Seq<char>, Seq<char>),
    Metric(SampleView),
    Malformed,
}

/// After a sample's value, at most a timestamp may follow, and then only an
/// exemplar introduced by `#`.
pub open spec fn tail_ok(s: Seq<char>, b: int) -> bool {
    let c = skip_spaces(s, b);
    c == s.len() || s[c] == '#' || ({
        let e = skip_spaces(s, word_end(s, c));
        e == s.len() || s[e] == '#'
    })
}

/// A sample line: `name{labels} value [timestamp]`, the labels optional.
pub open spec fn metric_line(s: Seq<char>) -> LineKind {
    let n = name_end(s, 0);
    if n == 0 || ('0' <= s[0] && s[0] <= '9') {
        LineKind::Malformed
    } else {
        let has_labels = n < s.len() && s[n] == '{';
        let c = if has_labels {
            brace_end(s, n + 1, false)
        } else {
            n
        };
        if has_labels && c >= s.len() {
            LineKind::Malformed
        } else {
            let k = if has_labels {
                c + 1
            } else {
                n
            };
            let labels = if has_labels {
                s.subrange(n + 1, c)
            } else {
                Seq::<char>::empty()
            };
            let a = skip_spaces(s, k);
            let b = word_end(s, a);
            if a == k || b == a || !tail_ok(s, b) {
                LineKind::Malformed
            } else {
                LineKind::Metric(
                    SampleView { name: s.subrange(0, n), labels, value: s.subrange(a, b) },
                )
            }
        }
    }
}

/// What the line `s` (without its line break) is.
pub open spec fn classify(s: Seq<char>) -> LineKind {
    if skip_spaces(s, 0) == s.len() {
        LineKind::Blank
    } else if s[0] == '#' {
        if starts_with(s, help_prefix()) {
            let e = word_end(s, 7);
            if e == 7 {
                LineKind::Malformed
            } else {
                let t = if e < s.len() {
                    e + 1
                } else {
                    e
                };
                LineKind::Help(s.subrange(7, e), s.subrange(t, s.len() as int))
            }
        } else if starts_with(s, type_prefix()) {
            let e = word_end(s, 7);
            let a = skip_spaces(s, e);
            let b = word_end(s, a);
            if e == 7 || a == e || b == a {
                LineKind::Malformed
            } else {
                LineKind::Type(s.subrange(7, e), s.subrange(a, b))
            }
        } else {
            LineKind::Comment
        }
    } else {
        metric_line(s)
    }
}

fn skip_spaces_exec(s: &Vec<char>, i: usize) -> (r: usize)
    requires
        i <= s@.len(),
    ensures
        r == skip_spaces(s@, i as int),
        i <= r <= s@.len(),
{
    let mut j = i;
    while j < s.len() && (s[j] == ' ' || s[j] == '\t' || s[j] == '\r')
        invariant
            i <= j <= s@.len(),
            skip_spaces(s@, i as int) == skip_spaces(s@, j as int),
        decreases s@.len() - j,
    {
        j = j + 1;
    }
    j
}

fn word_end_exec(s: &Vec<char>, i: usize) -> (r: usize)
    requires
        i <= s@.len(),
    ensures
        r == word_end(s@, i as int),
        i <= r <= s@.len(),
{
    let mut j = i;
    while j < s.len() && !(s[j] == ' ' || s[j] == '\t' || s[j] == '\r')
        invariant
            i <= j <= s@.len(),
            word_end(s@, i as int) == word_end(s@, j as int),
        decreases s@.len() - j,
    {
        j = j + 1;
    }
    j
}

fn name_char(c: char) -> (r: bool)
    ensures
        r == is_name_char(c),
{
    ('a' <= c && c <= 'z') || ('A' <= c && c <= 'Z') || ('0' <= c && c <= '9') || c == '_'
        || c == ':'
}

fn name_end_exec(s: &Vec<char>, i: usize) -> (r: usize)
    requires
        i <= s@.len(),
    ensures
        r == name_end(s@, i as int),
        i <= r <= s@.len(),
{
    let mut j = i;
    while j < s.len() && name_char(s[j])
        invariant
            i <= j <= s@.len(),
            name_end(s@, i as int) == name_end(s@, j as int),
        decreases s@.len() - j,
    {
        j = j + 1;
    }
    j
}

fn brace_end_exec(s: &Vec<char>, i: usize) -> (r: usize)
    requires
        i <= s@.len(),
    ensures
        r == brace_end(s@, i as int, false),
        i <= r <= s@.len(),
{
    let mut j = i;
    let mut quoted = false;
    while j < s.len()
        invariant
            i <= j <= s@.len(),
            brace_end(s@, i as int, false) == brace_end(s@, j as int, quoted),
        decreases s@.len() - j,
    {
        let c = s[j];
        if quoted {
            if c == '\\' {
                if j + 1 < s.len() {
                    j = j + 2;
                } else {
                    return s.len();
                }
            } else {
                if c == '"' {
                    quoted = false;
                }
                j = j + 1;
            }
        } else {
            if c == '}' {
                return j;
            }
            if c == '"' {
                quoted = true;
            }
            j = j + 1;
        }
    }
    s.len()
}

/// One classified line, with its parts copied out.
pub enum Line {
    Blank,
    Comment,
    Help(String, String),
    Type(String, String),
    Metric(Sample),
    Malformed,
}

impl View for Line {
    type V = LineKind;

    open spec fn view(&self) -> LineKind {
        match self {
            Line::Blank => LineKind::Blank,
            Line::Comment => LineKind::Comment,
            Line::Help(n, t) => LineKind::Help(n@, t@),
            Line::Type(n, k) => LineKind::Type(n@, k@),
            Line::Metric(m) => LineKind::Metric(m@),
            Line::Malformed => LineKind::Malformed,
        }
    }
}

fn starts_with_exec(s: &Vec<char>, p: &Vec<char>) -> (r: bool)
    ensures
        r == starts_with(s@, p@),
{
    if p.len() > s.len() {
        return false;
    }
    let mut i: usize = 0;
    while i < p.len()
        invariant
            p@.len() <= s@.len(),
            i <= p@.len(),
            forall|k: int| 0 <= k < i ==> s@[k] == p@[k],
        decreases p@.len() - i,
    {
        if s[i] != p[i] {
            assert(s@.subrange(0, p@.len() as int)[i as int] != p@[i as int]);
            return false;
        }
        i = i + 1;
    }
    assert(s@.subrange(0, p@.len() as int) =~= p@);
    true
}

fn metric_line_exec(s: &Vec<char>) -> (r: Line)
    requires
        skip_spaces(s@, 0) != s@.len(),
    ensures
        r@ == metric_line(s@),
{
    let len = s.len();
    let n = name_end_exec(s, 0);
    if n == 0 || ('0' <= s[0] && s[0] <= '9') {
        return Line::Malformed;
    }
    let has_labels = n < len && s[n] == '{';
    let mut k = n;
    let mut labels = string_of(s, 0, 0);
    if has_labels {
        let c = brace_end_exec(s, n + 1);
        if c >= len {
            return Line::Malformed;
        }
        k = c + 1;
        labels = string_of(s, n + 1, c);
    } else {
        assert(labels@ =~= Seq::<char>::empty());
    }
    let a = skip_spaces_exec(s, k);
    let b = word_end_exec(s, a);
    if a == k || b == a {
        return Line::Malformed;
    }
    let c2 = skip_spaces_exec(s, b);
    if c2 < len && s[c2] != '#' {
        let d = word_end_exec(s, c2);
        let e = skip_spaces_exec(s, d);
        if e < len && s[e] != '#' {
            return Line::Malformed;
        }
    }
    let name = string_of(s, 0, n);
    let value = string_of(s, a, b);
    Line::Metric(Sample { name, labels, value })
}

/// Classifies one line of an exposition document, given as characters
/// without its line break.
pub fn classify_chars(s: &Vec<char>) -> (r: Line)
    ensures
        r@ == classify(s@),
{
    let len = s.len();
    if skip_spaces_exec(s, 0) == len {
        return Line::Blank;
    }
    if s[0] == '#' {
        let hp: Vec<char> = vec!['#', ' ', 'H', 'E', 'L', 'P', ' '];
        let tp: Vec<char> = vec!['#', ' ', 'T', 'Y', 'P', 'E', ' '];
        assert(hp@ =~= help_prefix());
        assert(tp@ =~= type_prefix());
        if starts_with_exec(s, &hp) {
            let e = word_end_exec(s, 7);
            if e == 7 {
                return Line::Malformed;
            }
            let t = if e < len {
                e + 1
            } else {
                e
            };
            let name = string_of(s, 7, e);
            let text = string_of(s, t, len);
            Line::Help(name, text)
        } else if starts_with_exec(s, &tp) {
            let e = word_end_exec(s, 7);
            let a = skip_spaces_exec(s, e);
            let b = word_end_exec(s, a);
            if e == 7 || a == e || b == a {
                return Line::Malformed;
            }
            let name = string_of(s, 7, e);
            let kind = string_of(s, a, b);
            Line::Type(name, kind)
        } else {
            Line::Comment
        }
    } else {
        metric_line_exec(s)
    }
}

/// Classifies one line of an exposition document (without its line break).
pub fn classify_line(line: &str) -> (r: Line)
    ensures
        r@ == classify(line@),
{
    let cs = chars_of(line);
    classify_chars(&cs)
}

} // verus!
