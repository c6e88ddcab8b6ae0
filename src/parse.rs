use vstd::prelude::*;
use crate::model::{Document, FamilyView, MetricFamily, ParseError, Sample, SampleView};
use crate::scan::{classify, classify_chars, is_space, metric_line, skip_spaces, word_end, Line, LineKind};
use crate::summary::{
    lemma_placeholder_iff_several, placeholder, several_labelsets, single_labelset, summary_of,
};
use crate::labels::same_chars;
use crate::text::{chars_of, string_of};

verus! {

pub open spec fn untyped() -> Seq<char> {
    seq!['u', 'n', 't', 'y', 'p', 'e', 'd']
}

pub open spec fn histogram_kind() -> Seq<char> {
    seq!['h', 'i', 's', 't', 'o', 'g', 'r', 'a', 'm']
}

pub open spec fn summary_kind() -> Seq<char> {
    seq!['s', 'u', 'm', 'm', 'a', 'r', 'y']
}

pub open spec fn bucket_suffix() -> Seq<char> {
    seq!['_', 'b', 'u', 'c', 'k', 'e', 't']
}

pub open spec fn sum_suffix() -> Seq<char> {
    seq!['_', 's', 'u', 'm']
}

pub open spec fn count_suffix() -> Seq<char> {
    seq!['_', 'c', 'o', 'u', 'n', 't']
}

/// Whether a sample named `n` belongs to family `f`: it bears the family's
/// name, or the name of one of the component series of a histogram
/// (`_bucket`, `_sum`, `_count`) or of a summary (`_sum`, `_count`).
pub open spec fn belongs(f: FamilyView, n: Seq<char>) -> bool {
    n == f.name || (f.kind == histogram_kind() && (n == f.name + bucket_suffix() || n == f.name
        + sum_suffix() || n == f.name + count_suffix())) || (f.kind == summary_kind() && (n
        == f.name + sum_suffix() || n == f.name + count_suffix()))
}

/// The first index from `i` on of a family named `name`, or -1.
pub open spec fn named_index(doc: Seq<FamilyView>, name: Seq<char>, i: int) -> int
    decreases doc.len() - i,
{
    if i < 0 || i >= doc.len() {
        -1
    } else if doc[i].name == name {
        i
    } else {
        named_index(doc, name, i + 1)
    }
}

/// The first index from `i` on of a family that a sample named `n` belongs to, or -1.
pub open spec fn home_index(doc: Seq<FamilyView>, n: Seq<char>, i: int) -> int
    decreases doc.len() - i,
{
    if i < 0 || i >= doc.len() {
        -1
    } else if belongs(doc[i], n) {
        i
    } else {
        home_index(doc, n, i + 1)
    }
}

/// Whether family `i` may still take a `HELP` or `TYPE` line: it is the
/// family read last and has no samples yet.
pub open spec fn open_for_descriptor(doc: Seq<FamilyView>, i: int) -> bool {
    i == doc.len() - 1 && doc[i].samples.len() == 0
}

/// The families after reading one more line; `None` where the line is
/// malformed or would build a family a second time.
/// `HELP` and `TYPE` lines describe the family of that name, opening it if it
/// is new; each comes at most once per family, before its samples. A sample
/// joins the first family it belongs to, which must be the one read last, or
/// opens one of its own name.
pub open spec fn step(doc: Seq<FamilyView>, line: LineKind) -> Option<Seq<FamilyView>> {
    match line {
        LineKind::Blank => Some(doc),
        LineKind::Comment => Some(doc),
        LineKind::Help(name, text) => {
            let i = named_index(doc, name, 0);
            if i >= 0 && !(open_for_descriptor(doc, i) && doc[i].help.len() == 0) {
                None
            } else if i >= 0 {
                Some(
                    doc.update(
                        i,
                        FamilyView {
                            name: doc[i].name,
                            kind: doc[i].kind,
                            help: text,
                            samples: doc[i].samples,
                        },
                    ),
                )
            } else {
                Some(doc.push(FamilyView { name, kind: untyped(), help: text, samples: seq![] }))
            }
        },
        LineKind::Type(name, kind) => {
            let i = named_index(doc, name, 0);
            if i >= 0 && !(open_for_descriptor(doc, i) && doc[i].kind == untyped()) {
                None
            } else if i >= 0 {
                Some(
                    doc.update(
                        i,
                        FamilyView {
                            name: doc[i].name,
                            kind,
                            help: doc[i].help,
                            samples: doc[i].samples,
                        },
                    ),
                )
            } else {
                Some(doc.push(FamilyView { name, kind, help: seq![], samples: seq![] }))
            }
        },
        LineKind::Metric(m) => {
            let i = home_index(doc, m.name, 0);
            if i >= 0 && i != doc.len() - 1 {
                None
            } else if i >= 0 {
                Some(
                    doc.update(
                        i,
                        FamilyView {
                            name: doc[i].name,
                            kind: doc[i].kind,
                            help: doc[i].help,
                            samples: doc[i].samples.push(m),
                        },
                    ),
                )
            } else {
                Some(
                    doc.push(
                        FamilyView { name: m.name, kind: untyped(), help: seq![], samples: seq![m] },
                    ),
                )
            }
        },
        LineKind::Malformed => None,
    }
}

/// The first index from `i` on that holds a line break, or the length.
pub open spec fn newline_index(s: Seq<char>, i: int) -> int
    decreases s.len() - i,
{
    if 0 <= i < s.len() && s[i] != '\n' {
        newline_index(s, i + 1)
    } else {
        i
    }
}

proof fn lemma_newline_index_bounds(s: Seq<char>, i: int)
    requires
        0 <= i <= s.len(),
    ensures
        i <= newline_index(s, i) <= s.len(),
    decreases s.len() - i,
{
    if i < s.len() && s[i] != '\n' {
        lemma_newline_index_bounds(s, i + 1);
    }
}

/// The lines of `s` from index `i` on, split at each line break.
pub open spec fn lines_from(s: Seq<char>, i: int) -> Seq<Seq<char>>
    decreases s.len() - i,
    when 0 <= i <= s.len()
    via lines_from_decreases
{
    let k = newline_index(s, i);
    if k >= s.len() {
        seq![s.subrange(i, s.len() as int)]
    } else {
        seq![s.subrange(i, k)] + lines_from(s, k + 1)
    }
}

#[via_fn]
proof fn lines_from_decreases(s: Seq<char>, i: int) {
    lemma_newline_index_bounds(s, i);
}

/// The families after reading `lines` in order, from `doc` on.
pub open spec fn fold_lines(doc: Seq<FamilyView>, lines: Seq<Seq<char>>) -> Option<
    Seq<FamilyView>,
>
    decreases lines.len(),
{
    if lines.len() == 0 {
        Some(doc)
    } else {
        match step(doc, classify(lines[0])) {
            Some(d) => fold_lines(d, lines.drop_first()),
            None => None,
        }
    }
}

/// The families that a document text holds, in order of first appearance;
/// `None` where a line is malformed.
pub open spec fn parsed(s: Seq<char>) -> Option<Seq<FamilyView>> {
    fold_lines(seq![], lines_from(s, 0))
}

fn is_joined(n: &Vec<char>, base: &Vec<char>, suffix: &Vec<char>) -> (r: bool)
    ensures
        r == (n@ == base@ + suffix@),
{
    if base.len() > n.len() || n.len() - base.len() != suffix.len() {
        assert(n@.len() != (base@ + suffix@).len());
        return false;
    }
    let mut i: usize = 0;
    while i < n.len()
        invariant
            n@.len() == base@.len() + suffix@.len(),
            i <= n@.len(),
            forall|k: int| 0 <= k < i ==> n@[k] == (base@ + suffix@)[k],
        decreases n@.len() - i,
    {
        let c = if i < base.len() {
            base[i]
        } else {
            suffix[i - base.len()]
        };
        if n[i] != c {
            return false;
        }
        i = i + 1;
    }
    assert(n@ =~= base@ + suffix@);
    true
}

fn belongs_exec(f: &MetricFamily, n: &Vec<char>) -> (r: bool)
    ensures
        r == belongs(f@, n@),
{
    let name = chars_of(f.name.as_str());
    let kind = chars_of(f.kind.as_str());
    let hk: Vec<char> = vec!['h', 'i', 's', 't', 'o', 'g', 'r', 'a', 'm'];
    let sk: Vec<char> = vec!['s', 'u', 'm', 'm', 'a', 'r', 'y'];
    let bs: Vec<char> = vec!['_', 'b', 'u', 'c', 'k', 'e', 't'];
    let ss: Vec<char> = vec!['_', 's', 'u', 'm'];
    let cs: Vec<char> = vec!['_', 'c', 'o', 'u', 'n', 't'];
    assert(hk@ =~= histogram_kind());
    assert(sk@ =~= summary_kind());
    assert(bs@ =~= bucket_suffix());
    assert(ss@ =~= sum_suffix());
    assert(cs@ =~= count_suffix());
    if same_chars(n, &name) {
        return true;
    }
    if same_chars(&kind, &hk) {
        is_joined(n, &name, &bs) || is_joined(n, &name, &ss) || is_joined(n, &name, &cs)
    } else if same_chars(&kind, &sk) {
        is_joined(n, &name, &ss) || is_joined(n, &name, &cs)
    } else {
        false
    }
}

fn find_named(doc: &Document, name: &String) -> (r: Option<usize>)
    ensures
        match r {
            Some(i) => named_index(doc@, name@, 0) == i && i < doc@.len() && i < doc.families@.len(),
            None => named_index(doc@, name@, 0) == -1,
        },
{
    let mut i: usize = 0;
    while i < doc.families.len()
        invariant
            i <= doc@.len(),
            doc@.len() == doc.families@.len(),
            named_index(doc@, name@, 0) == named_index(doc@, name@, i as int),
        decreases doc@.len() - i,
    {
        if doc.families[i].name == *name {
            return Some(i);
        }
        i = i + 1;
    }
    None
}

fn find_home(doc: &Document, n: &Vec<char>) -> (r: Option<usize>)
    ensures
        match r {
            Some(i) => home_index(doc@, n@, 0) == i && i < doc@.len() && i < doc.families@.len(),
            None => home_index(doc@, n@, 0) == -1,
        },
{
    let mut i: usize = 0;
    while i < doc.families.len()
        invariant
            i <= doc@.len(),
            doc@.len() == doc.families@.len(),
            home_index(doc@, n@, 0) == home_index(doc@, n@, i as int),
        decreases doc@.len() - i,
    {
        if belongs_exec(&doc.families[i], n) {
            return Some(i);
        }
        i = i + 1;
    }
    None
}

fn put_back(doc: &mut Document, i: usize, f: MetricFamily, Ghost(before): Ghost<Seq<MetricFamily>>)
    requires
        i < before.len(),
        old(doc).families@ == before.remove(i as int),
    ensures
        final(doc)@ == before.map_values(|g: MetricFamily| g@).update(i as int, f@),
{
    doc.families.insert(i, f);
    assert(doc.families@ =~= before.update(i as int, f));
    assert(doc@ =~= before.map_values(|g: MetricFamily| g@).update(i as int, f@));
}

fn add_family(doc: &mut Document, f: MetricFamily)
    ensures
        final(doc)@ == old(doc)@.push(f@),
{
    doc.families.push(f);
    assert(doc@ =~= old(doc)@.push(f@));
}

/// Applies one classified line to the families read so far. Returns false,
/// leaving them as they were, where the line is malformed.
fn apply_line(doc: &mut Document, line: Line) -> (ok: bool)
    ensures
        ok ==> step(old(doc)@, line@) == Some(final(doc)@),
        !ok ==> step(old(doc)@, line@) is None,
{
    match line {
        Line::Blank => true,
        Line::Comment => true,
        Line::Help(name, text) => {
            match find_named(doc, &name) {
                Some(i) => {
                    assert(i < doc.families@.len());
                    let is_last = i == doc.families.len() - 1;
                    if !(is_last && doc.families[i].samples.len() == 0
                        && chars_of(doc.families[i].help.as_str()).len() == 0) {
                        return false;
                    }
                    let old_f = doc.families.remove(i);
                    let MetricFamily { name: n, kind, help: _, samples } = old_f;
                    let f = MetricFamily { name: n, kind, help: text, samples };
                    put_back(doc, i, f, Ghost(old(doc).families@));
                },
                None => {
                    let f = MetricFamily {
                        name,
                        kind: "untyped".to_owned(),
                        help: text,
                        samples: Vec::new(),
                    };
                    proof {
                        reveal_strlit("untyped");
                    }
                    assert(f@.samples =~= Seq::<SampleView>::empty());
                    assert(f@.kind =~= untyped());
                    add_family(doc, f);
                },
            }
            true
        },
        Line::Type(name, kind) => {
            match find_named(doc, &name) {
                Some(i) => {
                    let ut: Vec<char> = vec!['u', 'n', 't', 'y', 'p', 'e', 'd'];
                    assert(ut@ =~= untyped());
                    assert(i < doc.families@.len());
                    let is_last = i == doc.families.len() - 1;
                    if !(is_last && doc.families[i].samples.len() == 0
                        && same_chars(&chars_of(doc.families[i].kind.as_str()), &ut)) {
                        return false;
                    }
                    let old_f = doc.families.remove(i);
                    let MetricFamily { name: n, kind: _, help, samples } = old_f;
                    let f = MetricFamily { name: n, kind, help, samples };
                    put_back(doc, i, f, Ghost(old(doc).families@));
                },
                None => {
                    let f = MetricFamily {
                        name,
                        kind,
                        help: String::new(),
                        samples: Vec::new(),
                    };
                    assert(f@.samples =~= Seq::<SampleView>::empty());
                    add_family(doc, f);
                },
            }
            true
        },
        Line::Metric(m) => {
            let n = chars_of(m.name.as_str());
            match find_home(doc, &n) {
                Some(i) => {
                    assert(i < doc.families@.len());
                    if i != doc.families.len() - 1 {
                        return false;
                    }
                    let old_f = doc.families.remove(i);
                    let MetricFamily { name: fname, kind, help, samples } = old_f;
                    let mut samples = samples;
                    let ghost before = samples@;
                    samples.push(m);
                    let f = MetricFamily { name: fname, kind, help, samples };
                    assert(f@.samples =~= before.map_values(|s: Sample| s@).push(m@));
                    put_back(doc, i, f, Ghost(old(doc).families@));
                },
                None => {
                    let fname = m.name.clone();
                    let mut samples: Vec<Sample> = Vec::new();
                    samples.push(m);
                    let f = MetricFamily {
                        name: fname,
                        kind: "untyped".to_owned(),
                        help: String::new(),
                        samples,
                    };
                    proof {
                        reveal_strlit("untyped");
                    }
                    assert(f@.samples =~= seq![m@]);
                    assert(f@.kind =~= untyped());
                    add_family(doc, f);
                },
            }
            true
        },
        Line::Malformed => false,
    }
}

fn newline_exec(s: &Vec<char>, i: usize) -> (r: usize)
    requires
        i <= s@.len(),
    ensures
        r == newline_index(s@, i as int),
        i <= r <= s@.len(),
{
    let mut j = i;
    while j < s.len() && s[j] != '\n'
        invariant
            i <= j <= s@.len(),
            newline_index(s@, i as int) == newline_index(s@, j as int),
        decreases s@.len() - j,
    {
        j = j + 1;
    }
    j
}

fn slice_chars(s: &Vec<char>, from: usize, to: usize) -> (r: Vec<char>)
    requires
        from <= to <= s@.len(),
    ensures
        r@ == s@.subrange(from as int, to as int),
{
    let mut r: Vec<char> = Vec::new();
    let mut i = from;
    while i < to
        invariant
            from <= i <= to <= s@.len(),
            r@ == s@.subrange(from as int, i as int),
        decreases to - i,
    {
        r.push(s[i]);
        i = i + 1;
        assert(r@ =~= s@.subrange(from as int, i as int));
    }
    r
}

/// Reads a document text into its families, in order of first appearance.
/// Refuses the text, naming the line at fault, where a line is malformed or
/// would build a family a second time: no part of such a text is returned.
pub fn read_document(text: &str) -> (r: Result<Document, ParseError>)
    ensures
        r is Ok <==> parsed(text@) is Some,
        r matches Ok(d) ==> parsed(text@) == Some(d@),
        r matches Err(e) ==> (e.line matches Some(l) && exists|j: int|
            0 <= j < lines_from(text@, 0).len() && #[trigger] lines_from(text@, 0)[j] == l@
                && e.reason@ == refusal_reason(classify(l@))),
{
    let cs = chars_of(text);
    let mut doc = Document { families: Vec::new() };
    let mut start: usize = 0;
    let ghost mut done: Seq<Seq<char>> = seq![];
    assert(doc@ =~= Seq::<FamilyView>::empty());
    assert(lines_from(cs@, 0) =~= done + lines_from(cs@, 0));
    loop
        invariant
            cs@ == text@,
            start <= cs@.len(),
            parsed(text@) == fold_lines(doc@, lines_from(cs@, start as int)),
            lines_from(cs@, 0) == done + lines_from(cs@, start as int),
        decreases cs@.len() - start,
    {
        let k = newline_exec(&cs, start);
        let line = slice_chars(&cs, start, k);
        let ghost rest = lines_from(cs@, start as int);
        let ghost before = doc@;
        proof {
            if k < cs@.len() {
                assert(rest[0] == line@);
                assert(rest.drop_first() =~= lines_from(cs@, k + 1));
            } else {
                assert(rest[0] == line@);
                assert(rest.drop_first() =~= Seq::<Seq<char>>::empty());
            }
        }
        let kind = classify_chars(&line);
        let n = line.len();
        let shown = string_of(&line, 0, n);
        let bad = match &kind {
            Line::Malformed => true,
            _ => false,
        };
        if !apply_line(&mut doc, kind) {
            let reason = if bad {
                "malformed line".to_owned()
            } else {
                "metric family defined twice".to_owned()
            };
            proof {
                reveal_strlit("malformed line");
                reveal_strlit("metric family defined twice");
                assert(reason@ =~= refusal_reason(classify(line@)));
                assert(lines_from(text@, 0)[done.len() as int] == line@);
                assert(shown@ =~= line@);
            }
            return Err(ParseError { reason, line: Some(shown) });
        }
        assert(fold_lines(before, rest) == fold_lines(doc@, rest.drop_first()));
        if k >= cs.len() {
            assert(fold_lines(doc@, rest.drop_first()) == Some(doc@));
            return Ok(doc);
        }
        proof {
            assert(lines_from(cs@, 0) =~= done.push(line@) + lines_from(cs@, k + 1));
            done = done.push(line@);
        }
        start = k + 1;
    }
}

/// The reason given for a line that cannot be read.
pub open spec fn malformed_reason() -> Seq<char> {
    seq!['m', 'a', 'l', 'f', 'o', 'r', 'm', 'e', 'd', ' ', 'l', 'i', 'n', 'e']
}

/// The reason given for a line that would build a family a second time.
pub open spec fn duplicate_reason() -> Seq<char> {
    seq![
        'm', 'e', 't', 'r', 'i', 'c', ' ', 'f', 'a', 'm', 'i', 'l', 'y', ' ', 'd', 'e', 'f', 'i',
        'n', 'e', 'd', ' ', 't', 'w', 'i', 'c', 'e',
    ]
}

/// Why a line that cannot be taken is refused.
pub open spec fn refusal_reason(line: LineKind) -> Seq<char> {
    if line is Malformed {
        malformed_reason()
    } else {
        duplicate_reason()
    }
}

/// Whether `parse_prometheus` of openmetrics-parser accepts the text.
pub uninterp spec fn prometheus_accepts(s: Seq<char>) -> bool;

/// Relies on `openmetrics_parser::prometheus::parse_prometheus`: `Ok` exactly
/// when it accepts the text, else its error rendered as text.
#[verifier::external_body]
fn prometheus_verdict(text: &str) -> (r: Result<(), String>)
    ensures
        r is Ok == prometheus_accepts(text@),
{
    match openmetrics_parser::prometheus::parse_prometheus(text) {
        Ok(_) => Ok(()),
        Err(e) => Err(e.to_string()),
    }
}

/// Joins what the line reader found with the verdict of the exposition
/// parser: the families stand only where both accept the text; the reader's
/// error comes first, then the parser's message.
pub fn settle(read: Result<Document, ParseError>, verdict: Result<(), String>) -> (r: Result<
    Document,
    ParseError,
>)
    ensures
        read is Err ==> r == read,
        read is Ok && verdict is Err ==> (r matches Err(e) && e.reason == verdict->Err_0
            && e.line is None),
        read is Ok && verdict is Ok ==> r == read,
{
    match read {
        Err(e) => Err(e),
        Ok(d) => match verdict {
            Ok(()) => Ok(d),
            Err(m) => Err(ParseError { reason: m, line: None }),
        },
    }
}

/// Parses an exposition document: `Ok` exactly when every line is well
/// formed and the exposition parser accepts the text; the families then
/// stand in order of first appearance.
pub fn parse(text: &str) -> (r: Result<Document, ParseError>)
    ensures
        r is Ok <==> (parsed(text@) is Some && prometheus_accepts(text@)),
        r matches Ok(d) ==> parsed(text@) == Some(d@),
        parsed(text@) is None ==> (r matches Err(e) && e.line is Some),
        parsed(text@) is Some && !prometheus_accepts(text@) ==> (r matches Err(e) && e.line is None),
{
    let read = read_document(text);
    if read.is_err() {
        return read;
    }
    let verdict = prometheus_verdict(text);
    settle(read, verdict)
}

proof fn lemma_fold_malformed(doc: Seq<FamilyView>, ls: Seq<Seq<char>>, i: int)
    requires
        0 <= i < ls.len(),
        classify(ls[i]) is Malformed,
    ensures
        fold_lines(doc, ls) is None,
    decreases ls.len(),
{
    if i > 0 {
        match step(doc, classify(ls[0])) {
            Some(d) => {
                lemma_fold_malformed(d, ls.drop_first(), i - 1);
            },
            None => {},
        }
    }
}

/// A text in which any line is malformed is refused as a whole: no family
/// is read from it, and `parse` returns an error.
pub proof fn lemma_malformed_line_refuses(s: Seq<char>, i: int)
    requires
        0 <= i < lines_from(s, 0).len(),
        classify(lines_from(s, 0)[i]) is Malformed,
    ensures
        parsed(s) is None,
{
    lemma_fold_malformed(seq![], lines_from(s, 0), i);
}

/// No two families bear the same name.
pub open spec fn names_distinct(doc: Seq<FamilyView>) -> bool {
    forall|i: int, j: int| 0 <= i < j < doc.len() ==> doc[i].name != doc[j].name
}

/// Whether some family of `doc` holds the sample `m`.
pub open spec fn holds_sample(doc: Seq<FamilyView>, m: SampleView) -> bool {
    exists|i: int, k: int|
        0 <= i < doc.len() && 0 <= k < doc[i].samples.len() && #[trigger] doc[i].samples[k] == m
}

/// Whether one of `ls` is a sample line that reads as `m`.
pub open spec fn read_from(ls: Seq<Seq<char>>, m: SampleView) -> bool {
    exists|j: int| 0 <= j < ls.len() && #[trigger] classify(ls[j]) == LineKind::Metric(m)
}

proof fn lemma_named_index(doc: Seq<FamilyView>, name: Seq<char>, i: int)
    requires
        0 <= i,
    ensures
        named_index(doc, name, i) == -1 ==> forall|k: int|
            i <= k < doc.len() ==> #[trigger] doc[k].name != name,
        named_index(doc, name, i) != -1 ==> i <= named_index(doc, name, i) < doc.len() && doc[named_index(doc, name, i)].name == name,
    decreases doc.len() - i,
{
    if i < doc.len() && doc[i].name != name {
        lemma_named_index(doc, name, i + 1);
    }
}

proof fn lemma_home_index(doc: Seq<FamilyView>, n: Seq<char>, i: int)
    requires
        0 <= i,
    ensures
        home_index(doc, n, i) == -1 ==> forall|k: int|
            i <= k < doc.len() ==> !belongs(#[trigger] doc[k], n),
        home_index(doc, n, i) != -1 ==> i <= home_index(doc, n, i) < doc.len(),
    decreases doc.len() - i,
{
    if i < doc.len() && !belongs(doc[i], n) {
        lemma_home_index(doc, n, i + 1);
    }
}

proof fn lemma_step(doc: Seq<FamilyView>, line: LineKind, m: SampleView)
    requires
        step(doc, line) is Some,
    ensures
        names_distinct(doc) ==> names_distinct(step(doc, line)->Some_0),
        holds_sample(doc, m) ==> holds_sample(step(doc, line)->Some_0, m),
        line == LineKind::Metric(m) ==> holds_sample(step(doc, line)->Some_0, m),
        holds_sample(step(doc, line)->Some_0, m) ==> holds_sample(doc, m) || line
            == LineKind::Metric(m),
{
    let d = step(doc, line)->Some_0;
    match line {
        LineKind::Help(name, text) => {
            lemma_named_index(doc, name, 0);
        },
        LineKind::Type(name, kind) => {
            lemma_named_index(doc, name, 0);
        },
        LineKind::Metric(x) => {
            lemma_home_index(doc, x.name, 0);
        },
        _ => {},
    }
    assert(d.len() >= doc.len());
    if holds_sample(doc, m) {
        let (i, k) = choose|i: int, k: int|
            0 <= i < doc.len() && 0 <= k < doc[i].samples.len() && #[trigger] doc[i].samples[k]
                == m;
        assert(d[i].samples[k] == m);
    }
    if line == LineKind::Metric(m) {
        let h = home_index(doc, m.name, 0);
        if h >= 0 {
            assert(d[h].samples[d[h].samples.len() - 1] == m);
        } else {
            assert(d[doc.len() as int].samples[0] == m);
        }
    }
    if holds_sample(d, m) {
        let (i, k) = choose|i: int, k: int|
            0 <= i < d.len() && 0 <= k < d[i].samples.len() && #[trigger] d[i].samples[k] == m;
        if i < doc.len() && k < doc[i].samples.len() {
            assert(doc[i].samples[k] == m);
        }
    }
}

proof fn lemma_fold(doc: Seq<FamilyView>, ls: Seq<Seq<char>>, m: SampleView)
    requires
        fold_lines(doc, ls) is Some,
    ensures
        names_distinct(doc) ==> names_distinct(fold_lines(doc, ls)->Some_0),
        holds_sample(doc, m) ==> holds_sample(fold_lines(doc, ls)->Some_0, m),
        read_from(ls, m) ==> holds_sample(fold_lines(doc, ls)->Some_0, m),
        holds_sample(fold_lines(doc, ls)->Some_0, m) ==> holds_sample(doc, m) || read_from(
            ls,
            m,
        ),
    decreases ls.len(),
{
    if ls.len() > 0 {
        let d = step(doc, classify(ls[0]))->Some_0;
        let rest = ls.drop_first();
        lemma_step(doc, classify(ls[0]), m);
        lemma_fold(d, rest, m);
        if read_from(ls, m) {
            let j = choose|j: int| 0 <= j < ls.len() && #[trigger] classify(ls[j]) == LineKind::Metric(m);
            if j > 0 {
                assert(classify(rest[j - 1]) == LineKind::Metric(m));
            }
        }
        if read_from(rest, m) {
            let j = choose|j: int| 0 <= j < rest.len() && #[trigger] classify(rest[j]) == LineKind::Metric(m);
            assert(classify(ls[j + 1]) == LineKind::Metric(m));
        }
    }
}

/// What a parsed document holds is exactly what its text names: no two
/// families share a name, the sample of every sample line stands in some
/// family, and every sample of every family was read from a sample line.
pub proof fn lemma_parsed_families(s: Seq<char>, m: SampleView)
    requires
        parsed(s) is Some,
    ensures
        names_distinct(parsed(s)->Some_0),
        read_from(lines_from(s, 0), m) <==> holds_sample(parsed(s)->Some_0, m),
{
    lemma_fold(seq![], lines_from(s, 0), m);
}

proof fn lemma_word_end(s: Seq<char>, i: int)
    requires
        0 <= i,
    ensures
        i <= word_end(s, i),
        i <= s.len() ==> word_end(s, i) <= s.len(),
        forall|k: int| i <= k < word_end(s, i) ==> !is_space(#[trigger] s[k]),
    decreases s.len() - i,
{
    if 0 <= i < s.len() && !is_space(s[i]) {
        lemma_word_end(s, i + 1);
    }
}

proof fn lemma_skip_spaces(s: Seq<char>, i: int)
    requires
        0 <= i,
    ensures
        i <= skip_spaces(s, i),
        i <= s.len() ==> skip_spaces(s, i) <= s.len(),
    decreases s.len() - i,
{
    if 0 <= i < s.len() && is_space(s[i]) {
        lemma_skip_spaces(s, i + 1);
    }
}

/// The value of every sample line is a single word.
proof fn lemma_metric_value_is_word(line: Seq<char>)
    ensures
        classify(line) matches LineKind::Metric(m) ==> forall|j: int|
            0 <= j < m.value.len() ==> #[trigger] m.value[j] != ' ',
{
    if classify(line) is Metric {
        let m = classify(line)->Metric_0;
        assert(metric_line(line) == classify(line));
        let n = crate::scan::name_end(line, 0);
        let has_labels = n < line.len() && line[n] == '{';
        let c = if has_labels {
            crate::scan::brace_end(line, n + 1, false)
        } else {
            n
        };
        let k = if has_labels {
            c + 1
        } else {
            n
        };
        let a = skip_spaces(line, k);
        lemma_name_end_nonneg(line);
        if has_labels {
            lemma_brace_end_from(line, n + 1, false);
        }
        lemma_skip_spaces(line, k);
        lemma_word_end(line, a);
        assert(m.value == line.subrange(a, word_end(line, a)));
        assert forall|j: int| 0 <= j < m.value.len() implies #[trigger] m.value[j] != ' ' by {
            assert(m.value[j] == line[a + j]);
        }
    }
}

proof fn lemma_name_end_nonneg(s: Seq<char>)
    ensures
        0 <= crate::scan::name_end(s, 0) <= s.len(),
{
    lemma_name_end_from(s, 0);
}

proof fn lemma_name_end_from(s: Seq<char>, i: int)
    requires
        0 <= i,
    ensures
        i <= crate::scan::name_end(s, i),
        i <= s.len() ==> crate::scan::name_end(s, i) <= s.len(),
    decreases s.len() - i,
{
    if 0 <= i < s.len() && crate::scan::is_name_char(s[i]) {
        lemma_name_end_from(s, i + 1);
    }
}

proof fn lemma_brace_end_from(s: Seq<char>, i: int, quoted: bool)
    requires
        0 <= i,
    ensures
        0 <= crate::scan::brace_end(s, i, quoted),
    decreases s.len() - i,
{
    if i < s.len() {
        if quoted {
            if s[i] == '\\' {
                if i + 1 < s.len() {
                    lemma_brace_end_from(s, i + 2, true);
                }
            } else if s[i] == '"' {
                lemma_brace_end_from(s, i + 1, false);
            } else {
                lemma_brace_end_from(s, i + 1, true);
            }
        } else if s[i] != '}' {
            if s[i] == '"' {
                lemma_brace_end_from(s, i + 1, true);
            } else {
                lemma_brace_end_from(s, i + 1, false);
            }
        }
    }
}

/// Of a parsed document, a family whose samples all carry one label-set
/// never shows the placeholder in place of a value, and a family whose
/// samples carry two or more different label-sets always does.
pub proof fn lemma_parsed_summary(s: Seq<char>, i: int)
    requires
        parsed(s) is Some,
        0 <= i < parsed(s)->Some_0.len(),
    ensures
        ({
            let f = parsed(s)->Some_0[i];
            &&& several_labelsets(f) ==> summary_of(f) == placeholder()
            &&& f.samples.len() >= 1 && single_labelset(f) ==> summary_of(f) != placeholder()
        }),
{
    let d = parsed(s)->Some_0;
    let f = d[i];
    assert forall|k: int, j: int|
        0 <= k < f.samples.len() && 0 <= j < f.samples[k].value.len() implies #[trigger] f.samples[k].value[j]
            != ' ' by {
        let m = f.samples[k];
        assert(d[i].samples[k] == m);
        assert(holds_sample(d, m));
        lemma_parsed_families(s, m);
        let ls = lines_from(s, 0);
        assert(read_from(ls, m));
        let w = choose|w: int| 0 <= w < ls.len() && #[trigger] classify(ls[w]) == LineKind::Metric(m);
        lemma_metric_value_is_word(ls[w]);
        assert(classify(ls[w]) matches LineKind::Metric(x) && x == m);
        assert(m.value[j] != ' ');
    }
    if f.samples.len() > 0 {
        lemma_placeholder_iff_several(f);
    }
}

/// Whether `doc` holds a family named `n` of type `k`.
pub open spec fn typed(doc: Seq<FamilyView>, n: Seq<char>, k: Seq<char>) -> bool {
    exists|i: int| 0 <= i < doc.len() && #[trigger] doc[i].name == n && doc[i].kind == k
}

proof fn lemma_step_typed(doc: Seq<FamilyView>, line: LineKind, n: Seq<char>, k: Seq<char>)
    requires
        names_distinct(doc),
        step(doc, line) is Some,
        k != untyped(),
    ensures
        typed(doc, n, k) ==> typed(step(doc, line)->Some_0, n, k),
        line == LineKind::Type(n, k) ==> typed(step(doc, line)->Some_0, n, k),
{
    let d = step(doc, line)->Some_0;
    match line {
        LineKind::Help(name, text) => {
            lemma_named_index(doc, name, 0);
        },
        LineKind::Type(name, kind) => {
            lemma_named_index(doc, name, 0);
        },
        LineKind::Metric(x) => {
            lemma_home_index(doc, x.name, 0);
        },
        _ => {},
    }
    if typed(doc, n, k) {
        let i = choose|i: int| 0 <= i < doc.len() && #[trigger] doc[i].name == n && doc[i].kind == k;
        assert(d[i].name == n && d[i].kind == k);
    }
    if line == LineKind::Type(n, k) {
        let i = named_index(doc, n, 0);
        if i >= 0 {
            assert(d[i].name == n && d[i].kind == k);
        } else {
            assert(d[doc.len() as int].name == n && d[doc.len() as int].kind == k);
        }
    }
}

proof fn lemma_fold_typed(doc: Seq<FamilyView>, ls: Seq<Seq<char>>, n: Seq<char>, k: Seq<char>)
    requires
        names_distinct(doc),
        fold_lines(doc, ls) is Some,
        k != untyped(),
    ensures
        typed(doc, n, k) ==> typed(fold_lines(doc, ls)->Some_0, n, k),
        (exists|j: int| 0 <= j < ls.len() && #[trigger] classify(ls[j]) == LineKind::Type(n, k))
            ==> typed(fold_lines(doc, ls)->Some_0, n, k),
    decreases ls.len(),
{
    if ls.len() > 0 {
        let d = step(doc, classify(ls[0]))->Some_0;
        let rest = ls.drop_first();
        lemma_step(doc, classify(ls[0]), SampleView { name: n, labels: n, value: n });
        lemma_step_typed(doc, classify(ls[0]), n, k);
        lemma_fold_typed(d, rest, n, k);
        if exists|j: int| 0 <= j < ls.len() && #[trigger] classify(ls[j]) == LineKind::Type(n, k) {
            let j = choose|j: int| 0 <= j < ls.len() && #[trigger] classify(ls[j]) == LineKind::Type(n, k);
            if j > 0 {
                assert(classify(rest[j - 1]) == LineKind::Type(n, k));
            }
        }
    }
}

/// In a parsed document, the family that a `TYPE` line names has the type
/// that the line gives (for any type word but `untyped`, which is also what
/// a family without a `TYPE` line has).
pub proof fn lemma_type_line_sets_kind(s: Seq<char>, j: int, n: Seq<char>, k: Seq<char>)
    requires
        parsed(s) is Some,
        0 <= j < lines_from(s, 0).len(),
        classify(lines_from(s, 0)[j]) == LineKind::Type(n, k),
        k != untyped(),
    ensures
        typed(parsed(s)->Some_0, n, k),
{
    let ls = lines_from(s, 0);
    assert(classify(ls[j]) == LineKind::Type(n, k));
    lemma_fold_typed(seq![], ls, n, k);
}

} // verus!
