use vstd::prelude::*;
use crate::model::{FamilyView, MetricFamily, Sample, SampleView};
use crate::parse::count_suffix;
use crate::labels::{join, join_pairs, labelset, labelset_of, same_labelset};
use crate::text::{append_chars, chars_of, string_of};

verus! {

/// One row of the listing: a family's name, its type and a one-line summary.
pub struct DisplayRow {
    pub name: String,
    pub kind: String,
    pub summary: String,
}

/// What a family with more than one label-set shows in place of a value.
pub open spec fn placeholder() -> Seq<char> {
    seq![
        '(', 'm', 'u', 'l', 't', 'i', 'p', 'l', 'e', ' ', 'l', 'a', 'b', 'e', 'l', 's', 'e', 't',
        's', ')',
    ]
}

/// What stands between a label-set and its value.
pub open spec fn arrow() -> Seq<char> {
    seq![' ', '\u{2192}', ' ']
}

/// The label-set of sample `i` of `f`.
pub open spec fn labelset_at(f: FamilyView, i: int) -> Seq<Seq<char>> {
    labelset_of(f.kind, f.samples[i].labels)
}

/// Whether every sample of `f` carries the label-set of its first sample.
pub open spec fn single_labelset(f: FamilyView) -> bool {
    forall|i: int| 0 <= i < f.samples.len() ==> #[trigger] labelset_at(f, i) == labelset_at(f, 0)
}

/// Whether some two samples of `f` carry different label-sets.
pub open spec fn several_labelsets(f: FamilyView) -> bool {
    exists|i: int, j: int|
        0 <= i < f.samples.len() && 0 <= j < f.samples.len() && #[trigger] labelset_at(f, i)
            != #[trigger] labelset_at(f, j)
}

/// The label-set of the shown sample, as its pairs joined by `, `.
pub open spec fn shown_labels(f: FamilyView) -> Seq<char> {
    join_pairs(labelset_of(f.kind, f.samples[shown_index(f)].labels))
}

/// The first index from `i` on of a sample named `n`, or -1.
pub open spec fn sample_named(s: Seq<SampleView>, n: Seq<char>, i: int) -> int
    decreases s.len() - i,
{
    if i < 0 || i >= s.len() {
        -1
    } else if s[i].name == n {
        i
    } else {
        sample_named(s, n, i + 1)
    }
}

/// The sample whose value a family shows: its `_count` series where it has
/// one (the aggregate of a histogram or summary), else its first sample.
pub open spec fn shown_index(f: FamilyView) -> int {
    let k = sample_named(f.samples, f.name + count_suffix(), 0);
    if k >= 0 {
        k
    } else {
        0
    }
}

/// The summary of a family: empty for a family without samples; the
/// placeholder where its samples carry more than one label-set (the `le` of
/// a histogram's buckets and the `quantile` of a summary set none apart);
/// else the shown sample as `k1="v1", k2="v2" → value`, or the bare value
/// where its label-set is empty.
pub open spec fn summary_of(f: FamilyView) -> Seq<char> {
    if f.samples.len() == 0 {
        seq![]
    } else if !single_labelset(f) {
        placeholder()
    } else {
        let s = f.samples[shown_index(f)];
        if shown_labels(f).len() == 0 {
            s.value
        } else {
            shown_labels(f) + arrow() + s.value
        }
    }
}

fn find_sample(samples: &Vec<Sample>, n: &String) -> (r: Option<usize>)
    ensures
        match r {
            Some(i) => sample_named(samples@.map_values(|s: Sample| s@), n@, 0) == i && i
                < samples@.len(),
            None => sample_named(samples@.map_values(|s: Sample| s@), n@, 0) == -1,
        },
{
    let ghost sv = samples@.map_values(|s: Sample| s@);
    let mut i: usize = 0;
    while i < samples.len()
        invariant
            i <= samples@.len(),
            sv == samples@.map_values(|s: Sample| s@),
            sample_named(sv, n@, 0) == sample_named(sv, n@, i as int),
        decreases samples@.len() - i,
    {
        if samples[i].name == *n {
            return Some(i);
        }
        i = i + 1;
    }
    None
}

/// Reduces a family to its display row.
pub fn summarize(f: &MetricFamily) -> (r: DisplayRow)
    ensures
        r.name@ == f.name@,
        r.kind@ == f.kind@,
        r.summary@ == summary_of(f@),
{
    let name = f.name.clone();
    let kind = f.kind.clone();
    let ghost fv = f@;
    let n = f.samples.len();
    if n == 0 {
        let summary = String::new();
        return DisplayRow { name, kind, summary };
    }
    let kc = chars_of(f.kind.as_str());
    let first = labelset(&kc, &chars_of(f.samples[0].labels.as_str()));
    let mut i: usize = 1;
    while i < n
        invariant
            fv == f@,
            name@ == f.name@,
            kind@ == f.kind@,
            kc@ == f.kind@,
            n == f@.samples.len(),
            1 <= i <= n,
            crate::labels::deep(first@) == labelset_at(fv, 0),
            forall|k: int| 0 <= k < i ==> #[trigger] labelset_at(fv, k) == labelset_at(fv, 0),
        decreases n - i,
    {
        let li = labelset(&kc, &chars_of(f.samples[i].labels.as_str()));
        if !same_labelset(&li, &first) {
            let ps: Vec<char> = vec![
                '(', 'm', 'u', 'l', 't', 'i', 'p', 'l', 'e', ' ', 'l', 'a', 'b', 'e', 'l', 's',
                'e', 't', 's', ')',
            ];
            assert(ps@ =~= placeholder());
            assert(labelset_at(fv, i as int) != labelset_at(fv, 0));
            let summary = string_of(&ps, 0, 20);
            return DisplayRow { name, kind, summary };
        }
        i = i + 1;
    }
    let mut count_name = chars_of(f.name.as_str());
    let cs: Vec<char> = vec!['_', 'c', 'o', 'u', 'n', 't'];
    assert(cs@ =~= count_suffix());
    append_chars(&mut count_name, &cs);
    let m = count_name.len();
    let count_name = string_of(&count_name, 0, m);
    assert(count_name@ =~= f.name@ + count_suffix());
    let k = match find_sample(&f.samples, &count_name) {
        Some(k) => k,
        None => 0,
    };
    let s = &f.samples[k];
    assert(single_labelset(fv));
    assert(shown_index(fv) == k);
    assert(fv.samples[k as int] == s@);
    let value = chars_of(s.value.as_str());
    let vn = value.len();
    let mut out = join(&labelset(&kc, &chars_of(s.labels.as_str())));
    assert(out@ == shown_labels(fv));
    if out.len() == 0 {
        let summary = string_of(&value, 0, vn);
        return DisplayRow { name, kind, summary };
    }
    let ar: Vec<char> = vec![' ', '\u{2192}', ' '];
    assert(ar@ =~= arrow());
    append_chars(&mut out, &ar);
    append_chars(&mut out, &value);
    let on = out.len();
    let summary = string_of(&out, 0, on);
    DisplayRow { name, kind, summary }
}

/// A family whose samples all carry one label-set never shows the
/// placeholder; a family whose samples carry two different label-sets always
/// does. (Sample values are single words, as the line reader produces them.)
pub proof fn lemma_placeholder_iff_several(f: FamilyView)
    requires
        f.samples.len() > 0,
        forall|i: int, j: int|
            0 <= i < f.samples.len() && 0 <= j < f.samples[i].value.len() ==> #[trigger] f.samples[i].value[j]
                != ' ',
    ensures
        several_labelsets(f) ==> summary_of(f) == placeholder(),
        single_labelset(f) ==> summary_of(f) != placeholder(),
{
    if several_labelsets(f) {
        let (i, j) = choose|i: int, j: int|
            0 <= i < f.samples.len() && 0 <= j < f.samples.len() && #[trigger] labelset_at(f, i)
                != #[trigger] labelset_at(f, j);
        if single_labelset(f) {
            assert(labelset_at(f, i) == labelset_at(f, 0));
            assert(labelset_at(f, j) == labelset_at(f, 0));
        }
    }
    if single_labelset(f) {
        lemma_sample_named_range(f.samples, f.name + count_suffix(), 0);
        let s = f.samples[shown_index(f)];
        let lab = shown_labels(f);
        if lab.len() == 0 {
            if s.value == placeholder() {
                assert(s.value[9] == ' ');
            }
        } else {
            let t = lab + arrow() + s.value;
            if t == placeholder() {
                let p: int = lab.len() as int + 1;
                assert(t[p] == '\u{2192}');
                assert(placeholder().len() == 20);
                assert(arrow().len() == 3);
                assert(t.len() == lab.len() + 3 + s.value.len());
                assert(0 <= p < 20);
                assert forall|q: int| 0 <= q < 20 implies placeholder()[q] != '\u{2192}' by {
                    if q == 0 {} else if q == 1 {} else if q == 2 {} else if q == 3 {} else if q == 4 {} else if q == 5 {} else if q == 6 {} else if q == 7 {} else if q == 8 {} else if q == 9 {} else if q == 10 {} else if q == 11 {} else if q == 12 {} else if q == 13 {} else if q == 14 {} else if q == 15 {} else if q == 16 {} else if q == 17 {} else if q == 18 {} else if q == 19 {}
                }
            }
        }
    }
}

proof fn lemma_sample_named_range(s: Seq<SampleView>, n: Seq<char>, i: int)
    requires
        0 <= i,
    ensures
        sample_named(s, n, i) == -1 || (i <= sample_named(s, n, i) < s.len()),
    decreases s.len() - i,
{
    if i < s.len() && s[i].name != n {
        lemma_sample_named_range(s, n, i + 1);
    }
}

} // verus!
