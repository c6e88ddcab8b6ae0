use vstd::prelude::*;
use crate::parse::{histogram_kind, summary_kind};

verus! {

/// What a list of character vectors stands for.
pub open spec fn deep(v: Seq<Vec<char>>) -> Seq<Seq<char>> {
    v.map_values(|x: Vec<char>| x@)
}

/// The pieces of a label list between the commas that stand outside quoted
/// values, reading from `i` with the piece `cur` begun and the pieces `acc`
/// done; empty pieces are dropped, and a backslash in a value escapes the
/// next character.
pub open spec fn pieces_from(
    s: Seq<char>,
    i: int,
    quoted: bool,
    cur: Seq<char>,
    acc: Seq<Seq<char>>,
) -> Seq<Seq<char>>
    decreases s.len() - i,
{
    if i < 0 || i >= s.len() {
        if cur.len() > 0 {
            acc.push(cur)
        } else {
            acc
        }
    } else if !quoted && s[i] == ',' {
        pieces_from(
            s,
            i + 1,
            false,
            seq![],
            if cur.len() > 0 {
                acc.push(cur)
            } else {
                acc
            },
        )
    } else if quoted && s[i] == '\\' && i + 1 < s.len() {
        pieces_from(s, i + 2, true, cur.push(s[i]).push(s[i + 1]), acc)
    } else {
        pieces_from(
            s,
            i + 1,
            if s[i] == '"' {
                !quoted
            } else {
                quoted
            },
            cur.push(s[i]),
            acc,
        )
    }
}

/// The `name="value"` pairs of a label list, as written.
pub open spec fn label_pairs(s: Seq<char>) -> Seq<Seq<char>> {
    pieces_from(s, 0, false, seq![], seq![])
}

pub open spec fn le_prefix() -> Seq<char> {
    seq!['l', 'e', '=']
}

pub open spec fn quantile_prefix() -> Seq<char> {
    seq!['q', 'u', 'a', 'n', 't', 'i', 'l', 'e', '=']
}

pub open spec fn has_prefix(p: Seq<char>, pre: Seq<char>) -> bool {
    pre.len() <= p.len() && p.subrange(0, pre.len() as int) == pre
}

/// Whether a pair only tells apart the component series of one series: the
/// `le` bound of a histogram bucket, or the `quantile` of a summary.
pub open spec fn component_pair(kind: Seq<char>, p: Seq<char>) -> bool {
    (kind == histogram_kind() && has_prefix(p, le_prefix())) || (kind == summary_kind()
        && has_prefix(p, quantile_prefix()))
}

/// The pairs of `ps` that are not component pairs, in order.
pub open spec fn keep_pairs(kind: Seq<char>, ps: Seq<Seq<char>>) -> Seq<Seq<char>>
    decreases ps.len(),
{
    if ps.len() == 0 {
        seq![]
    } else {
        let rest = keep_pairs(kind, ps.drop_last());
        if component_pair(kind, ps.last()) {
            rest
        } else {
            rest.push(ps.last())
        }
    }
}

/// The label-set of a sample of a family of type `kind`.
pub open spec fn labelset_of(kind: Seq<char>, labels: Seq<char>) -> Seq<Seq<char>> {
    keep_pairs(kind, label_pairs(labels))
}

/// The pieces of `ps` joined by `, `.
pub open spec fn join_pairs(ps: Seq<Seq<char>>) -> Seq<char>
    decreases ps.len(),
{
    if ps.len() == 0 {
        seq![]
    } else if ps.len() == 1 {
        ps[0]
    } else {
        join_pairs(ps.drop_last()) + seq![',', ' '] + ps.last()
    }
}

fn prefix_exec(p: &Vec<char>, pre: &Vec<char>) -> (r: bool)
    ensures
        r == has_prefix(p@, pre@),
{
    if pre.len() > p.len() {
        return false;
    }
    let mut i: usize = 0;
    while i < pre.len()
        invariant
            pre@.len() <= p@.len(),
            i <= pre@.len(),
            forall|k: int| 0 <= k < i ==> p@[k] == pre@[k],
        decreases pre@.len() - i,
    {
        if p[i] != pre[i] {
            assert(p@.subrange(0, pre@.len() as int)[i as int] != pre@[i as int]);
            return false;
        }
        i = i + 1;
    }
    assert(p@.subrange(0, pre@.len() as int) =~= pre@);
    true
}

pub(crate) fn same_chars(a: &Vec<char>, b: &Vec<char>) -> (r: bool)
    ensures
        r == (a@ == b@),
{
    if a.len() != b.len() {
        return false;
    }
    let mut i: usize = 0;
    while i < a.len()
        invariant
            a@.len() == b@.len(),
            i <= a@.len(),
            forall|k: int| 0 <= k < i ==> a@[k] == b@[k],
        decreases a@.len() - i,
    {
        if a[i] != b[i] {
            return false;
        }
        i = i + 1;
    }
    assert(a@ =~= b@);
    true
}

/// Splits a label list into its pairs.
pub fn split_pairs(s: &Vec<char>) -> (r: Vec<Vec<char>>)
    ensures
        deep(r@) == label_pairs(s@),
{
    let mut acc: Vec<Vec<char>> = Vec::new();
    let mut cur: Vec<char> = Vec::new();
    let mut quoted = false;
    let mut i: usize = 0;
    assert(deep(acc@) =~= Seq::<Seq<char>>::empty());
    while i < s.len()
        invariant
            i <= s@.len(),
            label_pairs(s@) == pieces_from(s@, i as int, quoted, cur@, deep(acc@)),
        decreases s@.len() - i,
    {
        let c = s[i];
        if !quoted && c == ',' {
            if cur.len() > 0 {
                let ghost before = acc@;
                acc.push(cur);
                assert(deep(acc@) =~= deep(before).push(cur@));
            }
            cur = Vec::new();
            i = i + 1;
        } else if quoted && c == '\\' && i + 1 < s.len() {
            cur.push(c);
            cur.push(s[i + 1]);
            i = i + 2;
        } else {
            if c == '"' {
                quoted = !quoted;
            }
            cur.push(c);
            i = i + 1;
        }
    }
    if cur.len() > 0 {
        let ghost before = acc@;
        acc.push(cur);
        assert(deep(acc@) =~= deep(before).push(cur@));
    }
    acc
}

/// The label-set of a sample of a family of type `kind`: its pairs, less
/// the component pairs.
pub fn labelset(kind: &Vec<char>, labels: &Vec<char>) -> (r: Vec<Vec<char>>)
    ensures
        deep(r@) == labelset_of(kind@, labels@),
{
    let ps = split_pairs(labels);
    let hk: Vec<char> = vec!['h', 'i', 's', 't', 'o', 'g', 'r', 'a', 'm'];
    let sk: Vec<char> = vec!['s', 'u', 'm', 'm', 'a', 'r', 'y'];
    let le: Vec<char> = vec!['l', 'e', '='];
    let qu: Vec<char> = vec!['q', 'u', 'a', 'n', 't', 'i', 'l', 'e', '='];
    assert(hk@ =~= histogram_kind());
    assert(sk@ =~= summary_kind());
    assert(le@ =~= le_prefix());
    assert(qu@ =~= quantile_prefix());
    let is_h = same_chars(kind, &hk);
    let is_s = same_chars(kind, &sk);
    let mut out: Vec<Vec<char>> = Vec::new();
    let mut i: usize = 0;
    let ghost pv = deep(ps@);
    assert(deep(out@) =~= keep_pairs(kind@, pv.subrange(0, 0)));
    while i < ps.len()
        invariant
            i <= ps@.len(),
            pv == deep(ps@),
            pv.len() == ps@.len(),
            is_h == (kind@ == histogram_kind()),
            is_s == (kind@ == summary_kind()),
            le@ == le_prefix(),
            qu@ == quantile_prefix(),
            deep(out@) == keep_pairs(kind@, pv.subrange(0, i as int)),
        decreases ps@.len() - i,
    {
        let p = &ps[i];
        let skip = (is_h && prefix_exec(p, &le)) || (is_s && prefix_exec(p, &qu));
        let ghost before = out@;
        assert(pv.subrange(0, i + 1).drop_last() =~= pv.subrange(0, i as int));
        assert(pv.subrange(0, i + 1).last() == p@);
        if !skip {
            out.push(p.clone());
            assert(deep(out@) =~= deep(before).push(p@));
        }
        i = i + 1;
    }
    assert(pv.subrange(0, ps@.len() as int) =~= pv);
    out
}

/// Whether two label-sets are the same.
pub fn same_labelset(a: &Vec<Vec<char>>, b: &Vec<Vec<char>>) -> (r: bool)
    ensures
        r == (deep(a@) == deep(b@)),
{
    if a.len() != b.len() {
        assert(deep(a@).len() != deep(b@).len());
        return false;
    }
    let mut i: usize = 0;
    while i < a.len()
        invariant
            a@.len() == b@.len(),
            i <= a@.len(),
            forall|k: int| 0 <= k < i ==> deep(a@)[k] == deep(b@)[k],
        decreases a@.len() - i,
    {
        if !same_chars(&a[i], &b[i]) {
            assert(deep(a@)[i as int] != deep(b@)[i as int]);
            return false;
        }
        i = i + 1;
    }
    assert(deep(a@) =~= deep(b@));
    true
}

/// The pairs joined by `, `.
pub fn join(ps: &Vec<Vec<char>>) -> (r: Vec<char>)
    ensures
        r@ == join_pairs(deep(ps@)),
{
    let ghost pv = deep(ps@);
    let mut out: Vec<char> = Vec::new();
    let mut i: usize = 0;
    assert(out@ =~= join_pairs(pv.subrange(0, 0)));
    while i < ps.len()
        invariant
            i <= ps@.len(),
            pv == deep(ps@),
            out@ == join_pairs(pv.subrange(0, i as int)),
        decreases ps@.len() - i,
    {
        let ghost before = out@;
        assert(pv.subrange(0, i + 1).drop_last() =~= pv.subrange(0, i as int));
        assert(pv.subrange(0, i + 1).last() == ps@[i as int]@);
        if i > 0 {
            out.push(',');
            out.push(' ');
        }
        crate::text::append_chars(&mut out, &ps[i]);
        if i == 0 {
            assert(out@ =~= join_pairs(pv.subrange(0, 1)));
        } else {
            assert(out@ =~= before + seq![',', ' '] + ps@[i as int]@);
        }
        i = i + 1;
    }
    assert(pv.subrange(0, ps@.len() as int) =~= pv);
    out
}

} // verus!
