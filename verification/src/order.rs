//! Sorted sets of texts: the code-point order `String` sorts by, and a
//! verified insertion that keeps a list strictly ascending and duplicate-free.

use vstd::prelude::*;
use crate::text::{
    chars_eq, chars_of, lemma_lex_irreflexive, lemma_lex_total,
    lemma_lex_transitive, lex_less, lex_lt, slice_chars, string_of,
};

verus! {

/// The character sequences held by a list of character vectors.
pub open spec fn views(v: Seq<Vec<char>>) -> Seq<Seq<char>> {
    v.map_values(|x: Vec<char>| x@)
}

/// The character sequences held by a list of strings.
pub open spec fn string_views(v: Seq<String>) -> Seq<Seq<char>> {
    v.map_values(|x: String| x@)
}

/// `s` is strictly ascending in code-point order (hence duplicate-free).
pub open spec fn strictly_sorted(s: Seq<Seq<char>>) -> bool {
    forall|a: int, b: int| 0 <= a < b < s.len() ==> lex_lt(#[trigger] s[a], #[trigger] s[b])
}

/// Insert `x` into the strictly sorted `set` unless it is already there.
pub fn insert_sorted(set: &mut Vec<Vec<char>>, x: &[char])
    requires
        strictly_sorted(views(old(set)@)),
    ensures
        strictly_sorted(views(final(set)@)),
        forall|y: Seq<char>|
            views(final(set)@).contains(y) <==> (views(old(set)@).contains(y) || y == x@),
{
    let ghost old_v = views(set@);
    let mut p: usize = 0;
    while p < set.len() && lex_less(set[p].as_slice(), x)
        invariant
            p <= set.len(),
            views(set@) == old_v,
            strictly_sorted(old_v),
            forall|k: int| 0 <= k < p ==> lex_lt(#[trigger] old_v[k], x@),
        decreases set.len() - p,
    {
        p += 1;
    }
    if p < set.len() && chars_eq(set[p].as_slice(), x) {
        assert(views(set@)[p as int] == x@);
        return;
    }
    proof {
        if p < set.len() {
            lemma_lex_total(old_v[p as int], x@);
        }
    }
    let item = slice_chars(x, 0, x.len());
    assert(item@ =~= x@);
    set.insert(p, item);
    proof {
        let nv = views(set@);
        assert(nv =~= old_v.insert(p as int, x@));
        assert forall|a: int, b: int| 0 <= a < b < nv.len() implies lex_lt(
            #[trigger] nv[a],
            #[trigger] nv[b],
        ) by {
            if b < p {
            } else if b == p {
            } else if a < p {
                lemma_lex_transitive(nv[a], x@, old_v[p as int]);
                if b - 1 > p {
                    lemma_lex_transitive(nv[a], old_v[p as int], old_v[b - 1]);
                }
            } else if a == p {
                if b - 1 > p {
                    lemma_lex_transitive(x@, old_v[p as int], old_v[b - 1]);
                }
            } else {
            }
        }
        assert forall|y: Seq<char>| nv.contains(y) <==> (old_v.contains(y) || y == x@) by {
            if nv.contains(y) {
                let k = choose|k: int| 0 <= k < nv.len() && nv[k] == y;
                if k < p {
                    assert(old_v[k] == y);
                } else if k > p {
                    assert(old_v[k - 1] == y);
                }
            }
            if old_v.contains(y) {
                let k = choose|k: int| 0 <= k < old_v.len() && old_v[k] == y;
                if k < p {
                    assert(nv[k] == y);
                } else {
                    assert(nv[k + 1] == y);
                }
            }
            if y == x@ {
                assert(nv[p as int] == y);
            }
        }
    }
}

/// The distinct texts of `items`, strictly ascending (a sorted set).
pub fn sorted_set(items: &Vec<Vec<char>>) -> (r: Vec<Vec<char>>)
    ensures
        strictly_sorted(views(r@)),
        forall|y: Seq<char>| views(r@).contains(y) <==> views(items@).contains(y),
{
    let mut r: Vec<Vec<char>> = Vec::new();
    let mut i: usize = 0;
    assert(views(r@) =~= Seq::<Seq<char>>::empty());
    while i < items.len()
        invariant
            i <= items.len(),
            strictly_sorted(views(r@)),
            forall|y: Seq<char>|
                views(r@).contains(y) <==> views(items@).take(i as int).contains(y),
        decreases items.len() - i,
    {
        insert_sorted(&mut r, items[i].as_slice());
        proof {
            let t1 = views(items@).take(i + 1);
            let t0 = views(items@).take(i as int);
            assert(t1 =~= t0.push(items@[i as int]@));
            assert forall|y: Seq<char>| t1.contains(y) <==> (t0.contains(y) || y == items@[i as int]@) by {
                if t1.contains(y) {
                    let k = choose|k: int| 0 <= k < t1.len() && t1[k] == y;
                    if k < i {
                        assert(t0[k] == y);
                    }
                }
                if t0.contains(y) {
                    let k = choose|k: int| 0 <= k < t0.len() && t0[k] == y;
                    assert(t1[k] == y);
                }
                if y == items@[i as int]@ {
                    assert(t1[i as int] == y);
                }
            }
        }
        i += 1;
    }
    assert(views(items@).take(items.len() as int) =~= views(items@));
    r
}

/// The texts as `String`s, in the same order.
pub fn to_strings(v: &Vec<Vec<char>>) -> (r: Vec<String>)
    ensures
        string_views(r@) == views(v@),
{
    let mut r: Vec<String> = Vec::new();
    let mut i: usize = 0;
    while i < v.len()
        invariant
            i <= v.len(),
            r@.len() == i,
            string_views(r@) == views(v@).take(i as int),
        decreases v.len() - i,
    {
        let s = string_of(v[i].as_slice());
        let ghost before = r@;
        r.push(s);
        proof {
            assert forall|k: int| 0 <= k <= i implies #[trigger] string_views(r@)[k] == views(
                v@,
            ).take(i + 1)[k] by {
                if k < i {
                    assert(r@[k] == before[k]);
                    assert(string_views(before)[k] == views(v@).take(i as int)[k]);
                }
            }
        }
        i += 1;
        assert(string_views(r@) =~= views(v@).take(i as int));
    }
    assert(views(v@).take(v.len() as int) =~= views(v@));
    r
}

/// The distinct texts of `names`, strictly ascending in code-point order
/// (the order `String` sorts by): a sort followed by a dedup.
pub fn sorted_strings(names: &Vec<String>) -> (r: Vec<String>)
    ensures
        strictly_sorted(string_views(r@)),
        forall|y: Seq<char>| string_views(r@).contains(y) <==> string_views(names@).contains(y),
{
    let mut cs: Vec<Vec<char>> = Vec::new();
    let mut i: usize = 0;
    while i < names.len()
        invariant
            i <= names.len(),
            views(cs@) == string_views(names@).take(i as int),
        decreases names.len() - i,
    {
        let c = chars_of(names[i].as_str());
        let ghost before = views(cs@);
        cs.push(c);
        assert(views(cs@) =~= before.push(c@));
        i += 1;
        assert(views(cs@) =~= string_views(names@).take(i as int));
    }
    assert(string_views(names@).take(names.len() as int) =~= string_views(names@));
    let s = sorted_set(&cs);
    to_strings(&s)
}

/// A strictly sorted list holds no text twice.
pub proof fn lemma_sorted_distinct(s: Seq<Seq<char>>)
    requires
        strictly_sorted(s),
    ensures
        forall|a: int, b: int| 0 <= a < s.len() && 0 <= b < s.len() && a != b ==> s[a] != s[b],
{
    assert forall|a: int, b: int| 0 <= a < s.len() && 0 <= b < s.len() && a != b implies s[a]
        != s[b] by {
        if a < b {
            assert(lex_lt(s[a], s[b]));
            lemma_lex_irreflexive(s[a]);
        } else {
            assert(lex_lt(s[b], s[a]));
            lemma_lex_irreflexive(s[b]);
        }
    }
}

} // verus!
