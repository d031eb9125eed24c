//! Sorting a list of strings into the order of strings.

use crate::text::{compare, lemma_precedes_total, lemma_precedes_transitive, lemma_rank_flip, precedes, Rank};
use vstd::prelude::*;
use vstd::relations::sorted_by;
use vstd::seq_lib::{lemma_multiset_commutative, lemma_sorted_unique, to_multiset_build};

verus! {

/// The texts that a list of strings holds, in the list's order.
pub open spec fn texts(list: Seq<String>) -> Seq<Seq<char>> {
    list.map_values(|s: String| s@)
}

/// Every text of `list` comes no later than each text behind it.
pub open spec fn ascending(list: Seq<Seq<char>>) -> bool {
    forall|i: int, j: int| 0 <= i < j < list.len() ==> precedes(#[trigger] list[i], #[trigger] list[j])
}

/// `sorted` holds the texts of `list`, each as often as `list` does, in
/// ascending order.
pub open spec fn is_sorted_form(list: Seq<Seq<char>>, sorted: Seq<Seq<char>>) -> bool {
    &&& ascending(sorted)
    &&& sorted.to_multiset() == list.to_multiset()
}

/// A list has one sorted form only.
pub proof fn lemma_sorted_form_unique(list: Seq<Seq<char>>, one: Seq<Seq<char>>, other: Seq<Seq<char>>)
    requires
        is_sorted_form(list, one),
        is_sorted_form(list, other),
    ensures
        one == other,
{
    let leq = |a: Seq<char>, b: Seq<char>| precedes(a, b);
    lemma_precedes_total();
    assert(sorted_by(one, leq));
    assert(sorted_by(other, leq));
    lemma_sorted_unique(one, other, leq);
}

/// Merges two ascending lists into one.
fn merge(left: &Vec<String>, right: &Vec<String>) -> (out: Vec<String>)
    requires
        ascending(texts(left@)),
        ascending(texts(right@)),
    ensures
        ascending(texts(out@)),
        texts(out@).to_multiset() == texts(left@).to_multiset().add(texts(right@).to_multiset()),
{
    let ghost l = texts(left@);
    let ghost r = texts(right@);
    let mut out: Vec<String> = Vec::new();
    let mut i: usize = 0;
    let mut j: usize = 0;
    proof {
        assert(texts(out@) =~= Seq::<Seq<char>>::empty());
        lemma_multiset_commutative(l.take(0), r.take(0));
        assert(l.take(0) + r.take(0) =~= Seq::<Seq<char>>::empty());
    }
    while i < left.len() || j < right.len()
        invariant
            l == texts(left@),
            r == texts(right@),
            ascending(l),
            ascending(r),
            i <= left.len(),
            j <= right.len(),
            ascending(texts(out@)),
            texts(out@).to_multiset() == l.take(i as int).to_multiset().add(
                r.take(j as int).to_multiset(),
            ),
            forall|k: int, m: int|
                0 <= k < out.len() && i <= m < l.len() ==> precedes(
                    #[trigger] texts(out@)[k],
                    #[trigger] l[m],
                ),
            forall|k: int, m: int|
                0 <= k < out.len() && j <= m < r.len() ==> precedes(
                    #[trigger] texts(out@)[k],
                    #[trigger] r[m],
                ),
        decreases left.len() - i + right.len() - j,
    {
        let from_left: bool = if i >= left.len() {
            false
        } else if j >= right.len() {
            true
        } else {
            match compare(left[i].as_str(), right[j].as_str()) {
                Rank::After => false,
                _ => true,
            }
        };
        let ghost before = texts(out@);
        if from_left {
            let item = left[i].clone();
            proof {
                let x = l[i as int];
                assert(texts(out@.push(item)) =~= before.push(x));
                assert(l.take(i + 1) =~= l.take(i as int).push(x));
                to_multiset_build(before, x);
                to_multiset_build(l.take(i as int), x);
                assert(before.push(x).to_multiset() =~= l.take(i + 1).to_multiset().add(
                    r.take(j as int).to_multiset(),
                ));
                assert forall|m: int| j <= m < r.len() implies precedes(x, #[trigger] r[m]) by {
                    if m > j {
                        lemma_precedes_transitive(x, r[j as int], r[m]);
                    }
                }
            }
            out.push(item);
            i = i + 1;
        } else {
            let item = right[j].clone();
            proof {
                let x = r[j as int];
                assert(texts(out@.push(item)) =~= before.push(x));
                assert(r.take(j + 1) =~= r.take(j as int).push(x));
                to_multiset_build(before, x);
                to_multiset_build(r.take(j as int), x);
                assert(before.push(x).to_multiset() =~= l.take(i as int).to_multiset().add(
                    r.take(j + 1).to_multiset(),
                ));
                assert forall|m: int| i <= m < l.len() implies precedes(x, #[trigger] l[m]) by {
                    lemma_rank_flip(l[i as int], x);
                    if m > i {
                        lemma_precedes_transitive(x, l[i as int], l[m]);
                    }
                }
            }
            out.push(item);
            j = j + 1;
        }
    }
    proof {
        assert(l.take(i as int) =~= l);
        assert(r.take(j as int) =~= r);
    }
    out
}

/// Sorts the part of `list` from `from` up to `to`.
fn sort_range(list: &Vec<String>, from: usize, to: usize) -> (out: Vec<String>)
    requires
        from <= to <= list.len(),
    ensures
        is_sorted_form(texts(list@).subrange(from as int, to as int), texts(out@)),
    decreases to - from,
{
    let ghost all = texts(list@);
    if to - from <= 1 {
        let mut out: Vec<String> = Vec::new();
        if to - from == 1 {
            out.push(list[from].clone());
        }
        proof {
            assert(texts(out@) =~= all.subrange(from as int, to as int));
        }
        out
    } else {
        let mid: usize = from + (to - from) / 2;
        let left = sort_range(list, from, mid);
        let right = sort_range(list, mid, to);
        proof {
            let a = all.subrange(from as int, mid as int);
            let b = all.subrange(mid as int, to as int);
            assert(a + b =~= all.subrange(from as int, to as int));
            lemma_multiset_commutative(a, b);
        }
        merge(&left, &right)
    }
}

/// Sorts a list of strings; equal strings stay as often as they came.
pub fn sort_strings(list: &Vec<String>) -> (out: Vec<String>)
    ensures
        is_sorted_form(texts(list@), texts(out@)),
{
    proof {
        assert(texts(list@).subrange(0, list.len() as int) =~= texts(list@));
    }
    sort_range(list, 0, list.len())
}

} // verus!
