//! Text as sequences of characters: the order of strings and their lower case.

use vstd::prelude::*;
use vstd::relations::total_ordering;
use vstd::std_specs::iter::IteratorSpec;

verus! {

/// How one text stands to another in the order of strings.
#[derive(Clone, Copy, Debug, PartialEq, Eq, Structural)]
pub enum Rank {
    Before,
    Same,
    After,
}

/// The lexicographic order of two texts, character by character, each
/// character ranked by its code point; a proper prefix comes first.
pub open spec fn rank(a: Seq<char>, b: Seq<char>) -> Rank
    decreases a.len(),
{
    if a.len() == 0 {
        if b.len() == 0 {
            Rank::Same
        } else {
            Rank::Before
        }
    } else if b.len() == 0 {
        Rank::After
    } else if a[0] < b[0] {
        Rank::Before
    } else if a[0] > b[0] {
        Rank::After
    } else {
        rank(a.drop_first(), b.drop_first())
    }
}

/// `a` comes no later than `b` in the order of strings.
pub open spec fn precedes(a: Seq<char>, b: Seq<char>) -> bool {
    rank(a, b) != Rank::After
}

/// Ranks `a` against `b`.
pub fn compare(a: &str, b: &str) -> (r: Rank)
    ensures
        r == rank(a@, b@),
{
    let mut left = a.chars();
    let mut right = b.chars();
    loop
        invariant
            rank(a@, b@) == rank(left.remaining(), right.remaining()),
            left.decrease() is Some,
        decreases left.decrease()->0,
    {
        let x = left.next();
        let y = right.next();
        match (x, y) {
            (None, None) => {
                return Rank::Same;
            },
            (None, Some(_)) => {
                return Rank::Before;
            },
            (Some(_), None) => {
                return Rank::After;
            },
            (Some(p), Some(q)) => {
                if p < q {
                    return Rank::Before;
                }
                if p > q {
                    return Rank::After;
                }
            },
        }
    }
}

/// Two texts rank the same exactly when they are the same text.
pub proof fn lemma_rank_same(a: Seq<char>, b: Seq<char>)
    ensures
        rank(a, b) == Rank::Same <==> a == b,
    decreases a.len(),
{
    if a.len() > 0 && b.len() > 0 {
        lemma_rank_same(a.drop_first(), b.drop_first());
        if a[0] == b[0] && a.drop_first() == b.drop_first() {
            assert(a =~= seq![a[0]] + a.drop_first());
            assert(b =~= seq![b[0]] + b.drop_first());
        }
    } else if a.len() == 0 && b.len() == 0 {
        assert(a =~= b);
    }
}

/// Swapping the two texts swaps `Before` and `After`.
pub proof fn lemma_rank_flip(a: Seq<char>, b: Seq<char>)
    ensures
        rank(a, b) == Rank::Before <==> rank(b, a) == Rank::After,
        rank(a, b) == Rank::Same <==> rank(b, a) == Rank::Same,
    decreases a.len(),
{
    if a.len() > 0 && b.len() > 0 {
        lemma_rank_flip(a.drop_first(), b.drop_first());
    }
}

/// The order of strings is transitive.
pub proof fn lemma_precedes_transitive(a: Seq<char>, b: Seq<char>, c: Seq<char>)
    requires
        precedes(a, b),
        precedes(b, c),
    ensures
        precedes(a, c),
    decreases a.len(),
{
    if a.len() > 0 && b.len() > 0 && c.len() > 0 {
        if a[0] == b[0] && b[0] == c[0] {
            lemma_precedes_transitive(a.drop_first(), b.drop_first(), c.drop_first());
        }
    }
}

/// The order of strings is a total order: reflexive, antisymmetric,
/// transitive, and any two texts are comparable.
pub proof fn lemma_precedes_total()
    ensures
        total_ordering(|a: Seq<char>, b: Seq<char>| precedes(a, b)),
{
    let leq = |a: Seq<char>, b: Seq<char>| precedes(a, b);
    assert forall|x: Seq<char>| #[trigger] leq(x, x) by {
        lemma_rank_same(x, x);
    }
    assert forall|x: Seq<char>, y: Seq<char>| #[trigger] leq(x, y) && #[trigger] leq(y, x) implies x
        == y by {
        lemma_rank_flip(x, y);
        lemma_rank_same(x, y);
    }
    assert forall|x: Seq<char>, y: Seq<char>, z: Seq<char>| #[trigger]
        leq(x, y) && #[trigger] leq(y, z) implies leq(x, z) by {
        lemma_precedes_transitive(x, y, z);
    }
    assert forall|x: Seq<char>, y: Seq<char>| #[trigger] leq(x, y) || #[trigger] leq(y, x) by {
        lemma_rank_flip(x, y);
    }
}

/// The lower case of a text, as `str::to_lowercase` gives it: each character
/// replaced by its lower-case form in Unicode, which may be several
/// characters.
pub uninterp spec fn lowercase_of(text: Seq<char>) -> Seq<char>;

/// Calls `str::to_lowercase`.
///
/// Trusted: the result is a function of the text alone, named
/// `lowercase_of`.
#[verifier::external_body]
pub(crate) fn to_lowercase(text: &str) -> (lower: String)
    ensures
        lower@ == lowercase_of(text@),
{
    text.to_lowercase()
}

} // verus!

