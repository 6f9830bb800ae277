//! The first element of a sequence that satisfies a predicate.
use vstd::prelude::*;

verus! {

/// The position of the first element of `s` that satisfies `p`.
pub open spec fn first_where<A>(s: Seq<A>, p: spec_fn(A) -> bool) -> Option<int>
    decreases s.len(),
{
    if s.len() == 0 {
        None
    } else if p(s[0]) {
        Some(0)
    } else {
        match first_where(s.drop_first(), p) {
            Some(i) => Some(i + 1),
            None => None,
        }
    }
}

/// Where no element before `j` satisfies `p`, the first that does is `j`
/// if `s[j]` does, and there is none if `j` is the end.
pub proof fn lemma_first_where<A>(s: Seq<A>, p: spec_fn(A) -> bool, j: int)
    requires
        0 <= j <= s.len(),
        forall|k: int| 0 <= k < j ==> !p(#[trigger] s[k]),
    ensures
        j < s.len() && p(s[j]) ==> first_where(s, p) == Some(j),
        j == s.len() ==> first_where(s, p) is None,
    decreases j,
{
    if j > 0 {
        let q = s.drop_first();
        assert forall|k: int| 0 <= k < j - 1 implies !p(#[trigger] q[k]) by {
            assert(q[k] == s[k + 1]);
        }
        lemma_first_where(q, p, j - 1);
        assert(!p(s[0]));
        if j < s.len() {
            assert(q[j - 1] == s[j]);
        }
    }
}

/// The first result of `first_where` satisfies `p`, and none before it does.
pub proof fn lemma_first_where_is_first<A>(s: Seq<A>, p: spec_fn(A) -> bool)
    ensures
        first_where(s, p) matches Some(i) ==> 0 <= i < s.len() && p(s[i]) && forall|k: int|
            0 <= k < i ==> !p(#[trigger] s[k]),
        first_where(s, p) is None ==> forall|k: int| 0 <= k < s.len() ==> !p(#[trigger] s[k]),
    decreases s.len(),
{
    if s.len() > 0 {
        let q = s.drop_first();
        lemma_first_where_is_first(q, p);
        assert forall|k: int| 0 < k < s.len() implies s[k] == q[k - 1] by {}
    }
}

/// Appending an element changes the first match only where there was none
/// before: then it is the new element, if that one satisfies `p`.
pub proof fn lemma_first_where_push<A>(s: Seq<A>, x: A, p: spec_fn(A) -> bool)
    ensures
        first_where(s.push(x), p) == match first_where(s, p) {
            Some(i) => Some(i),
            None => if p(x) {
                Some(s.len() as int)
            } else {
                None
            },
        },
{
    let t = s.push(x);
    lemma_first_where_is_first(s, p);
    assert forall|k: int| 0 <= k < s.len() implies t[k] == s[k] by {}
    match first_where(s, p) {
        Some(i) => {
            lemma_first_where(t, p, i);
        },
        None => {
            if p(x) {
                lemma_first_where(t, p, s.len() as int);
            } else {
                lemma_first_where(t, p, t.len() as int);
            }
        },
    }
}

} // verus!
