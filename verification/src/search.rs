//! First-match search over sequences.
//!
//! Tag items, pictures and native comment entries are all kept in insertion
//! order and looked up by the first entry satisfying a predicate; the spec
//! function and lemmas here give that one shape to all three.

use vstd::prelude::*;

verus! {

/// The index of the first element of `s` satisfying `p`, if any.
pub open spec fn first_where<T>(s: Seq<T>, p: spec_fn(T) -> bool) -> Option<int>
    decreases s.len(),
{
    if s.len() == 0 {
        None
    } else if p(s[0]) {
        Some(0)
    } else {
        match first_where(s.drop_first(), p) {
            None => None,
            Some(i) => Some(i + 1),
        }
    }
}

pub proof fn lemma_first_where_props<T>(s: Seq<T>, p: spec_fn(T) -> bool)
    ensures
        match first_where(s, p) {
            Some(i) => 0 <= i < s.len() && p(s[i]) && (forall|j: int| 0 <= j < i ==> !p(s[j])),
            None => forall|j: int| 0 <= j < s.len() ==> !p(s[j]),
        },
    decreases s.len(),
{
    if s.len() > 0 && !p(s[0]) {
        lemma_first_where_props(s.drop_first(), p);
        match first_where(s.drop_first(), p) {
            Some(i) => {
                assert(first_where(s, p) == Some(i + 1));
                assert(p(s.drop_first()[i]));
                assert(s.drop_first()[i] == s[i + 1]);
                assert forall|j: int| 0 <= j < i + 1 implies !p(s[j]) by {
                    if j > 0 {
                        assert(s[j] == s.drop_first()[j - 1]);
                        assert(!p(s.drop_first()[j - 1]));
                    }
                }
            },
            None => {
                assert forall|j: int| 0 <= j < s.len() implies !p(s[j]) by {
                    if j > 0 {
                        assert(s[j] == s.drop_first()[j - 1]);
                        assert(!p(s.drop_first()[j - 1]));
                    }
                }
            },
        }
    }
}

/// A scan that saw no match in the first `i` elements pins `first_where` down.
pub proof fn lemma_first_where_at<T>(s: Seq<T>, p: spec_fn(T) -> bool, i: int)
    requires
        0 <= i <= s.len(),
        forall|j: int| 0 <= j < i ==> !p(s[j]),
    ensures
        i < s.len() && p(s[i]) ==> first_where(s, p) == Some(i),
        i == s.len() ==> first_where(s, p) is None,
    decreases s.len(),
{
    if s.len() > 0 && i > 0 {
        lemma_first_where_at(s.drop_first(), p, i - 1);
    }
}

/// Two sequences on which `p` agrees pointwise have the same first match.
pub proof fn lemma_first_where_agree<T>(s1: Seq<T>, s2: Seq<T>, p: spec_fn(T) -> bool)
    requires
        s1.len() == s2.len(),
        forall|j: int| 0 <= j < s1.len() ==> p(s1[j]) == p(#[trigger] s2[j]),
    ensures
        first_where(s1, p) == first_where(s2, p),
    decreases s1.len(),
{
    if s1.len() > 0 {
        assert(p(s1[0]) == p(s2[0]));
        assert(s1.drop_first().len() == s2.drop_first().len());
        assert forall|j: int| 0 <= j < s1.drop_first().len() implies p(s1.drop_first()[j]) == p(
            #[trigger] s2.drop_first()[j],
        ) by {
            assert(s1.drop_first()[j] == s1[j + 1]);
            assert(s2.drop_first()[j] == s2[j + 1]);
        }
        lemma_first_where_agree(s1.drop_first(), s2.drop_first(), p);
    }
}

/// How appending one element changes the first match.
pub proof fn lemma_first_where_push<T>(s: Seq<T>, p: spec_fn(T) -> bool, x: T)
    ensures
        first_where(s.push(x), p) == match first_where(s, p) {
            Some(i) => Some(i),
            None => if p(x) {
                Some(s.len() as int)
            } else {
                None
            },
        },
    decreases s.len(),
{
    if s.len() == 0 {
        assert(s.push(x)[0] == x);
        assert(s.push(x).drop_first() =~= Seq::<T>::empty());
        if !p(x) {
            assert(first_where(s.push(x), p) is None);
        }
    } else {
        let t = s.push(x);
        assert(t.len() == s.len() + 1);
        assert(t[0] == s[0]);
        assert(t.drop_first() =~= s.drop_first().push(x));
        lemma_first_where_push(s.drop_first(), p, x);
        if !p(s[0]) {
            assert(first_where(t, p) == match first_where(t.drop_first(), p) {
                None => None::<int>,
                Some(i) => Some(i + 1),
            });
            assert(first_where(t.drop_first(), p) == first_where(s.drop_first().push(x), p));
            assert(first_where(s, p) == match first_where(s.drop_first(), p) {
                None => None::<int>,
                Some(i) => Some(i + 1),
            });
            assert(s.drop_first().len() == s.len() - 1);
        }
    }
}

/// Removing an element on which `p` fails cannot unmake or make a first
/// match: a first match before the removed index stays put, one after it
/// shifts left by one.
pub proof fn lemma_first_where_remove<T>(s: Seq<T>, p: spec_fn(T) -> bool, i: int)
    requires
        0 <= i < s.len(),
        !p(s[i]),
    ensures
        first_where(s.remove(i), p) == match first_where(s, p) {
            None => None::<int>,
            Some(j) => if j < i {
                Some(j)
            } else {
                Some(j - 1)
            },
        },
    decreases s.len(),
{
    if i == 0 {
        assert(s.remove(0) =~= s.drop_first());
        assert(first_where(s, p) == match first_where(s.drop_first(), p) {
            None => None::<int>,
            Some(k) => Some(k + 1),
        });
        lemma_first_where_props(s.drop_first(), p);
    } else {
        let t = s.remove(i);
        assert(t.len() == s.len() - 1);
        assert(t[0] == s[0]);
        assert(t.drop_first() =~= s.drop_first().remove(i - 1));
        lemma_first_where_remove(s.drop_first(), p, i - 1);
        lemma_first_where_props(s.drop_first(), p);
        if p(s[0]) {
            assert(first_where(s, p) == Some(0int));
            assert(first_where(t, p) == Some(0int));
        } else {
            assert(first_where(s, p) == match first_where(s.drop_first(), p) {
                None => None::<int>,
                Some(k) => Some(k + 1),
            });
            assert(first_where(t, p) == match first_where(t.drop_first(), p) {
                None => None::<int>,
                Some(k) => Some(k + 1),
            });
            assert(first_where(t.drop_first(), p) == first_where(s.drop_first().remove(i - 1), p));
        }
    }
}

} // verus!
