//! The decision policies of the rendering kernel, verified over plain values.
//!
//! The kernel's arithmetic runs on floating-point vectors and must stay
//! outside the verified library, but what it *decides* with the numbers it
//! computes is discrete, and stands here with exact contracts:
//!
//! - which root of the intersection quadratic is taken (`select_root`);
//! - which shape's hit is the closest along a ray (`closest_hit_index`);
//! - whether a shadow ray is blocked strictly between its endpoints
//!   (`any_key_strictly_between`).
//!
//! Distances are handed in as *order keys*: unsigned values whose numeric
//! order agrees with the order of the distances they stand for. The caller
//! owns that agreement (nonnegative machine reals in their bit encoding have
//! it); every promise below is relative to it.

use vstd::prelude::*;

verus! {

/// Which of the two quadratic roots an intersection query returns.
#[derive(Clone, Copy, Debug, PartialEq, Eq, Structural)]
pub enum Root {
    /// The root `t1 = (-b + sqrt(disc)) / 2a`.
    First,
    /// The root `t2 = (-b - sqrt(disc)) / 2a`.
    Second,
}

/// The root-selection policy: if both roots lie behind the ray origin there
/// is no intersection; if exactly one lies ahead, it is taken; if both lie
/// ahead, the nearer one is taken.
pub open spec fn root_choice(t1_neg: bool, t2_neg: bool, t1_before_t2: bool) -> Option<Root> {
    if t1_neg && t2_neg {
        None
    } else if t1_neg {
        Some(Root::Second)
    } else if t2_neg {
        Some(Root::First)
    } else if t1_before_t2 {
        Some(Root::First)
    } else {
        Some(Root::Second)
    }
}

/// Applies the root-selection policy to the signs and the order of the two
/// roots: `t1_neg` and `t2_neg` say which roots lie behind the origin,
/// `t1_before_t2` whether the first root is at most the second.
pub fn select_root(t1_neg: bool, t2_neg: bool, t1_before_t2: bool) -> (r: Option<Root>)
    ensures
        r == root_choice(t1_neg, t2_neg, t1_before_t2),
{
    if t1_neg && t2_neg {
        None
    } else if t1_neg {
        Some(Root::Second)
    } else if t2_neg {
        Some(Root::First)
    } else if t1_before_t2 {
        Some(Root::First)
    } else {
        Some(Root::Second)
    }
}

/// Law: a root that lies behind the ray origin is never the one selected,
/// and nothing is selected exactly when both roots lie behind it.
pub proof fn negative_root_never_selected(t1_neg: bool, t2_neg: bool, t1_before_t2: bool)
    ensures
        t1_neg ==> root_choice(t1_neg, t2_neg, t1_before_t2) != Some(Root::First),
        t2_neg ==> root_choice(t1_neg, t2_neg, t1_before_t2) != Some(Root::Second),
        (t1_neg && t2_neg) <==> root_choice(t1_neg, t2_neg, t1_before_t2) is None,
{
}

/// No entry records a hit.
pub open spec fn all_missed(hits: Seq<Option<u32>>) -> bool {
    forall|i: int| 0 <= i < hits.len() ==> hits[i] is None
}

/// `j` is the first entry holding the smallest recorded key: every recorded
/// key is at least the one at `j`, and every earlier recorded key is
/// strictly larger.
pub open spec fn is_first_closest(hits: Seq<Option<u32>>, j: int) -> bool {
    &&& 0 <= j < hits.len()
    &&& hits[j] matches Some(kj)
    &&& (forall|i: int| 0 <= i < hits.len() ==> ((#[trigger] hits[i]) matches Some(ki) ==> kj
        <= ki))
    &&& (forall|i: int| 0 <= i < j ==> ((#[trigger] hits[i]) matches Some(ki) ==> kj < ki))
}

/// The closest-hit query of the shape collection: among the per-shape hit
/// keys, the index of the first entry with the smallest key, or nothing if
/// no shape was hit.
pub fn closest_hit_index(hits: &Vec<Option<u32>>) -> (r: Option<usize>)
    ensures
        r is None <==> all_missed(hits@),
        r matches Some(j) ==> is_first_closest(hits@, j as int),
{
    let mut best: Option<usize> = None;
    let mut best_key: u32 = 0;
    let mut i: usize = 0;
    while i < hits.len()
        invariant
            i <= hits@.len(),
            best is None ==> (forall|k: int| 0 <= k < i ==> (#[trigger] hits@[k]) is None),
            best matches Some(j) ==> j < i,
            best matches Some(j) ==> (hits@[j as int] matches Some(kj) && kj == best_key),
            best matches Some(j) ==> (forall|k: int|
                0 <= k < i ==> ((#[trigger] hits@[k]) matches Some(kk) ==> best_key <= kk)),
            best matches Some(j) ==> (forall|k: int|
                0 <= k < j ==> ((#[trigger] hits@[k]) matches Some(kk) ==> best_key < kk)),
        decreases hits@.len() - i,
    {
        let h: Option<u32> = hits[i];
        match h {
            Some(t) => {
                match best {
                    None => {
                        best = Some(i);
                        best_key = t;
                    },
                    Some(_) => {
                        if t < best_key {
                            best = Some(i);
                            best_key = t;
                        }
                    },
                }
            },
            None => {},
        }
        i = i + 1;
    }
    best
}

/// Law: the index that `closest_hit_index` characterizes is unique — two
/// first-closest positions are the same position.
pub proof fn first_closest_is_unique(hits: Seq<Option<u32>>, j1: int, j2: int)
    requires
        is_first_closest(hits, j1),
        is_first_closest(hits, j2),
    ensures
        j1 == j2,
{
    if j1 < j2 {
        assert(hits[j1] is Some);
        assert(hits[j2] is Some);
    } else if j2 < j1 {
        assert(hits[j1] is Some);
        assert(hits[j2] is Some);
    }
}

/// Law: of two recorded hits, the one with the strictly smaller key is
/// selected, whichever entry stands first.
pub proof fn closer_key_wins(a: u32, b: u32)
    requires
        a < b,
    ensures
        is_first_closest(seq![Some(a), Some(b)], 0),
        is_first_closest(seq![Some(b), Some(a)], 1),
{
}

/// Some entry records a hit whose key lies strictly between `lo` and `hi`.
pub open spec fn some_key_strictly_between(hits: Seq<Option<u32>>, lo: u32, hi: u32) -> bool {
    exists|i: int| 0 <= i < hits.len() && ((#[trigger] hits[i]) matches Some(k) && lo < k < hi)
}

/// The occlusion test of the shadow pass: whether any entry records a hit
/// strictly inside the open key interval — for a shadow ray whose direction
/// reaches from the surface point to the light, a hit strictly between the
/// two.
pub fn any_key_strictly_between(hits: &Vec<Option<u32>>, lo: u32, hi: u32) -> (r: bool)
    ensures
        r == some_key_strictly_between(hits@, lo, hi),
{
    let mut i: usize = 0;
    while i < hits.len()
        invariant
            i <= hits@.len(),
            forall|k: int|
                0 <= k < i ==> !((#[trigger] hits@[k]) matches Some(kk) && lo < kk < hi),
        decreases hits@.len() - i,
    {
        let h: Option<u32> = hits[i];
        match h {
            Some(k) => {
                if lo < k && k < hi {
                    proof {
                        assert(hits@[i as int] matches Some(kk) && lo < kk < hi);
                    }
                    return true;
                }
            },
            None => {},
        }
        i = i + 1;
    }
    false
}

} // verus!
