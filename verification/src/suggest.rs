//! "Did you mean?" suggestions for mistyped artifact kinds.
use vstd::prelude::*;
use crate::text::{lowercase_of, to_lowercase};

verus! {

pub open spec fn min3(a: nat, b: nat, c: nat) -> nat {
    if a <= b && a <= c {
        a
    } else if b <= c {
        b
    } else {
        c
    }
}

/// The Levenshtein distance: the least number of single-character
/// insertions, deletions and substitutions that turn `a` into `b`.
pub open spec fn levenshtein(a: Seq<char>, b: Seq<char>) -> nat
    decreases a.len() + b.len(),
{
    if a.len() == 0 {
        b.len()
    } else if b.len() == 0 {
        a.len()
    } else {
        min3(
            levenshtein(a.drop_first(), b) + 1,
            levenshtein(a, b.drop_first()) + 1,
            levenshtein(a.drop_first(), b.drop_first()) + if a[0] == b[0] {
                0nat
            } else {
                1nat
            },
        )
    }
}

/// The distance between two texts is zero exactly when they are equal.
pub proof fn lemma_levenshtein_zero_iff_equal(a: Seq<char>, b: Seq<char>)
    ensures
        (levenshtein(a, b) == 0) == (a == b),
    decreases a.len() + b.len(),
{
    if a.len() == 0 || b.len() == 0 {
        if a.len() == 0 && b.len() == 0 {
            assert(a =~= b);
        }
    } else {
        lemma_levenshtein_zero_iff_equal(a.drop_first(), b.drop_first());
        if a == b {
            assert(a.drop_first() =~= b.drop_first());
        }
        if levenshtein(a, b) == 0 {
            assert(a =~= seq![a[0]] + a.drop_first());
            assert(b =~= seq![b[0]] + b.drop_first());
        }
    }
}

/// Calls `edit_distance::edit_distance`, documented as the Levenshtein
/// distance between the two strings, counted over their characters.
#[verifier::external_body]
fn edit_distance(a: &str, b: &str) -> (d: usize)
    ensures
        d == levenshtein(a@, b@),
{
    edit_distance::edit_distance(a, b)
}

/// The largest distance at which a candidate is still suggested.
pub const MAX_SUGGESTION_DISTANCE: usize = 3;

/// `i` is the position of the first smallest distance, and that distance is
/// small enough to suggest.
pub open spec fn is_closest(ds: Seq<int>, i: int) -> bool {
    &&& 0 <= i < ds.len()
    &&& ds[i] <= 3
    &&& forall|j: int| 0 <= j < ds.len() ==> ds[i] <= #[trigger] ds[j]
    &&& forall|j: int| 0 <= j < i ==> ds[i] < #[trigger] ds[j]
}

/// Picks the position of the first smallest distance that is at most 3, or
/// nothing when every distance is larger.
pub fn closest_index(distances: &[usize]) -> (res: Option<usize>)
    ensures
        match res {
            Some(i) => is_closest(distances@.map_values(|d: usize| d as int), i as int),
            None => forall|j: int| 0 <= j < distances@.len() ==> #[trigger] distances@[j] > 3,
        },
{
    let ghost ds = distances@.map_values(|d: usize| d as int);
    let mut best: Option<usize> = None;
    let mut i: usize = 0;
    while i < distances.len()
        invariant
            i <= distances@.len(),
            ds == distances@.map_values(|d: usize| d as int),
            match best {
                Some(b) => {
                    &&& b < i
                    &&& distances@[b as int] <= 3
                    &&& forall|j: int| 0 <= j < i ==> distances@[b as int] <= #[trigger] distances@[j]
                    &&& forall|j: int| 0 <= j < b ==> distances@[b as int] < #[trigger] distances@[j]
                },
                None => forall|j: int| 0 <= j < i ==> #[trigger] distances@[j] > 3,
            },
        decreases distances@.len() - i,
    {
        let d = distances[i];
        match best {
            Some(b) => {
                if d < distances[b] {
                    best = Some(i);
                }
            },
            None => {
                if d <= MAX_SUGGESTION_DISTANCE {
                    best = Some(i);
                }
            },
        }
        i = i + 1;
    }
    proof {
        if let Some(b) = best {
            assert forall|j: int| 0 <= j < ds.len() implies ds[b as int] <= #[trigger] ds[j] by {
                assert(distances@[b as int] <= distances@[j]);
            }
            assert forall|j: int| 0 <= j < b implies ds[b as int] < #[trigger] ds[j] by {
                assert(distances@[b as int] < distances@[j]);
            }
        }
    }
    best
}

/// The edit distances from `input` to each candidate.
pub open spec fn distances_to(input: Seq<char>, candidates: Seq<&str>) -> Seq<int> {
    candidates.map_values(|c: &str| levenshtein(input, c@) as int)
}

/// Finds the candidate closest to `input` (lower-cased first) by edit
/// distance: the first of those at the smallest distance, provided that
/// distance is at most 3.
pub fn closest_match<'a>(input: &str, candidates: &[&'a str]) -> (res: Option<&'a str>)
    ensures
        match res {
            Some(c) => exists|i: int|
                is_closest(distances_to(lowercase_of(input@), candidates@), i)
                    && c == #[trigger] candidates@[i],
            None => forall|j: int|
                0 <= j < candidates@.len() ==> levenshtein(lowercase_of(input@), (#[trigger] candidates@[j])@) > 3,
        },
        // an exact (case-insensitive) match is always the suggestion
        forall|k: int|
            0 <= k < candidates@.len() && (#[trigger] candidates@[k])@ == lowercase_of(input@)
                && (forall|j: int| 0 <= j < k ==> (#[trigger] candidates@[j])@ != lowercase_of(input@))
                ==> res == Some(candidates@[k]),
{
    let lower = to_lowercase(input);
    let mut distances: Vec<usize> = Vec::new();
    let mut i: usize = 0;
    while i < candidates.len()
        invariant
            i <= candidates@.len(),
            lower@ == lowercase_of(input@),
            distances@.len() == i,
            forall|j: int| 0 <= j < i ==> #[trigger] distances@[j] == levenshtein(lower@, candidates@[j]@),
        decreases candidates@.len() - i,
    {
        let d = edit_distance(lower.as_str(), candidates[i]);
        distances.push(d);
        i = i + 1;
    }
    let ghost ds = distances_to(lowercase_of(input@), candidates@);
    assert(distances@.map_values(|d: usize| d as int) =~= ds);
    match closest_index(distances.as_slice()) {
        Some(k) => {
            assert(is_closest(ds, k as int));
            proof {
                assert forall|m: int|
                    0 <= m < candidates@.len() && (#[trigger] candidates@[m])@ == lowercase_of(input@)
                        && (forall|j: int| 0 <= j < m ==> (#[trigger] candidates@[j])@ != lowercase_of(input@))
                    implies candidates@[k as int] == candidates@[m] by {
                    lemma_levenshtein_zero_iff_equal(lowercase_of(input@), candidates@[m]@);
                    lemma_levenshtein_zero_iff_equal(lowercase_of(input@), candidates@[k as int]@);
                    assert(ds[m] == 0);
                    assert(ds[k as int] <= ds[m]);
                    if m < k {
                        assert(ds[k as int] < ds[m]);
                    } else if k < m {
                        assert(candidates@[k as int]@ != lowercase_of(input@));
                    }
                }
            }
            Some(candidates[k])
        },
        None => {
            assert forall|j: int| 0 <= j < candidates@.len() implies levenshtein(lowercase_of(input@), (#[trigger] candidates@[j])@) > 3 by {
                assert(distances@[j] > 3);
            }
            assert forall|m: int| 0 <= m < candidates@.len() implies (#[trigger] candidates@[m])@ != lowercase_of(input@) by {
                assert(distances@[m] > 3);
                lemma_levenshtein_zero_iff_equal(lowercase_of(input@), candidates@[m]@);
            }
            None
        },
    }
}

} // verus!
