//! Choosing among candidates that are tried in a fixed order.
//!
//! The first candidate that is there is the one chosen, whatever the later
//! ones hold.

use vstd::prelude::*;

verus! {

/// The first of `candidates` that is there.
pub open spec fn first_some<T>(candidates: Seq<Option<T>>) -> Option<T>
    decreases candidates.len(),
{
    if candidates.len() == 0 {
        None
    } else if candidates[0] is Some {
        candidates[0]
    } else {
        first_some(candidates.drop_first())
    }
}

/// The text of an optional value.
pub open spec fn text_of(value: Option<String>) -> Option<Seq<char>> {
    match value {
        Some(text) => Some(text@),
        None => None,
    }
}

/// A candidate is the one chosen where it is there and none before it is,
/// whatever follows it.
pub proof fn lemma_first_some_is_earliest<T>(candidates: Seq<Option<T>>, i: int)
    requires
        0 <= i < candidates.len(),
        candidates[i] is Some,
        forall|j: int| 0 <= j < i ==> candidates[j] is None,
    ensures
        first_some(candidates) == candidates[i],
    decreases i,
{
    if i > 0 {
        let rest = candidates.drop_first();
        assert(candidates[0] is None);
        assert forall|j: int| 0 <= j < i - 1 implies rest[j] is None by {
            assert(rest[j] == candidates[j + 1]);
        }
        lemma_first_some_is_earliest(rest, i - 1);
    }
}

/// Nothing is chosen exactly where no candidate is there.
pub proof fn lemma_first_some_none<T>(candidates: Seq<Option<T>>)
    ensures
        first_some(candidates) is None <==> forall|j: int|
            0 <= j < candidates.len() ==> candidates[j] is None,
    decreases candidates.len(),
{
    if candidates.len() > 0 {
        let rest = candidates.drop_first();
        lemma_first_some_none(rest);
        if first_some(candidates) is None {
            assert forall|j: int| 0 <= j < candidates.len() implies candidates[j] is None by {
                if j > 0 {
                    assert(candidates[j] == rest[j - 1]);
                }
            }
        } else if candidates[0] is None {
            let j = choose|j: int| 0 <= j < rest.len() && rest[j] is Some;
            assert(candidates[j + 1] == rest[j]);
        }
    }
}

/// Choosing among values and choosing among their texts come to the same.
pub proof fn lemma_first_some_of_texts(
    values: Seq<Option<String>>,
    texts: Seq<Option<Seq<char>>>,
)
    requires
        values.len() == texts.len(),
        forall|i: int| 0 <= i < values.len() ==> text_of(values[i]) == texts[i],
    ensures
        text_of(first_some(values)) == first_some(texts),
    decreases values.len(),
{
    if values.len() > 0 {
        assert(text_of(values[0]) == texts[0]);
        let rest_values = values.drop_first();
        let rest_texts = texts.drop_first();
        assert forall|i: int| 0 <= i < rest_values.len() implies text_of(rest_values[i])
            == rest_texts[i] by {
            assert(text_of(values[i + 1]) == texts[i + 1]);
        }
        lemma_first_some_of_texts(rest_values, rest_texts);
    }
}

/// Returns the first of `candidates` that is there.
pub fn first_found(candidates: &[Option<String>]) -> (found: Option<String>)
    ensures
        found == first_some(candidates@),
{
    let mut i: usize = 0;
    proof {
        assert(candidates@.skip(0) == candidates@);
    }
    while i < candidates.len()
        invariant
            i <= candidates.len(),
            first_some(candidates@) == first_some(candidates@.skip(i as int)),
        decreases candidates.len() - i,
    {
        proof {
            assert(candidates@.skip(i as int).drop_first() == candidates@.skip(i + 1));
        }
        if let Some(text) = &candidates[i] {
            return Some(text.clone());
        }
        i += 1;
    }
    None
}

} // verus!
