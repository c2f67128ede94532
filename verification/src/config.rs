//! The capability that a configuration value has to offer.

use vstd::pervasive::strictly_cloned;
use vstd::prelude::*;

verus! {

/// A configuration value that a partial configuration, given as raw text, can
/// be merged onto.
///
/// An implementation reads `source` as a sparse description of the
/// configuration, takes every field that `source` mentions from it and every
/// other field from `self`, and answers malformed text with a message for the
/// user. It leaves `self` as it is.
///
/// The extraction never looks into a configuration: it hands the
/// configuration in effect and the text of a block to `merge_serialized` and
/// stores what comes back.
pub trait MergeSerialized {
    fn merge_serialized(&self, source: String) -> Result<Self, String> where Self: Sized;
}

/// The outcome of a merge, with the message as a sequence of characters.
pub open spec fn outcome_view<O>(outcome: Result<O, String>) -> Result<O, Seq<char>> {
    match outcome {
        Ok(value) => Ok(value),
        Err(message) => Err(message@),
    }
}

/// A call of `merge_serialized` on `current` with `source` may end in
/// `outcome`.
pub open spec fn may_merge_to<O: MergeSerialized>(
    current: O,
    source: String,
    outcome: Result<O, String>,
) -> bool {
    call_ensures(O::merge_serialized, (&current, source), outcome)
}

/// The outcome of merging the text `source` onto `current`, for a type whose
/// merge is pure (see [`merge_is_pure`]): what some call with that text may
/// end in.
pub open spec fn merged<O: MergeSerialized>(current: O, source: Seq<char>) -> Result<
    O,
    Seq<char>,
> {
    let call = choose|call: (String, Result<O, String>)|
        call.0@ == source && #[trigger] may_merge_to(current, call.0, call.1);
    outcome_view(call.1)
}

/// Merging is a function of the current value and of the characters of the
/// text: every call with the same two ends in the same outcome.
pub open spec fn merge_is_pure<O: MergeSerialized>() -> bool {
    forall|current: O, source: String, outcome: Result<O, String>| #[trigger]
        may_merge_to(current, source, outcome) ==> outcome_view(outcome) == merged(
            current,
            source@,
        )
}

/// Cloning a `T` gives back an equal value, so that a clone is a snapshot.
pub open spec fn clone_is_exact<T: Clone>() -> bool {
    forall|a: T, b: T| #[trigger] strictly_cloned(a, b) ==> a == b
}

/// What the extraction expects of a configuration type: its merge is pure
/// and its clones are snapshots. For such a type an extraction has one
/// result only.
pub open spec fn obeys_configuration_laws<O: MergeSerialized + Clone>() -> bool {
    merge_is_pure::<O>() && clone_is_exact::<O>()
}

/// Where every call of `merge_serialized` ends as the function `merge` says,
/// the merge is pure and [`merged`] is that function.
pub proof fn lemma_merge_is_pure<O: MergeSerialized>(
    merge: spec_fn(O, Seq<char>) -> Result<O, Seq<char>>,
)
    requires
        forall|current: O, source: String, outcome: Result<O, String>| #[trigger]
            may_merge_to(current, source, outcome) ==> outcome_view(outcome) == merge(
                current,
                source@,
            ),
    ensures
        merge_is_pure::<O>(),
        forall|current: O, source: String, outcome: Result<O, String>| #[trigger]
            may_merge_to(current, source, outcome) ==> merged(current, source@) == merge(
                current,
                source@,
            ),
{
    assert forall|current: O, source: String, outcome: Result<O, String>| #[trigger]
        may_merge_to(current, source, outcome) implies outcome_view(outcome) == merged(
        current,
        source@,
    ) && merged(current, source@) == merge(current, source@) by {
        let call = (source, outcome);
        assert(call.0@ == source@ && may_merge_to(current, call.0, call.1));
    }
}

} // verus!
