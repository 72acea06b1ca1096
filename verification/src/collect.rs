//! Gathering a sequence of outcomes into one: all the values, or the first
//! failure.

use vstd::prelude::*;

verus! {

/// The index of the first failure among the outcomes.
pub open spec fn first_failure<T, E>(outcomes: Seq<Result<T, E>>) -> Option<int>
    decreases outcomes.len(),
{
    if outcomes.len() == 0 {
        None
    } else {
        match first_failure(outcomes.drop_last()) {
            Some(i) => Some(i),
            None => if outcomes.last() is Err {
                Some(outcomes.len() - 1)
            } else {
                None
            },
        }
    }
}

/// All the values in order, or the first failure.
pub open spec fn gather<T, E>(outcomes: Seq<Result<T, E>>) -> Result<Seq<T>, E> {
    match first_failure(outcomes) {
        Some(i) => Err(outcomes[i]->Err_0),
        None => Ok(outcomes.map_values(|r: Result<T, E>| r->Ok_0)),
    }
}

/// The first failure is a failure with only successes before it, and there
/// is none only where every outcome is a success.
pub proof fn lemma_first_failure<T, E>(outcomes: Seq<Result<T, E>>)
    ensures
        match first_failure(outcomes) {
            Some(i) => 0 <= i < outcomes.len() && outcomes[i] is Err && forall|j: int|
                0 <= j < i ==> outcomes[j] is Ok,
            None => forall|j: int| 0 <= j < outcomes.len() ==> outcomes[j] is Ok,
        },
    decreases outcomes.len(),
{
    if outcomes.len() > 0 {
        let init = outcomes.drop_last();
        lemma_first_failure(init);
        assert forall|j: int| 0 <= j < init.len() implies init[j] == outcomes[j] by {}
        match first_failure(init) {
            Some(i) => {
                assert(init[i] == outcomes[i]);
                assert forall|j: int| 0 <= j < i implies outcomes[j] is Ok by {
                    assert(init[j] == outcomes[j]);
                }
            },
            None => {
                assert forall|j: int| 0 <= j < init.len() implies outcomes[j] is Ok by {
                    assert(init[j] == outcomes[j]);
                }
            },
        }
    }
}

/// Nothing gathers to nothing.
pub proof fn lemma_gather_empty<T, E>(outcomes: Seq<Result<T, E>>)
    requires
        outcomes.len() == 0,
    ensures
        gather(outcomes) == Ok::<Seq<T>, E>(Seq::empty()),
{
    assert(outcomes.map_values(|r: Result<T, E>| r->Ok_0) =~= Seq::<T>::empty());
}

/// One more success after gathered values is one more value.
proof fn lemma_gather_push_ok<T, E>(outcomes: Seq<Result<T, E>>, next: Result<T, E>)
    requires
        gather(outcomes) is Ok,
        next is Ok,
    ensures
        gather(outcomes.push(next)) == Ok::<Seq<T>, E>(
            gather(outcomes)->Ok_0.push(next->Ok_0),
        ),
{
    let longer = outcomes.push(next);
    assert(longer.drop_last() =~= outcomes);
    assert(longer.map_values(|r: Result<T, E>| r->Ok_0) =~= outcomes.map_values(
        |r: Result<T, E>| r->Ok_0,
    ).push(next->Ok_0));
}

/// A failure after gathered values is the failure of the whole.
proof fn lemma_gather_push_err<T, E>(outcomes: Seq<Result<T, E>>, next: Result<T, E>)
    requires
        gather(outcomes) is Ok,
        next is Err,
    ensures
        gather(outcomes.push(next)) == Err::<Seq<T>, E>(next->Err_0),
{
    let longer = outcomes.push(next);
    assert(longer.drop_last() =~= outcomes);
}

/// Whatever follows a failure, the failure stands.
proof fn lemma_gather_prefix_err<T, E>(outcomes: Seq<Result<T, E>>, k: int)
    requires
        0 <= k <= outcomes.len(),
        gather(outcomes.subrange(0, k)) is Err,
    ensures
        gather(outcomes) == gather(outcomes.subrange(0, k)),
    decreases outcomes.len() - k,
{
    if k < outcomes.len() {
        let next = outcomes.subrange(0, k + 1);
        assert(next.drop_last() =~= outcomes.subrange(0, k));
        assert(first_failure(next) == first_failure(outcomes.subrange(0, k)));
        let i = first_failure(next)->0;
        lemma_first_failure(outcomes.subrange(0, k));
        assert(next[i] == outcomes.subrange(0, k)[i]);
        lemma_gather_prefix_err(outcomes, k + 1);
    } else {
        assert(outcomes.subrange(0, k) =~= outcomes);
    }
}

/// What the next outcome does to what was gathered so far. Where the first
/// `k` outcomes are all values, a value at `k` is added to them, and a
/// failure at `k` is the failure of the whole sequence.
pub proof fn lemma_gather_next<T, E>(outcomes: Seq<Result<T, E>>, k: int)
    requires
        0 <= k < outcomes.len(),
        gather(outcomes.subrange(0, k)) is Ok,
    ensures
        match outcomes[k] {
            Ok(value) => gather(outcomes.subrange(0, k + 1)) == Ok::<Seq<T>, E>(
                gather(outcomes.subrange(0, k))->Ok_0.push(value),
            ),
            Err(failure) => gather(outcomes) == Err::<Seq<T>, E>(failure),
        },
{
    let seen = outcomes.subrange(0, k);
    assert(outcomes.subrange(0, k + 1) =~= seen.push(outcomes[k]));
    if outcomes[k] is Ok {
        lemma_gather_push_ok(seen, outcomes[k]);
    } else {
        lemma_gather_push_err(seen, outcomes[k]);
        lemma_gather_prefix_err(outcomes, k + 1);
    }
}

} // verus!
