//! The two ways in which the outcomes of many fields become one result.
//!
//! Encrypting or decrypting a document fails as a whole on the first field that
//! fails. Rotating a batch never fails as a whole: each field ends up among the
//! successes or among the failures.

use vstd::prelude::*;
use crate::errors::{AlloyError, ErrorKind};
use crate::label_map::has_label;

verus! {

/// The outcome at `j` is a failure and no outcome before it is.
pub open spec fn is_first_failure<T>(outcomes: Seq<Result<T, ErrorKind>>, j: int) -> bool {
    &&& 0 <= j < outcomes.len()
    &&& outcomes[j] is Err
    &&& forall|k: int| 0 <= k < j ==> outcomes[k] is Ok
}

/// All values if every outcome is a success, and else the first failure.
pub open spec fn all_or_first_failure<T>(outcomes: Seq<Result<T, ErrorKind>>) -> Result<
    Seq<T>,
    ErrorKind,
> {
    if exists|j: int| is_first_failure(outcomes, j) {
        Err(outcomes[choose|j: int| is_first_failure(outcomes, j)]->Err_0)
    } else {
        Ok(Seq::new(outcomes.len(), |i: int| outcomes[i]->Ok_0))
    }
}

/// Where the outcome at `j` is the first failure, the whole fails with it.
pub proof fn lemma_fails_with_first<T>(outcomes: Seq<Result<T, ErrorKind>>, j: int)
    requires
        is_first_failure(outcomes, j),
    ensures
        all_or_first_failure(outcomes) == Err::<Seq<T>, ErrorKind>(outcomes[j]->Err_0),
{
    let chosen = choose|c: int| is_first_failure(outcomes, c);
    assert(chosen == j);
}

/// Where every outcome is a success, the whole succeeds with all values.
pub proof fn lemma_all_succeed<T>(outcomes: Seq<Result<T, ErrorKind>>)
    requires
        forall|k: int| 0 <= k < outcomes.len() ==> outcomes[k] is Ok,
    ensures
        all_or_first_failure(outcomes) == Ok::<Seq<T>, ErrorKind>(
            Seq::new(outcomes.len(), |i: int| outcomes[i]->Ok_0),
        ),
{
}

/// The values of the successful outcomes, each under the label of its field,
/// in the order of the fields.
pub open spec fn successes_of<T>(
    labels: Seq<Seq<char>>,
    outcomes: Seq<Result<T, ErrorKind>>,
) -> Seq<(Seq<char>, T)>
    decreases outcomes.len(),
{
    if outcomes.len() == 0 {
        Seq::empty()
    } else {
        let front = successes_of(labels, outcomes.drop_last());
        match outcomes.last() {
            Ok(value) => front.push((labels[outcomes.len() - 1], value)),
            Err(_) => front,
        }
    }
}

/// The kinds of the failed outcomes, each under the label of its field, in the
/// order of the fields.
pub open spec fn failures_of<T>(
    labels: Seq<Seq<char>>,
    outcomes: Seq<Result<T, ErrorKind>>,
) -> Seq<(Seq<char>, ErrorKind)>
    decreases outcomes.len(),
{
    if outcomes.len() == 0 {
        Seq::empty()
    } else {
        let front = failures_of(labels, outcomes.drop_last());
        match outcomes.last() {
            Ok(_) => front,
            Err(kind) => front.push((labels[outcomes.len() - 1], kind)),
        }
    }
}

/// The kinds of the failures of a batch, each under the label of its field.
pub open spec fn failure_kinds(failures: Seq<(Seq<char>, AlloyError)>) -> Seq<
    (Seq<char>, ErrorKind),
> {
    Seq::new(failures.len(), |i: int| (failures[i].0, failures[i].1.kind()))
}

/// Every field is among the successes or among the failures, and none in both:
/// the two lists together are as long as the batch.
pub proof fn lemma_batch_is_partition<T>(
    labels: Seq<Seq<char>>,
    outcomes: Seq<Result<T, ErrorKind>>,
)
    ensures
        successes_of(labels, outcomes).len() + failures_of(labels, outcomes).len()
            == outcomes.len(),
    decreases outcomes.len(),
{
    if outcomes.len() > 0 {
        lemma_batch_is_partition(labels, outcomes.drop_last());
    }
}

/// A label among the successes or the failures is the label of a field of the batch.
pub proof fn lemma_batch_labels<T>(
    labels: Seq<Seq<char>>,
    outcomes: Seq<Result<T, ErrorKind>>,
    label: Seq<char>,
)
    requires
        has_label(successes_of(labels, outcomes), label) || has_label(
            failures_of(labels, outcomes),
            label,
        ),
    ensures
        exists|i: int| 0 <= i < outcomes.len() && labels[i] == label,
    decreases outcomes.len(),
{
    if outcomes.len() > 0 {
        let front = outcomes.drop_last();
        let last = outcomes.len() - 1;
        let s = successes_of(labels, outcomes);
        let f = failures_of(labels, outcomes);
        if has_label(s, label) {
            let k = choose|k: int| 0 <= k < s.len() && #[trigger] s[k].0 == label;
            if outcomes.last() is Ok && k == s.len() - 1 {
                assert(labels[last] == label);
            } else {
                assert(successes_of(labels, front)[k].0 == label);
                lemma_batch_labels(labels, front, label);
                let i = choose|i: int| 0 <= i < front.len() && labels[i] == label;
                assert(0 <= i < outcomes.len() && labels[i] == label);
            }
        } else {
            let k = choose|k: int| 0 <= k < f.len() && #[trigger] f[k].0 == label;
            if outcomes.last() is Err && k == f.len() - 1 {
                assert(labels[last] == label);
            } else {
                assert(failures_of(labels, front)[k].0 == label);
                lemma_batch_labels(labels, front, label);
                let i = choose|i: int| 0 <= i < front.len() && labels[i] == label;
                assert(0 <= i < outcomes.len() && labels[i] == label);
            }
        }
    }
}

/// A field whose outcome is a success is listed among the successes, with the
/// value of that outcome, and not among the failures.
pub proof fn lemma_success_is_listed<T>(
    labels: Seq<Seq<char>>,
    outcomes: Seq<Result<T, ErrorKind>>,
    i: int,
)
    requires
        labels.len() >= outcomes.len(),
        forall|a: int, b: int| 0 <= a < b < labels.len() ==> labels[a] != labels[b],
        0 <= i < outcomes.len(),
        outcomes[i] is Ok,
    ensures
        exists|k: int|
            0 <= k < successes_of(labels, outcomes).len() && #[trigger] successes_of(
                labels,
                outcomes,
            )[k] == (labels[i], outcomes[i]->Ok_0),
        !has_label(failures_of(labels, outcomes), labels[i]),
    decreases outcomes.len(),
{
    let front = outcomes.drop_last();
    let last = outcomes.len() - 1;
    let s = successes_of(labels, outcomes);
    let f = failures_of(labels, outcomes);
    if has_label(failures_of(labels, front), labels[i]) {
        lemma_batch_labels(labels, front, labels[i]);
        let n = choose|n: int| 0 <= n < front.len() && labels[n] == labels[i];
        if i == last {
            assert(labels[n] != labels[last]);
        } else {
            lemma_success_is_listed(labels, front, i);
        }
    }
    if i == last {
        assert(s[s.len() - 1] == (labels[i], outcomes[i]->Ok_0));
        assert(f == failures_of(labels, front));
    } else {
        lemma_success_is_listed(labels, front, i);
        let k = choose|k: int|
            0 <= k < successes_of(labels, front).len() && #[trigger] successes_of(
                labels,
                front,
            )[k] == (labels[i], front[i]->Ok_0);
        assert(s[k] == (labels[i], outcomes[i]->Ok_0));
        if has_label(f, labels[i]) {
            let m = choose|m: int| 0 <= m < f.len() && #[trigger] f[m].0 == labels[i];
            if m < failures_of(labels, front).len() {
                assert(failures_of(labels, front)[m].0 == labels[i]);
            } else {
                assert(labels[last] == labels[i]);
            }
        }
    }
}

} // verus!
