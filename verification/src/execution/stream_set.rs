use indexmap::IndexSet;
use vstd::prelude::*;

use crate::execution::id::TaskKey;

verus! {

/// A task whose output streams are tracked: job, stage, partition and attempt.
pub type Producer = (u64, usize, usize, usize);

/// The insertion-ordered set of the `indexmap` crate.
#[verifier::external_type_specification]
#[verifier::external_body]
#[verifier::reject_recursive_types(T)]
#[verifier::reject_recursive_types(S)]
pub struct ExIndexSet<T, S>(IndexSet<T, S>);

/// The items of a set of producers, in insertion order.
pub uninterp spec fn producer_seq(set: IndexSet<(u64, usize, usize, usize)>) -> Seq<
    (u64, usize, usize, usize),
>;

/// The producer that stands for a task.
pub open spec fn producer_of(key: TaskKey) -> Producer {
    (key.job_id.0, key.stage, key.partition, key.attempt)
}

/// Whether a producer belongs to a job, and to one of its stages where one is given.
pub open spec fn produced_by(producer: Producer, job_id: u64, stage: Option<usize>) -> bool {
    producer.0 == job_id && (stage matches Some(s) ==> producer.1 == s)
}

/// The producers that are left once those of a job (or of one stage of it) are released.
pub open spec fn released(producers: Seq<Producer>, job_id: u64, stage: Option<usize>) -> Seq<
    Producer,
> {
    producers.filter(|producer: Producer| !produced_by(producer, job_id, stage))
}

/// The producers after one more is tracked.
pub open spec fn tracked_with(producers: Seq<Producer>, producer: Producer) -> Seq<Producer> {
    if producers.contains(producer) {
        producers
    } else {
        producers.push(producer)
    }
}

/// `IndexSet::new`: the set starts empty.
#[verifier::external_body]
pub(crate) fn producers_new() -> (set: IndexSet<(u64, usize, usize, usize)>)
    ensures
        producer_seq(set) == Seq::<Producer>::empty(),
{
    IndexSet::new()
}

/// `IndexSet::is_empty`: whether the set has no item.
#[verifier::external_body]
pub(crate) fn producers_is_empty(set: &IndexSet<(u64, usize, usize, usize)>) -> (empty: bool)
    ensures
        empty == (producer_seq(*set).len() == 0),
{
    set.is_empty()
}

/// `IndexSet::len`: the number of items.
#[verifier::external_body]
pub(crate) fn producers_len(set: &IndexSet<(u64, usize, usize, usize)>) -> (len: usize)
    ensures
        len == producer_seq(*set).len(),
{
    set.len()
}

/// `IndexSet::insert`: an item that is already there leaves the set as it is, any other
/// is added last.
#[verifier::external_body]
pub(crate) fn producers_insert(
    set: &mut IndexSet<(u64, usize, usize, usize)>,
    producer: (u64, usize, usize, usize),
)
    ensures
        producer_seq(*final(set)) == tracked_with(producer_seq(*old(set)), producer),
{
    set.insert(producer);
}

/// `IndexSet::retain`: the items for which the closure holds stay, in their order. Here
/// those go that a job, or one of its stages, has produced.
#[verifier::external_body]
pub(crate) fn producers_retain_others(
    set: &mut IndexSet<(u64, usize, usize, usize)>,
    job_id: u64,
    stage: Option<usize>,
)
    ensures
        producer_seq(*final(set)) == released(producer_seq(*old(set)), job_id, stage),
{
    set.retain(|producer| is_kept(producer, job_id, stage));
}

/// Whether a producer stays when those of a job, or of one of its stages, are released.
pub fn is_kept(producer: &Producer, job_id: u64, stage: Option<usize>) -> (kept: bool)
    ensures
        kept == !produced_by(*producer, job_id, stage),
{
    if producer.0 != job_id {
        return true;
    }
    match stage {
        Some(s) => producer.1 != s,
        None => false,
    }
}

/// Releasing shortens a set of producers exactly when one of them belongs to the job (or
/// to the stage of it).
pub proof fn lemma_released_len(producers: Seq<Producer>, job_id: u64, stage: Option<usize>)
    ensures
        released(producers, job_id, stage).len() <= producers.len(),
        released(producers, job_id, stage).len() < producers.len() <==> exists|i: int|
            0 <= i < producers.len() && produced_by(#[trigger] producers[i], job_id, stage),
    decreases producers.len(),
{
    reveal(Seq::filter);
    if producers.len() > 0 {
        let init = producers.drop_last();
        lemma_released_len(init, job_id, stage);
        if exists|i: int|
            0 <= i < producers.len() && produced_by(#[trigger] producers[i], job_id, stage) {
            let i = choose|i: int|
                0 <= i < producers.len() && produced_by(#[trigger] producers[i], job_id, stage);
            if i < init.len() {
                assert(produced_by(init[i], job_id, stage));
            }
        }
    }
}

/// The releases that [`lemma_released_len`] speaks of, computed.
pub(crate) fn release(
    set: &mut IndexSet<(u64, usize, usize, usize)>,
    job_id: u64,
    stage: Option<usize>,
) -> (any: bool)
    ensures
        producer_seq(*final(set)) == released(producer_seq(*old(set)), job_id, stage),
        any <==> exists|i: int|
            0 <= i < producer_seq(*old(set)).len() && produced_by(
                #[trigger] producer_seq(*old(set))[i],
                job_id,
                stage,
            ),
{
    let before: usize = producers_len(set);
    producers_retain_others(set, job_id, stage);
    let after: usize = producers_len(set);
    proof {
        lemma_released_len(producer_seq(*old(set)), job_id, stage);
    }
    after < before
}

} // verus!
