use indexmap::IndexMap;
use vstd::prelude::*;

use crate::execution::state::WorkerResource;

verus! {

use crate::assoc::{dropped, has_key, key_index, stored, value_of};

/// The insertion-ordered map of the `indexmap` crate.
#[verifier::external_type_specification]
#[verifier::external_body]
#[verifier::reject_recursive_types(K)]
#[verifier::reject_recursive_types(V)]
#[verifier::reject_recursive_types(S)]
pub struct ExIndexMap<K, V, S>(IndexMap<K, V, S>);

/// The workers in a map with their ids, in insertion order.
pub uninterp spec fn worker_entries(workers: IndexMap<u64, WorkerResource>) -> Seq<
    (u64, WorkerResource),
>;

/// `IndexMap::new`: the map starts empty.
#[verifier::external_body]
pub(crate) fn workers_new() -> (workers: IndexMap<u64, WorkerResource>)
    ensures
        worker_entries(workers) == Seq::<(u64, WorkerResource)>::empty(),
{
    IndexMap::new()
}

/// `IndexMap::len`: the number of entries.
#[verifier::external_body]
pub(crate) fn workers_len(workers: &IndexMap<u64, WorkerResource>) -> (len: usize)
    ensures
        len == worker_entries(*workers).len(),
{
    workers.len()
}

/// `IndexMap::contains_key`: whether an entry has the key.
#[verifier::external_body]
pub(crate) fn workers_contains(workers: &IndexMap<u64, WorkerResource>, id: u64) -> (found: bool)
    ensures
        found == has_key(worker_entries(*workers), id),
{
    workers.contains_key(&id)
}

/// `IndexMap::get`: the value under the key.
#[verifier::external_body]
pub(crate) fn workers_get(workers: &IndexMap<u64, WorkerResource>, id: u64) -> (worker: Option<
    &WorkerResource,
>)
    ensures
        worker is Some <==> has_key(worker_entries(*workers), id),
        worker matches Some(w) ==> value_of(worker_entries(*workers), id) == Some(*w),
{
    workers.get(&id)
}

/// `IndexMap::get_mut`: the value under the key, to be changed in its place.
#[verifier::external_body]
pub(crate) fn workers_get_mut(workers: &mut IndexMap<u64, WorkerResource>, id: u64) -> (worker:
    Option<&mut WorkerResource>)
    ensures
        worker is Some <==> has_key(worker_entries(*old(workers)), id),
        worker matches Some(w) ==> value_of(worker_entries(*old(workers)), id) == Some(*w)
            && worker_entries(*final(workers)) == worker_entries(*old(workers)).update(
            key_index(worker_entries(*old(workers)), id),
            (id, *final(w)),
        ),
        worker is None ==> *final(workers) == *old(workers),
{
    workers.get_mut(&id)
}

/// `IndexMap::get_index`: the entry at a position.
#[verifier::external_body]
pub(crate) fn workers_get_index(workers: &IndexMap<u64, WorkerResource>, index: usize) -> (entry:
    Option<(&u64, &WorkerResource)>)
    ensures
        entry is Some <==> index < worker_entries(*workers).len(),
        entry matches Some(e) ==> (*e.0, *e.1) == worker_entries(*workers)[index as int],
{
    workers.get_index(index)
}

/// `IndexMap::get_index_mut`: the entry at a position, whose value can be changed.
#[verifier::external_body]
pub(crate) fn workers_get_index_mut(
    workers: &mut IndexMap<u64, WorkerResource>,
    index: usize,
) -> (entry: Option<(&u64, &mut WorkerResource)>)
    ensures
        entry is Some <==> index < worker_entries(*old(workers)).len(),
        entry matches Some(e) ==> (*e.0, *e.1) == worker_entries(*old(workers))[index as int]
            && worker_entries(*final(workers)) == worker_entries(*old(workers)).update(
            index as int,
            (*e.0, *final(e.1)),
        ),
        entry is None ==> *final(workers) == *old(workers),
{
    workers.get_index_mut(index)
}

/// `IndexMap::insert`: the value under a key that is there is replaced in its place; a new
/// key is added last.
#[verifier::external_body]
pub(crate) fn workers_insert(
    workers: &mut IndexMap<u64, WorkerResource>,
    id: u64,
    worker: WorkerResource,
)
    ensures
        worker_entries(*final(workers)) == stored(worker_entries(*old(workers)), id, worker),
{
    workers.insert(id, worker);
}

/// `IndexMap::shift_remove`: the entry goes and those behind it move up. The value that was
/// under the key is returned.
#[verifier::external_body]
pub(crate) fn workers_shift_remove(
    workers: &mut IndexMap<u64, WorkerResource>,
    id: u64,
) -> (removed: Option<WorkerResource>)
    ensures
        worker_entries(*final(workers)) == dropped(worker_entries(*old(workers)), id),
        removed == value_of(worker_entries(*old(workers)), id),
{
    workers.shift_remove(&id)
}

} // verus!
