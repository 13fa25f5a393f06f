//! Which snapshots of a table survive when old ones expire.

use std::collections::HashSet;

use vstd::prelude::*;

use crate::iceberg::table::{SnapshotReference, TableMetadata, MAIN_BRANCH};
use crate::number::{parse_i32, parse_i64};
use crate::string_map::str_eq;

verus! {

use crate::assoc::value_of;
use crate::iceberg::ancestry::{
    ancestor, has_ancestor, in_range, lemma_ancestors_are_near, position_view,
};
use crate::iceberg::table::{snapshot_position, Snapshot};
use crate::number::bounded_value;

/// Default `history.expire.max-snapshot-age-ms` (5 days) per the Iceberg spec.
pub const DEFAULT_MAX_SNAPSHOT_AGE_MS: i64 = 432000000;

/// Default `history.expire.min-snapshots-to-keep` per the Iceberg spec.
pub const DEFAULT_MIN_SNAPSHOTS_TO_KEEP: i32 = 1;

/// A number among the properties of a table, or the default where there is none.
pub open spec fn property_number(
    metadata: TableMetadata,
    key: Seq<char>,
    low: int,
    high: int,
    default: int,
) -> int {
    match value_of(metadata.properties@, key) {
        Some(text) => match bounded_value(text@, low, high) {
            Some(value) => value,
            None => default,
        },
        None => default,
    }
}

/// The age at which snapshots of the table expire.
pub open spec fn max_snapshot_age(metadata: TableMetadata) -> int {
    property_number(
        metadata,
        "history.expire.max-snapshot-age-ms"@,
        i64::MIN as int,
        i64::MAX as int,
        DEFAULT_MAX_SNAPSHOT_AGE_MS as int,
    )
}

/// How many snapshots of a branch are kept, whatever their age.
pub open spec fn min_snapshots(metadata: TableMetadata) -> int {
    property_number(
        metadata,
        "history.expire.min-snapshots-to-keep"@,
        i32::MIN as int,
        i32::MAX as int,
        DEFAULT_MIN_SNAPSHOTS_TO_KEEP as int,
    )
}

/// The age at which references of the table expire.
pub open spec fn max_ref_age(metadata: TableMetadata) -> int {
    property_number(
        metadata,
        "history.expire.max-ref-age-ms"@,
        i64::MIN as int,
        i64::MAX as int,
        i64::MAX as int,
    )
}

fn i64_property(metadata: &TableMetadata, key: &str, default: i64) -> (value: i64)
    ensures
        value == property_number(
            *metadata,
            key@,
            i64::MIN as int,
            i64::MAX as int,
            default as int,
        ),
{
    match metadata.properties.get(key) {
        Some(text) => match parse_i64(text.as_str()) {
            Some(value) => value,
            None => default,
        },
        None => default,
    }
}

/// The age at which snapshots of the table expire.
pub fn max_snapshot_age_ms(metadata: &TableMetadata) -> (age: i64)
    ensures
        age == max_snapshot_age(*metadata),
{
    i64_property(metadata, "history.expire.max-snapshot-age-ms", DEFAULT_MAX_SNAPSHOT_AGE_MS)
}

/// The age at which references of the table expire.
pub fn max_ref_age_ms(metadata: &TableMetadata) -> (age: i64)
    ensures
        age == max_ref_age(*metadata),
{
    i64_property(metadata, "history.expire.max-ref-age-ms", i64::MAX)
}

/// How many snapshots of a branch are kept, whatever their age.
pub fn min_snapshots_to_keep(metadata: &TableMetadata) -> (count: i32)
    ensures
        count == min_snapshots(*metadata),
{
    match metadata.properties.get("history.expire.min-snapshots-to-keep") {
        Some(text) => match parse_i32(text.as_str()) {
            Some(value) => value,
            None => DEFAULT_MIN_SNAPSHOTS_TO_KEEP,
        },
        None => DEFAULT_MIN_SNAPSHOTS_TO_KEEP,
    }
}

/// What expires when.
#[derive(Debug, Clone, Copy, PartialEq, Eq, Structural)]
pub struct ExpiryTerms {
    pub now: i64,
    /// Snapshots from before this moment can expire.
    pub older_than: i64,
    /// How many snapshots of a branch are kept, unless the branch says so itself.
    pub retain_last: i32,
}

/// Whether a reference survives: `main` does, and others do where their snapshot exists and
/// is not too old.
pub open spec fn ref_kept(
    metadata: TableMetadata,
    now: i64,
    entry: (Seq<char>, SnapshotReference),
) -> bool {
    entry.0 == MAIN_BRANCH@ || (snapshot_position(
        metadata.snapshots@,
        entry.1.snapshot_id,
    ) matches Some(at) && now - metadata.snapshots@[at].timestamp_ms <= (
    match entry.1.spec_max_ref_age_ms() {
        Some(age) => age as int,
        None => max_ref_age(metadata),
    }))
}

/// How many snapshots of a branch are kept, whatever their age.
pub open spec fn branch_min_keep(reference: SnapshotReference, retain_last: i32) -> int {
    let wanted = match reference.spec_min_snapshots_to_keep() {
        Some(count) => count,
        None => retain_last,
    };
    if wanted < 1 {
        1
    } else {
        wanted as int
    }
}

/// The moment from which on the snapshots of a branch are kept.
pub open spec fn branch_cutoff(reference: SnapshotReference, terms: ExpiryTerms) -> int {
    match reference.spec_max_snapshot_age_ms() {
        Some(age) => terms.now - age,
        None => terms.older_than as int,
    }
}

/// Whether the snapshot at the given depth of a branch is one to keep.
pub open spec fn keeps(
    snapshots: Seq<Snapshot>,
    head: Option<int>,
    min_keep: int,
    cutoff: int,
    depth: nat,
) -> bool {
    ancestor(snapshots, head, depth) matches Some(at) && (depth < min_keep
        || snapshots[at].timestamp_ms >= cutoff)
}

/// Whether a branch is kept down to the given depth.
pub open spec fn kept_to(
    snapshots: Seq<Snapshot>,
    head: Option<int>,
    min_keep: int,
    cutoff: int,
    depth: nat,
) -> bool {
    forall|d: nat| d <= depth ==> #[trigger] keeps(snapshots, head, min_keep, cutoff, d)
}

/// Whether a branch keeps the snapshot with the given id.
pub open spec fn branch_retains(
    snapshots: Seq<Snapshot>,
    head: Option<int>,
    min_keep: int,
    cutoff: int,
    id: i64,
) -> bool {
    exists|depth: nat|
        #[trigger] kept_to(snapshots, head, min_keep, cutoff, depth) && snapshots[ancestor(
            snapshots,
            head,
            depth,
        )->0].snapshot_id == id
}

/// Whether a reference keeps the snapshot with the given id: that which it points at and, for
/// a branch, its ancestors as far as they are kept.
pub open spec fn ref_retains(
    metadata: TableMetadata,
    terms: ExpiryTerms,
    entry: (Seq<char>, SnapshotReference),
    id: i64,
) -> bool {
    ref_kept(metadata, terms.now, entry) && (entry.1.snapshot_id == id || (
    entry.1.retention is Branch && branch_retains(
        metadata.snapshots@,
        snapshot_position(metadata.snapshots@, entry.1.snapshot_id),
        branch_min_keep(entry.1, terms.retain_last),
        branch_cutoff(entry.1, terms),
        id,
    )))
}

/// Whether the snapshot with the given id is reachable from a reference that survives: from a
/// branch its snapshot and all ancestors of that are, from a tag its snapshot.
pub open spec fn ref_reaches(
    metadata: TableMetadata,
    now: i64,
    entry: (Seq<char>, SnapshotReference),
    id: i64,
) -> bool {
    ref_kept(metadata, now, entry) && (if entry.1.retention is Branch {
        has_ancestor(
            metadata.snapshots@,
            snapshot_position(metadata.snapshots@, entry.1.snapshot_id),
            id,
        )
    } else {
        entry.1.snapshot_id == id
    })
}

/// Whether some reference keeps the snapshot with the given id.
pub open spec fn retained_by_refs(metadata: TableMetadata, terms: ExpiryTerms, id: i64) -> bool {
    exists|r: int|
        0 <= r < metadata.refs@.len() && ref_retains(metadata, terms, #[trigger] metadata.refs@[r], id)
}

/// Whether the snapshot with the given id is reachable from some reference that survives.
pub open spec fn is_referenced(metadata: TableMetadata, now: i64, id: i64) -> bool {
    exists|r: int|
        0 <= r < metadata.refs@.len() && ref_reaches(metadata, now, #[trigger] metadata.refs@[r], id)
}

/// Whether there is a snapshot with the given id that is not old enough to expire.
pub open spec fn is_recent(metadata: TableMetadata, terms: ExpiryTerms, id: i64) -> bool {
    exists|s: int|
        0 <= s < metadata.snapshots@.len() && (#[trigger] metadata.snapshots@[s]).snapshot_id == id
            && metadata.snapshots@[s].timestamp_ms >= terms.older_than
}

/// Whether the snapshot with the given id survives: some reference keeps it, or it is recent
/// and not reachable from any reference that survives.
pub open spec fn is_retained(metadata: TableMetadata, terms: ExpiryTerms, id: i64) -> bool {
    retained_by_refs(metadata, terms, id) || (!is_referenced(metadata, terms.now, id) && is_recent(
        metadata,
        terms,
        id,
    ))
}

/// Whether a number is a time.
pub open spec fn is_time(value: int) -> bool {
    i64::MIN <= value <= i64::MAX
}

/// Whether the ages that the terms ask for can be computed.
pub open spec fn ages_fit(metadata: TableMetadata, now: i64) -> bool {
    forall|r: int|
        #![trigger metadata.refs@[r]]
        0 <= r < metadata.refs@.len() ==> entry_ages_fit(metadata, now, metadata.refs@[r])
}

/// Whether the ages of a reference can be computed: that of the snapshot of a reference other
/// than `main`, and the cutoff of a branch that is kept and has an age of its own.
pub open spec fn entry_ages_fit(
    metadata: TableMetadata,
    now: i64,
    entry: (Seq<char>, SnapshotReference),
) -> bool {
    &&& entry.0 != MAIN_BRANCH@ ==> (snapshot_position(
        metadata.snapshots@,
        entry.1.snapshot_id,
    ) matches Some(at) ==> is_time(now - metadata.snapshots@[at].timestamp_ms))
    &&& ref_kept(metadata, now, entry) ==> (entry.1.spec_max_snapshot_age_ms() matches Some(age)
        ==> is_time(now - age))
}

fn fits(a: i64, b: i64) -> (fit: bool)
    ensures
        fit == is_time(a - b),
{
    a.checked_sub(b).is_some()
}

fn keeps_ref(metadata: &TableMetadata, now: i64, name: &String, reference: &SnapshotReference) -> (
    kept: bool)
    requires
        name@ != MAIN_BRANCH@ ==> (snapshot_position(
            metadata.snapshots@,
            reference.snapshot_id,
        ) matches Some(at) ==> is_time(now - metadata.snapshots@[at].timestamp_ms)),
    ensures
        kept == ref_kept(*metadata, now, (name@, *reference)),
{
    if str_eq(name.as_str(), MAIN_BRANCH) {
        return true;
    }
    match metadata.snapshot(reference.snapshot_id) {
        Some(snapshot) => {
            let age: i64 = match reference.max_ref_age_ms() {
                Some(age) => age,
                None => max_ref_age_ms(metadata),
            };
            now - snapshot.timestamp_ms <= age
        },
        None => false,
    }
}

/// Whether the ages that expiring snapshots at the given moment asks for can be computed.
pub fn check_ages(metadata: &TableMetadata, now: i64) -> (fit: bool)
    ensures
        fit == ages_fit(*metadata, now),
{
    let ref_count: usize = metadata.refs.len();
    for r in 0..ref_count
        invariant
            ref_count == metadata.refs@.len(),
            forall|q: int|
                #![trigger metadata.refs@[q]]
                0 <= q < r ==> entry_ages_fit(*metadata, now, metadata.refs@[q]),
    {
        let (name, reference) = metadata.refs.entry(r);
        assert(metadata.refs@[r as int] == (name@, *reference));
        if !str_eq(name.as_str(), MAIN_BRANCH) {
            match metadata.snapshot(reference.snapshot_id) {
                Some(snapshot) => {
                    if !fits(now, snapshot.timestamp_ms) {
                        assert(!entry_ages_fit(*metadata, now, metadata.refs@[r as int]));
                        return false;
                    }
                },
                None => {},
            }
        }
        if keeps_ref(metadata, now, name, reference) {
            match reference.max_snapshot_age_ms() {
                Some(age) => {
                    if !fits(now, age) {
                        assert(!entry_ages_fit(*metadata, now, metadata.refs@[r as int]));
                        return false;
                    }
                },
                None => {},
            }
        }
    }
    true
}

/// Adds the snapshots that a branch keeps.
fn walk_branch(
    metadata: &TableMetadata,
    reference: &SnapshotReference,
    min_keep: usize,
    cutoff: i64,
    retained: &mut HashSet<i64>,
)
    ensures
        forall|id: i64| #[trigger]
            final(retained)@.contains(id) <==> old(retained)@.contains(id) || branch_retains(
                metadata.snapshots@,
                snapshot_position(metadata.snapshots@, reference.snapshot_id),
                min_keep as int,
                cutoff as int,
                id,
            ),
{
    broadcast use vstd::std_specs::hash::group_hash_axioms;

    let ghost snapshots = metadata.snapshots@;
    let ghost head = snapshot_position(snapshots, reference.snapshot_id);
    let ghost least = min_keep as int;
    let ghost bound = cutoff as int;
    let ghost first_retained = retained@;
    let mut current: Option<usize> = metadata.snapshot_index(reference.snapshot_id);
    let count: usize = metadata.snapshots.len();
    let mut depth: usize = 0;
    let mut going = true;
    while going && depth < count
        invariant
            snapshots == metadata.snapshots@,
            head == snapshot_position(snapshots, reference.snapshot_id),
            least == min_keep,
            bound == cutoff,
            in_range(snapshots, head),
            count == snapshots.len(),
            depth <= count,
            in_range(snapshots, position_view(current)),
            going ==> position_view(current) == ancestor(snapshots, head, depth as nat),
            going ==> forall|d: nat|
                d < depth ==> #[trigger] keeps(snapshots, head, least, bound, d),
            !going ==> exists|d: nat|
                d < depth && !#[trigger] keeps(snapshots, head, least, bound, d),
            forall|id: i64| #[trigger]
                retained@.contains(id) <==> first_retained.contains(id) || exists|d: nat|
                    d < depth && #[trigger] kept_to(snapshots, head, least, bound, d)
                        && snapshots[ancestor(snapshots, head, d)->0].snapshot_id == id,
        decreases count - depth,
    {
        let ghost retained_before = retained@;
        let ghost here = depth as nat;
        match current {
            Some(at) => {
                let snapshot_id = metadata.snapshots[at].snapshot_id;
                if depth < min_keep || metadata.snapshots[at].timestamp_ms >= cutoff {
                    retained.insert(snapshot_id);
                    current = metadata.parent_index(at);
                    assert(keeps(snapshots, head, least, bound, here));
                    assert(kept_to(snapshots, head, least, bound, here));
                } else {
                    going = false;
                    assert(!keeps(snapshots, head, least, bound, here));
                    assert(!kept_to(snapshots, head, least, bound, here));
                }
            },
            None => {
                going = false;
                assert(!keeps(snapshots, head, least, bound, here));
                assert(!kept_to(snapshots, head, least, bound, here));
            },
        }
        depth = depth + 1;
        proof {
            assert forall|id: i64| #[trigger] retained@.contains(id) <==> first_retained.contains(id)
                || exists|d: nat|
                d < depth && #[trigger] kept_to(snapshots, head, least, bound, d)
                    && snapshots[ancestor(snapshots, head, d)->0].snapshot_id == id by {
                if exists|d: nat|
                    d < depth && #[trigger] kept_to(snapshots, head, least, bound, d)
                        && snapshots[ancestor(snapshots, head, d)->0].snapshot_id == id {
                    let d = choose|d: nat|
                        d < depth && #[trigger] kept_to(snapshots, head, least, bound, d)
                            && snapshots[ancestor(snapshots, head, d)->0].snapshot_id == id;
                    if d < here {
                        assert(retained_before.contains(id));
                    }
                }
                if retained_before.contains(id) && !first_retained.contains(id) {
                    let d = choose|d: nat|
                        d < here && #[trigger] kept_to(snapshots, head, least, bound, d)
                            && snapshots[ancestor(snapshots, head, d)->0].snapshot_id == id;
                    assert(d < depth);
                }
            }
        }
    }
    proof {
        assert forall|id: i64| #[trigger] retained@.contains(id) <==> first_retained.contains(id)
            || branch_retains(snapshots, head, least, bound, id) by {
            if branch_retains(snapshots, head, least, bound, id) {
                let d = choose|d: nat| #[trigger]
                    kept_to(snapshots, head, least, bound, d) && snapshots[ancestor(
                        snapshots,
                        head,
                        d,
                    )->0].snapshot_id == id;
                assert(keeps(snapshots, head, least, bound, d));
                if d >= depth {
                    let near = lemma_ancestors_are_near(snapshots, head, d);
                    assert forall|e: nat| e <= near implies #[trigger] keeps(
                        snapshots,
                        head,
                        least,
                        bound,
                        e,
                    ) by {}
                    assert(kept_to(snapshots, head, least, bound, near));
                    assert(near < depth);
                }
            }
        }
    }
}

/// Adds the snapshot of a branch and all its ancestors.
fn walk_ancestry(
    metadata: &TableMetadata,
    reference: &SnapshotReference,
    referenced: &mut HashSet<i64>,
)
    ensures
        forall|id: i64| #[trigger]
            final(referenced)@.contains(id) <==> old(referenced)@.contains(id) || has_ancestor(
                metadata.snapshots@,
                snapshot_position(metadata.snapshots@, reference.snapshot_id),
                id,
            ),
{
    broadcast use vstd::std_specs::hash::group_hash_axioms;

    let ghost snapshots = metadata.snapshots@;
    let ghost head = snapshot_position(snapshots, reference.snapshot_id);
    let ghost first = referenced@;
    let mut current: Option<usize> = metadata.snapshot_index(reference.snapshot_id);
    let count: usize = metadata.snapshots.len();
    for depth in 0..count
        invariant
            snapshots == metadata.snapshots@,
            count == snapshots.len(),
            position_view(current) == ancestor(snapshots, head, depth as nat),
            in_range(snapshots, position_view(current)),
            forall|id: i64| #[trigger]
                referenced@.contains(id) <==> first.contains(id) || exists|d: nat|
                    d < depth && ((#[trigger] ancestor(snapshots, head, d)) matches Some(at)
                        && snapshots[at].snapshot_id == id),
    {
        let ghost before = referenced@;
        let ghost here = depth as nat;
        match current {
            Some(at) => {
                referenced.insert(metadata.snapshots[at].snapshot_id);
                current = metadata.parent_index(at);
            },
            None => {},
        }
        proof {
            assert forall|id: i64| #[trigger] referenced@.contains(id) <==> first.contains(id)
                || exists|d: nat|
                d < depth + 1 && ((#[trigger] ancestor(snapshots, head, d)) matches Some(at)
                    && snapshots[at].snapshot_id == id) by {
                if exists|d: nat|
                    d < depth + 1 && ((#[trigger] ancestor(snapshots, head, d)) matches Some(at)
                        && snapshots[at].snapshot_id == id) {
                    let d = choose|d: nat|
                        d < depth + 1 && ((#[trigger] ancestor(snapshots, head, d)) matches Some(at)
                            && snapshots[at].snapshot_id == id);
                    if d < here {
                        assert(before.contains(id));
                    }
                }
                if before.contains(id) && !first.contains(id) {
                    let d = choose|d: nat|
                        d < here && ((#[trigger] ancestor(snapshots, head, d)) matches Some(at)
                            && snapshots[at].snapshot_id == id);
                    assert(d < depth + 1);
                }
                if referenced@.contains(id) && !before.contains(id) {
                    assert(ancestor(snapshots, head, here) is Some);
                }
            }
        }
    }
    proof {
        assert forall|id: i64| #[trigger] referenced@.contains(id) <==> first.contains(id)
            || has_ancestor(snapshots, head, id) by {
            if has_ancestor(snapshots, head, id) {
                let d = choose|d: nat|
                    (#[trigger] ancestor(snapshots, head, d)) matches Some(at)
                        && snapshots[at].snapshot_id == id;
                let near = lemma_ancestors_are_near(snapshots, head, d);
                assert(ancestor(snapshots, head, near) == ancestor(snapshots, head, d));
            }
        }
    }
}

/// Computes the spec retain-set for `expire_snapshots` against the current metadata.
///
/// Returns `(retained_ids, referenced_ids)`:
/// - `retained_ids` — every snapshot that must survive expiration: each retained ref's
///   target (`main` always; non-`main` refs only if their snapshot still exists and has
///   not aged past `max-ref-age-ms`, default: never), per-branch ancestry (head-inclusive)
///   up to `min_snapshots_to_keep` or `older_than`, and unreferenced-but-recent snapshots.
/// - `referenced_ids` — every snapshot reachable from a retained ref (branch ancestries +
///   tag targets), used to decide the unreferenced-but-recent retention.
pub fn retained_snapshot_ids(
    metadata: &TableMetadata,
    now: i64,
    older_than: i64,
    retain_last: i32,
) -> (ids: (HashSet<i64>, HashSet<i64>))
    requires
        ages_fit(*metadata, now),
    ensures
        forall|id: i64| #[trigger]
            ids.0@.contains(id) <==> is_retained(
                *metadata,
                (ExpiryTerms { now, older_than, retain_last }),
                id,
            ),
        forall|id: i64| #[trigger]
            ids.1@.contains(id) <==> is_referenced(*metadata, now, id),
{
    broadcast use vstd::std_specs::hash::group_hash_axioms;

    let ghost terms = ExpiryTerms { now, older_than, retain_last };
    let ghost refs = metadata.refs@;
    let mut retained: HashSet<i64> = HashSet::new();
    let mut referenced: HashSet<i64> = HashSet::new();
    let ref_count: usize = metadata.refs.len();
    for r in 0..ref_count
        invariant
            ref_count == metadata.refs@.len(),
            ages_fit(*metadata, now),
            refs == metadata.refs@,
            terms == (ExpiryTerms { now, older_than, retain_last }),
            forall|id: i64| #[trigger]
                retained@.contains(id) <==> exists|q: int|
                    0 <= q < r && ref_retains(*metadata, terms, #[trigger] refs[q], id),
            forall|id: i64| #[trigger]
                referenced@.contains(id) <==> exists|q: int|
                    0 <= q < r && ref_reaches(*metadata, now, #[trigger] refs[q], id),
    {
        let ghost retained_before = retained@;
        let ghost referenced_before = referenced@;
        let (name, reference) = metadata.refs.entry(r);
        let ghost entry = refs[r as int];
        assert(entry == (name@, *reference));
        assert(entry_ages_fit(*metadata, now, metadata.refs@[r as int]));
        if keeps_ref(metadata, now, name, reference) {
            retained.insert(reference.snapshot_id);
            if !reference.is_branch() {
                referenced.insert(reference.snapshot_id);
            } else {
                let wanted: i32 = match reference.min_snapshots_to_keep() {
                    Some(count) => count,
                    None => retain_last,
                };
                let min_keep: usize = if wanted < 1 {
                    1
                } else {
                    wanted as usize
                };
                let cutoff: i64 = match reference.max_snapshot_age_ms() {
                    Some(age) => now - age,
                    None => older_than,
                };
                walk_branch(metadata, reference, min_keep, cutoff, &mut retained);
                walk_ancestry(metadata, reference, &mut referenced);
            }
        }
        proof {
            assert forall|id: i64| #[trigger] retained@.contains(id) <==> exists|q: int|
                0 <= q < r + 1 && ref_retains(*metadata, terms, #[trigger] refs[q], id) by {
                assert(retained@.contains(id) <==> retained_before.contains(id) || ref_retains(
                    *metadata,
                    terms,
                    entry,
                    id,
                ));
                if ref_retains(*metadata, terms, entry, id) {
                    assert(ref_retains(*metadata, terms, refs[r as int], id));
                }
                if retained_before.contains(id) {
                    let q = choose|q: int|
                        0 <= q < r && ref_retains(*metadata, terms, #[trigger] refs[q], id);
                    assert(ref_retains(*metadata, terms, refs[q], id));
                }
            }
            assert forall|id: i64| #[trigger] referenced@.contains(id) <==> exists|q: int|
                0 <= q < r + 1 && ref_reaches(*metadata, now, #[trigger] refs[q], id) by {
                assert(referenced@.contains(id) <==> referenced_before.contains(id) || ref_reaches(
                    *metadata,
                    now,
                    entry,
                    id,
                ));
                if ref_reaches(*metadata, now, entry, id) {
                    assert(ref_reaches(*metadata, now, refs[r as int], id));
                }
                if referenced_before.contains(id) {
                    let q = choose|q: int|
                        0 <= q < r && ref_reaches(*metadata, now, #[trigger] refs[q], id);
                    assert(ref_reaches(*metadata, now, refs[q], id));
                }
            }
        }
    }
    for s in 0..metadata.snapshots.len()
        invariant
            terms == (ExpiryTerms { now, older_than, retain_last }),
            forall|id: i64| #[trigger]
                referenced@.contains(id) <==> is_referenced(*metadata, now, id),
            forall|id: i64| #[trigger]
                retained@.contains(id) <==> retained_by_refs(*metadata, terms, id) || (
                !is_referenced(*metadata, now, id) && exists|q: int|
                    0 <= q < s && (#[trigger] metadata.snapshots@[q]).snapshot_id == id
                        && metadata.snapshots@[q].timestamp_ms >= older_than),
    {
        let ghost retained_before = retained@;
        let snapshot_id = metadata.snapshots[s].snapshot_id;
        if !referenced.contains(&snapshot_id) && metadata.snapshots[s].timestamp_ms >= older_than {
            retained.insert(snapshot_id);
        }
        proof {
            let here = metadata.snapshots@[s as int];
            assert forall|id: i64| #[trigger] retained@.contains(id) <==> retained_by_refs(
                *metadata,
                terms,
                id,
            ) || (!is_referenced(*metadata, now, id) && exists|q: int|
                0 <= q < s + 1 && (#[trigger] metadata.snapshots@[q]).snapshot_id == id
                    && metadata.snapshots@[q].timestamp_ms >= older_than) by {
                assert(referenced@.contains(id) <==> is_referenced(*metadata, now, id));
                if retained_before.contains(id) && !retained_by_refs(*metadata, terms, id) {
                    let q = choose|q: int|
                        0 <= q < s && (#[trigger] metadata.snapshots@[q]).snapshot_id == id
                            && metadata.snapshots@[q].timestamp_ms >= older_than;
                    assert(metadata.snapshots@[q].snapshot_id == id);
                }
                if retained@.contains(id) && !retained_before.contains(id) {
                    assert(here.snapshot_id == id);
                }
            }
        }
    }
    (retained, referenced)
}

} // verus!
