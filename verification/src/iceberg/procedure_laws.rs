//! What holds of procedures on a table.

use vstd::prelude::*;

verus! {

use crate::assoc::{distinct_keys, has_key, lemma_dropped, lemma_key_index, lemma_stored, value_of};
use crate::iceberg::ancestry::{ancestor, has_ancestor, lemma_ancestor};
use crate::iceberg::expiry::{
    ages_fit, branch_cutoff, branch_min_keep, branch_retains, entry_ages_fit, is_recent,
    is_referenced, is_retained, keeps, kept_to, max_ref_age, ref_kept, ref_reaches,
    ref_retains, retained_by_refs, ExpiryTerms,
};
use crate::iceberg::procedure::{
    all_changed, changed, expired_ids, expires, expiry_changes, expiry_terms,
    first_procedure_fault, loses_ref, main_retention, main_snapshot, partition_statistics_stay,
    previous_snapshot, procedure_changes, procedure_fault, procedure_state, ref_removal,
    statistics_stay, stays, target_snapshot, ProcedureChange, ProcedureFault, ProcedureState,
    TableFormatProcedureOperation,
};
use crate::iceberg::requirements::referenced_snapshot;
use crate::iceberg::table::{
    lemma_snapshot_position, snapshot_position, PartitionStatisticsFile,
    Snapshot, SnapshotReference, SnapshotRetention, StatisticsFile, TableMetadata,
    TableRequirement, MAIN_BRANCH,
};
use crate::number::bounded_value;

/// A rollback goes to an ancestor of the current snapshot, and to nothing else.
pub proof fn law_rollbacks_go_to_ancestors(snapshot_id: i64, metadata: TableMetadata, now: i64)
    ensures
        procedure_changes(
            TableFormatProcedureOperation::RollbackToSnapshot { snapshot_id },
            metadata,
            now,
        ) is Ok <==> snapshot_position(metadata.snapshots@, snapshot_id) is Some && has_ancestor(
            metadata.snapshots@,
            metadata.current_position(),
            snapshot_id,
        ),
{
}

/// A procedure with a target makes the target the current snapshot and lets `main` point at
/// it. The target exists, `main` keeps its retention, and nothing else changes.
pub proof fn law_targets_become_current(
    procedure: TableFormatProcedureOperation,
    metadata: TableMetadata,
    now: i64,
    with_statistics: bool,
)
    requires
        !(procedure is ExpireSnapshots),
        distinct_keys(metadata.refs@),
        procedure_changes(procedure, metadata, now) is Ok,
    ensures
        ({
            let before = procedure_state(metadata);
            let after = all_changed(
                before,
                procedure_changes(procedure, metadata, now)->Ok_0,
                with_statistics,
            );
            &&& target_snapshot(procedure, metadata) matches Ok(Some(target))
            &&& snapshot_position(after.snapshots, target) is Some
            &&& after.current_snapshot_id == Some(target)
            &&& value_of(after.refs, MAIN_BRANCH@) == Some(
                SnapshotReference { snapshot_id: target, retention: main_retention(metadata) },
            )
            &&& forall|name: Seq<char>|
                name != MAIN_BRANCH@ ==> #[trigger] value_of(after.refs, name) == value_of(
                    before.refs,
                    name,
                )
            &&& after == (ProcedureState {
                current_snapshot_id: after.current_snapshot_id,
                refs: after.refs,
                ..before
            })
        }),
{
    let before = procedure_state(metadata);
    let changes = procedure_changes(procedure, metadata, now)->Ok_0;
    let target = target_snapshot(procedure, metadata)->Ok_0->0;
    assert(changes.drop_last() =~= Seq::<ProcedureChange>::empty());
    assert(all_changed(before, changes.drop_last(), with_statistics) == before);
    assert(all_changed(before, changes, with_statistics) == changed(
        before,
        changes[0],
        with_statistics,
    ));
    lemma_stored(
        metadata.refs@,
        MAIN_BRANCH@,
        SnapshotReference { snapshot_id: target, retention: main_retention(metadata) },
    );
}

/// The requirement of a procedure holds of metadata whose `main` has not moved, provided that
/// `main` points at the current snapshot, as it does in every table.
pub proof fn law_unmoved_main_meets_requirement(
    metadata: TableMetadata,
    requirement: TableRequirement,
    negative_is_none: bool,
)
    requires
        requirement matches TableRequirement::RefSnapshotIdMatch { ref_name, snapshot_id }
            && ref_name@ == MAIN_BRANCH@ && snapshot_id == main_snapshot(metadata),
        main_snapshot(metadata) == metadata.current_snapshot_id,
        metadata.current_snapshot_id matches Some(id) ==> id >= 0,
    ensures
        first_procedure_fault(metadata, seq![requirement], negative_is_none) is None,
{
    let requirements = seq![requirement];
    assert(requirements.drop_last() =~= Seq::<TableRequirement>::empty());
    assert(first_procedure_fault(metadata, requirements.drop_last(), negative_is_none) is None);
    assert(procedure_fault(metadata, requirement, 0, negative_is_none) is None);
}

/// The requirement of a procedure does not hold of metadata whose current snapshot is another
/// one.
pub proof fn law_moved_main_breaks_requirement(
    planned: TableMetadata,
    metadata: TableMetadata,
    requirement: TableRequirement,
    negative_is_none: bool,
)
    requires
        requirement matches TableRequirement::RefSnapshotIdMatch { ref_name, snapshot_id }
            && ref_name@ == MAIN_BRANCH@ && snapshot_id == main_snapshot(planned),
        metadata.current_snapshot_id matches Some(id) && id >= 0,
        metadata.current_snapshot_id != main_snapshot(planned),
    ensures
        first_procedure_fault(metadata, seq![requirement], negative_is_none) is Some,
{
    let requirements = seq![requirement];
    assert(requirements.drop_last() =~= Seq::<TableRequirement>::empty());
    assert(first_procedure_fault(metadata, requirements.drop_last(), negative_is_none) is None);
    assert(requirements.last() == requirement);
    assert(procedure_fault(metadata, requirement, 0, negative_is_none) is Some);
}

/// The ids that an expiry removes are those of the snapshots that do not survive.
pub proof fn law_expired_snapshots_do_not_survive(
    metadata: TableMetadata,
    terms: ExpiryTerms,
    id: i64,
)
    ensures
        expired_ids(metadata, terms).contains(id) <==> snapshot_position(
            metadata.snapshots@,
            id,
        ) is Some && !is_retained(metadata, terms, id),
{
    broadcast use vstd::seq_lib::group_filter_ensures;

    let snapshots = metadata.snapshots@;
    let keep = expires(metadata, terms);
    let expired = snapshots.filter(keep);
    let ids = expired_ids(metadata, terms);
    lemma_snapshot_position(snapshots, id);
    if ids.contains(id) {
        let i = choose|i: int| 0 <= i < ids.len() && ids[i] == id;
        assert(expired[i].snapshot_id == id);
        assert(expired.contains(expired[i]));
        snapshots.lemma_filter_contains_rev(keep, expired[i]);
        assert(keep(expired[i]));
    }
    if snapshot_position(snapshots, id) is Some && !is_retained(metadata, terms, id) {
        let at = snapshot_position(snapshots, id)->0;
        assert(keep(snapshots[at]));
        assert(expired.contains(snapshots[at]));
        let i = choose|i: int| 0 <= i < expired.len() && expired[i] == snapshots[at];
        assert(ids[i] == id);
    }
}

/// The snapshot of a reference that survives is not removed. That of `main` never is.
pub proof fn law_expiry_keeps_referenced_snapshots(
    metadata: TableMetadata,
    terms: ExpiryTerms,
    r: int,
)
    requires
        0 <= r < metadata.refs@.len(),
        ref_kept(metadata, terms.now, metadata.refs@[r]),
    ensures
        !expired_ids(metadata, terms).contains(metadata.refs@[r].1.snapshot_id),
        metadata.refs@[r].0 == MAIN_BRANCH@ ==> ref_kept(metadata, terms.now, metadata.refs@[r]),
{
    let id = metadata.refs@[r].1.snapshot_id;
    law_expired_snapshots_do_not_survive(metadata, terms, id);
    assert(ref_retains(metadata, terms, metadata.refs@[r], id));
    assert(retained_by_refs(metadata, terms, id));
}

/// The snapshot of no reference is removed where references do not age: where neither the table
/// nor a reference sets the age at which references expire.
pub proof fn law_expiry_keeps_the_snapshots_of_ageless_refs(
    metadata: TableMetadata,
    terms: ExpiryTerms,
)
    requires
        ages_fit(metadata, terms.now),
        max_ref_age(metadata) == i64::MAX,
        forall|r: int|
            0 <= r < metadata.refs@.len() ==> (
            #[trigger] metadata.refs@[r]).1.spec_max_ref_age_ms() is None,
    ensures
        forall|r: int|
            0 <= r < metadata.refs@.len() ==> !expired_ids(metadata, terms).contains(
                (#[trigger] metadata.refs@[r]).1.snapshot_id,
            ),
{
    assert forall|r: int| 0 <= r < metadata.refs@.len() implies !expired_ids(
        metadata,
        terms,
    ).contains((#[trigger] metadata.refs@[r]).1.snapshot_id) by {
        let entry = metadata.refs@[r];
        law_expired_snapshots_do_not_survive(metadata, terms, entry.1.snapshot_id);
        assert(entry_ages_fit(metadata, terms.now, entry));
        if ref_kept(metadata, terms.now, entry) {
            law_expiry_keeps_referenced_snapshots(metadata, terms, r);
        }
    }
}

/// A later moment never rescues a snapshot: whatever an expiry of older snapshots removes, one
/// at the same time that also expires later snapshots removes too.
pub proof fn law_later_cutoffs_expire_more(
    metadata: TableMetadata,
    earlier: ExpiryTerms,
    later: ExpiryTerms,
    id: i64,
)
    requires
        earlier.older_than <= later.older_than,
        earlier.now == later.now,
        earlier.retain_last == later.retain_last,
    ensures
        is_retained(metadata, later, id) ==> is_retained(metadata, earlier, id),
        expired_ids(metadata, earlier).contains(id) ==> expired_ids(metadata, later).contains(id),
{
    law_expired_snapshots_do_not_survive(metadata, earlier, id);
    law_expired_snapshots_do_not_survive(metadata, later, id);
    if retained_by_refs(metadata, later, id) {
        let r = choose|r: int|
            0 <= r < metadata.refs@.len() && ref_retains(
                metadata,
                later,
                #[trigger] metadata.refs@[r],
                id,
            );
        let entry = metadata.refs@[r];
        if entry.1.snapshot_id != id {
            let snapshots = metadata.snapshots@;
            let head = snapshot_position(snapshots, entry.1.snapshot_id);
            let min_keep = branch_min_keep(entry.1, later.retain_last);
            let cutoff = branch_cutoff(entry.1, later);
            let lower = branch_cutoff(entry.1, earlier);
            assert(lower <= cutoff);
            let depth = choose|depth: nat| #[trigger]
                kept_to(snapshots, head, min_keep, cutoff, depth) && snapshots[ancestor(
                    snapshots,
                    head,
                    depth,
                )->0].snapshot_id == id;
            assert forall|d: nat| d <= depth implies #[trigger] keeps(
                snapshots,
                head,
                min_keep,
                lower,
                d,
            ) by {
                assert(keeps(snapshots, head, min_keep, cutoff, d));
            }
            assert(kept_to(snapshots, head, min_keep, lower, depth));
        }
        assert(ref_retains(metadata, earlier, metadata.refs@[r], id));
    }
}

/// The ids that the changes of a procedure remove.
pub open spec fn removed_ids(changes: Seq<ProcedureChange>) -> Set<i64> {
    Set::new(
        |id: i64|
            exists|i: int|
                0 <= i < changes.len() && ((
                #[trigger] changes[i]) matches ProcedureChange::RemoveSnapshots { ids }
                    && ids.contains(id)),
    )
}

/// What an expiry removes are the snapshots that expire.
pub proof fn law_expiry_removes_expired_snapshots(
    metadata: TableMetadata,
    now: i64,
    older_than_ms: Option<i64>,
    retain_last: Option<i32>,
)
    ensures
        procedure_changes(
            TableFormatProcedureOperation::ExpireSnapshots { older_than_ms, retain_last },
            metadata,
            now,
        ) matches Ok(changes) && forall|id: i64| #[trigger]
            removed_ids(changes).contains(id) <==> expired_ids(
                metadata,
                expiry_terms(metadata, now, older_than_ms, retain_last),
            ).contains(id),
{
    let terms = expiry_terms(metadata, now, older_than_ms, retain_last);
    let changes = expiry_changes(metadata, terms);
    let lost = metadata.refs@.filter(loses_ref(metadata, terms));
    assert forall|id: i64| #[trigger] removed_ids(changes).contains(id) <==> expired_ids(
        metadata,
        terms,
    ).contains(id) by {
        if expired_ids(metadata, terms).len() > 0 {
            assert(changes[0] == (ProcedureChange::RemoveSnapshots {
                ids: expired_ids(metadata, terms),
            }));
            assert forall|i: int| 1 <= i < changes.len() implies (
            #[trigger] changes[i]) is RemoveRef by {
                assert(changes[i] == ref_removal()(lost[i - 1]));
            }
        }
    }
}

/// Changes made one after the other are those that follow made after the first.
proof fn lemma_changed_first(
    state: ProcedureState,
    first: ProcedureChange,
    rest: Seq<ProcedureChange>,
    with_statistics: bool,
)
    ensures
        all_changed(state, seq![first] + rest, with_statistics) == all_changed(
            changed(state, first, with_statistics),
            rest,
            with_statistics,
        ),
    decreases rest.len(),
{
    let whole = seq![first] + rest;
    if rest.len() == 0 {
        assert(whole =~= seq![first]);
        assert(whole.drop_last() =~= Seq::<ProcedureChange>::empty());
        assert(all_changed(state, whole.drop_last(), with_statistics) == state);
    } else {
        lemma_changed_first(state, first, rest.drop_last(), with_statistics);
        assert(whole.drop_last() =~= seq![first] + rest.drop_last());
        assert(whole.last() == rest.last());
    }
}

/// Removing references leaves the others, and all else.
proof fn lemma_refs_removed(
    state: ProcedureState,
    removals: Seq<ProcedureChange>,
    with_statistics: bool,
)
    requires
        distinct_keys(state.refs),
        forall|i: int| 0 <= i < removals.len() ==> (#[trigger] removals[i]) is RemoveRef,
    ensures
        ({
            let after = all_changed(state, removals, with_statistics);
            &&& distinct_keys(after.refs)
            &&& forall|name: Seq<char>| #[trigger]
                value_of(after.refs, name) == (if removals.contains(
                    ProcedureChange::RemoveRef { ref_name: name },
                ) {
                    None
                } else {
                    value_of(state.refs, name)
                })
            &&& after == (ProcedureState { refs: after.refs, ..state })
        }),
    decreases removals.len(),
{
    if removals.len() > 0 {
        let init = removals.drop_last();
        assert forall|i: int| 0 <= i < init.len() implies (#[trigger] init[i]) is RemoveRef by {
            assert(init[i] == removals[i]);
        }
        lemma_refs_removed(state, init, with_statistics);
        let middle = all_changed(state, init, with_statistics);
        let last = removals[removals.len() - 1];
        assert(last is RemoveRef);
        let dropped_name = last->RemoveRef_ref_name;
        lemma_dropped(middle.refs, dropped_name);
        let after = all_changed(state, removals, with_statistics);
        assert forall|name: Seq<char>| #[trigger] value_of(after.refs, name) == (
        if removals.contains(ProcedureChange::RemoveRef { ref_name: name }) {
            None
        } else {
            value_of(state.refs, name)
        }) by {
            let removal = ProcedureChange::RemoveRef { ref_name: name };
            if name == dropped_name {
                assert(removals[removals.len() - 1] == removal);
                assert(!has_key(after.refs, name));
            } else {
                assert(value_of(after.refs, name) == value_of(middle.refs, name));
                if removals.contains(removal) {
                    let i = choose|i: int| 0 <= i < removals.len() && removals[i] == removal;
                    assert(init[i] == removal);
                }
                if init.contains(removal) {
                    let i = choose|i: int| 0 <= i < init.len() && init[i] == removal;
                    assert(removals[i] == removal);
                }
            }
        }
    }
}

/// After an expiry the table holds the snapshots that survive and no others; the current
/// snapshot and `main` are as before; and every other reference is as before where its
/// snapshot survives, and gone where it does not, so no reference is left without a snapshot
/// that it had.
pub proof fn law_expiry_leaves_what_survives(
    metadata: TableMetadata,
    terms: ExpiryTerms,
    with_statistics: bool,
)
    requires
        distinct_keys(metadata.refs@),
        expired_ids(metadata, terms).len() > 0,
    ensures
        ({
            let before = procedure_state(metadata);
            let after = all_changed(before, expiry_changes(metadata, terms), with_statistics);
            &&& after.current_snapshot_id == before.current_snapshot_id
            &&& forall|snapshot: Snapshot| #[trigger]
                after.snapshots.contains(snapshot) <==> before.snapshots.contains(snapshot)
                    && is_retained(metadata, terms, snapshot.snapshot_id)
            &&& value_of(after.refs, MAIN_BRANCH@) == value_of(before.refs, MAIN_BRANCH@)
            &&& forall|name: Seq<char>|
                name != MAIN_BRANCH@ ==> #[trigger] value_of(after.refs, name) == (
                match value_of(before.refs, name) {
                    Some(reference) if is_retained(
                        metadata,
                        terms,
                        reference.snapshot_id,
                    ) => Some(reference),
                    _ => None,
                })
        }),
{
    broadcast use vstd::seq_lib::group_filter_ensures;

    let before = procedure_state(metadata);
    let refs = metadata.refs@;
    let first = ProcedureChange::RemoveSnapshots { ids: expired_ids(metadata, terms) };
    let lost = refs.filter(loses_ref(metadata, terms));
    let removals = lost.map_values(ref_removal());
    let middle = changed(before, first, with_statistics);
    lemma_changed_first(before, first, removals, with_statistics);
    assert forall|i: int| 0 <= i < removals.len() implies (#[trigger] removals[i]) is RemoveRef by {
        assert(removals[i] == ref_removal()(lost[i]));
    }
    lemma_refs_removed(middle, removals, with_statistics);
    let after = all_changed(before, expiry_changes(metadata, terms), with_statistics);
    let ids = expired_ids(metadata, terms);
    assert forall|snapshot: Snapshot| #[trigger]
        after.snapshots.contains(snapshot) <==> before.snapshots.contains(snapshot) && is_retained(
        metadata,
        terms,
        snapshot.snapshot_id,
    ) by {
        law_expired_snapshots_do_not_survive(metadata, terms, snapshot.snapshot_id);
        lemma_snapshot_position(before.snapshots, snapshot.snapshot_id);
        let kept = before.snapshots.filter(stays(ids));
        assert(after.snapshots == kept);
        if kept.contains(snapshot) {
            before.snapshots.lemma_filter_contains_rev(stays(ids), snapshot);
            assert(stays(ids)(snapshot));
            let i = choose|i: int|
                0 <= i < before.snapshots.len() && before.snapshots[i] == snapshot;
            assert(snapshot_position(before.snapshots, snapshot.snapshot_id) is Some);
        }
        if before.snapshots.contains(snapshot) && is_retained(
            metadata,
            terms,
            snapshot.snapshot_id,
        ) {
            assert(stays(ids)(snapshot));
            assert(kept.contains(snapshot));
        }
    }
    assert forall|name: Seq<char>| #[trigger]
        removals.contains(ProcedureChange::RemoveRef { ref_name: name }) <==> name != MAIN_BRANCH@
            && (value_of(refs, name) matches Some(reference) && !is_retained(
            metadata,
            terms,
            reference.snapshot_id,
        )) by {
        let removal = ProcedureChange::RemoveRef { ref_name: name };
        if removals.contains(removal) {
            let i = choose|i: int| 0 <= i < removals.len() && removals[i] == removal;
            let entry = lost[i];
            assert(removals[i] == ref_removal()(entry));
            assert(entry.0 == name);
            assert(lost.contains(entry));
            refs.lemma_filter_contains_rev(loses_ref(metadata, terms), entry);
            assert(loses_ref(metadata, terms)(entry));
            let k = choose|k: int| 0 <= k < refs.len() && refs[k] == entry;
            lemma_key_index(refs, k);
        }
        if name != MAIN_BRANCH@ && (value_of(refs, name) matches Some(reference) && !is_retained(
            metadata,
            terms,
            reference.snapshot_id,
        )) {
            let k = crate::assoc::key_index(refs, name);
            let entry = refs[k];
            assert(entry.0 == name);
            assert(loses_ref(metadata, terms)(entry));
            assert(lost.contains(entry));
            let i = choose|i: int| 0 <= i < lost.len() && lost[i] == entry;
            assert(removals[i] == removal);
        }
    }
}

/// The current snapshot survives every expiry of a table whose `main` points at it.
pub proof fn law_expiry_keeps_the_current_snapshot(
    metadata: TableMetadata,
    terms: ExpiryTerms,
    with_statistics: bool,
)
    requires
        distinct_keys(metadata.refs@),
        main_snapshot(metadata) is Some,
        main_snapshot(metadata) == metadata.current_snapshot_id,
        metadata.current_position() is Some,
    ensures
        ({
            let after = all_changed(
                procedure_state(metadata),
                expiry_changes(metadata, terms),
                with_statistics,
            );
            &&& after.current_snapshot_id == metadata.current_snapshot_id
            &&& snapshot_position(after.snapshots, metadata.current_snapshot_id->0) is Some
        }),
{
    let before = procedure_state(metadata);
    let changes = expiry_changes(metadata, terms);
    let after = all_changed(before, changes, with_statistics);
    let id = metadata.current_snapshot_id->0;
    let r = crate::assoc::key_index(metadata.refs@, MAIN_BRANCH@);
    assert(metadata.refs@[r].0 == MAIN_BRANCH@);
    law_expiry_keeps_referenced_snapshots(metadata, terms, r);
    law_expired_snapshots_do_not_survive(metadata, terms, id);
    lemma_snapshot_position(metadata.snapshots@, id);
    if expired_ids(metadata, terms).len() > 0 {
        law_expiry_leaves_what_survives(metadata, terms, with_statistics);
        let at = metadata.current_position()->0;
        let snapshot = metadata.snapshots@[at];
        assert(before.snapshots.contains(snapshot));
        assert(after.snapshots.contains(snapshot));
        lemma_snapshot_position(after.snapshots, id);
        let i = choose|i: int| 0 <= i < after.snapshots.len() && after.snapshots[i] == snapshot;
        assert(after.snapshots[i].snapshot_id == id);
    } else {
        assert(after == before);
    }
}

/// How many snapshots of a branch are kept whatever their age: as many as the branch says, or as
/// the expiry says where it says nothing, and one at least.
pub open spec fn least_kept(retention: SnapshotRetention, retain_last: i32) -> int {
    let wanted = match retention {
        SnapshotRetention::Branch { min_snapshots_to_keep: Some(count), .. } => count as int,
        _ => retain_last as int,
    };
    if wanted >= 1 {
        wanted
    } else {
        1
    }
}

/// The moment from which on the snapshots of a branch are kept: by the age that the branch says,
/// or as the expiry says where it says nothing.
pub open spec fn kept_since(retention: SnapshotRetention, terms: ExpiryTerms) -> int {
    match retention {
        SnapshotRetention::Branch { max_snapshot_age_ms: Some(age), .. } => terms.now - age,
        _ => terms.older_than as int,
    }
}

/// The main branch survives every expiry. Another reference does exactly where its snapshot
/// exists and is not older than the reference allows, or than the table allows where the
/// reference says nothing.
pub proof fn law_references_survive(
    metadata: TableMetadata,
    now: i64,
    entry: (Seq<char>, SnapshotReference),
)
    ensures
        entry.0 == "main"@ ==> ref_kept(metadata, now, entry),
        entry.0 != "main"@ ==> (ref_kept(metadata, now, entry) <==> (snapshot_position(
            metadata.snapshots@,
            entry.1.snapshot_id,
        ) matches Some(s) && now - metadata.snapshots@[s].timestamp_ms <= (
        match entry.1.retention {
            SnapshotRetention::Branch { max_ref_age_ms: Some(age), .. } => age as int,
            SnapshotRetention::Tag { max_ref_age_ms: Some(age) } => age as int,
            _ => match value_of(metadata.properties@, "history.expire.max-ref-age-ms"@) {
                Some(text) => match bounded_value(text@, i64::MIN as int, i64::MAX as int) {
                    Some(age) => age,
                    None => i64::MAX as int,
                },
                None => i64::MAX as int,
            },
        }))),
{
}

/// A branch that survives keeps its last snapshots, whatever their age, and behind them those of
/// its snapshots that are young enough, up to the first that is not.
pub proof fn law_branches_keep_young_snapshots(
    metadata: TableMetadata,
    terms: ExpiryTerms,
    r: int,
    depth: nat,
)
    requires
        0 <= r < metadata.refs@.len(),
        ref_kept(metadata, terms.now, metadata.refs@[r]),
        metadata.refs@[r].1.retention is Branch,
        ({
            let head = snapshot_position(metadata.snapshots@, metadata.refs@[r].1.snapshot_id);
            &&& ancestor(metadata.snapshots@, head, depth) is Some
            &&& forall|d: nat|
                least_kept(metadata.refs@[r].1.retention, terms.retain_last) <= d <= depth
                    ==> !#[trigger] is_ancestor_before(
                    metadata.snapshots@,
                    head,
                    d,
                    kept_since(metadata.refs@[r].1.retention, terms),
                )
        }),
    ensures
        is_retained(
            metadata,
            terms,
            metadata.snapshots@[ancestor(
                metadata.snapshots@,
                snapshot_position(metadata.snapshots@, metadata.refs@[r].1.snapshot_id),
                depth,
            )->0].snapshot_id,
        ),
{
    let snapshots = metadata.snapshots@;
    let entry = metadata.refs@[r];
    let head = snapshot_position(snapshots, entry.1.snapshot_id);
    let min_keep = branch_min_keep(entry.1, terms.retain_last);
    let cutoff = branch_cutoff(entry.1, terms);
    let id = snapshots[ancestor(snapshots, head, depth)->0].snapshot_id;
    lemma_snapshot_position(snapshots, entry.1.snapshot_id);
    assert forall|d: nat| d <= depth implies #[trigger] keeps(
        snapshots,
        head,
        min_keep,
        cutoff,
        d,
    ) by {
        lemma_ancestor(snapshots, head, depth, d);
        if d >= least_kept(entry.1.retention, terms.retain_last) {
            assert(!is_ancestor_before(
                snapshots,
                head,
                d,
                kept_since(entry.1.retention, terms),
            ));
        }
    }
    assert(kept_to(snapshots, head, min_keep, cutoff, depth));
    assert(branch_retains(snapshots, head, min_keep, cutoff, id));
    assert(ref_retains(metadata, terms, metadata.refs@[r], id));
    assert(retained_by_refs(metadata, terms, id));
}

/// Whether a snapshot is the ancestor at the given depth.
pub open spec fn is_ancestor_at(
    snapshots: Seq<Snapshot>,
    head: Option<int>,
    depth: nat,
    id: i64,
) -> bool {
    ancestor(snapshots, head, depth) matches Some(at) && snapshots[at].snapshot_id == id
}

/// Whether the ancestor at the given depth is from before the given moment.
pub open spec fn is_ancestor_before(
    snapshots: Seq<Snapshot>,
    head: Option<int>,
    depth: nat,
    moment: int,
) -> bool {
    ancestor(snapshots, head, depth) matches Some(at) && snapshots[at].timestamp_ms < moment
}

/// Whether a reference that survives does not keep a snapshot: it does not point at it, and where
/// it is a branch with the snapshot among its ancestors, there is one too old to keep on the way
/// there, behind those that are kept whatever their age.
pub open spec fn lets_go(
    metadata: TableMetadata,
    terms: ExpiryTerms,
    reference: SnapshotReference,
    id: i64,
) -> bool {
    let head = snapshot_position(metadata.snapshots@, reference.snapshot_id);
    &&& reference.snapshot_id != id
    &&& reference.retention is Branch ==> forall|depth: nat| #[trigger]
        is_ancestor_at(metadata.snapshots@, head, depth, id) ==> exists|d: nat|
            least_kept(reference.retention, terms.retain_last) <= d <= depth
                && #[trigger] is_ancestor_before(
                metadata.snapshots@,
                head,
                d,
                kept_since(reference.retention, terms),
            )
}

/// A snapshot that every reference that survives lets go expires, where it is reachable from one
/// of them or is itself too old.
pub proof fn law_old_snapshots_expire(metadata: TableMetadata, terms: ExpiryTerms, id: i64)
    requires
        forall|r: int|
            0 <= r < metadata.refs@.len() && ref_kept(
                metadata,
                terms.now,
                #[trigger] metadata.refs@[r],
            ) ==> lets_go(metadata, terms, metadata.refs@[r].1, id),
        (exists|r: int|
            0 <= r < metadata.refs@.len() && ref_kept(
                metadata,
                terms.now,
                #[trigger] metadata.refs@[r],
            ) && metadata.refs@[r].1.retention is Branch && has_ancestor(
                metadata.snapshots@,
                snapshot_position(metadata.snapshots@, metadata.refs@[r].1.snapshot_id),
                id,
            )) || forall|s: int|
            0 <= s < metadata.snapshots@.len() && (#[trigger] metadata.snapshots@[s]).snapshot_id
                == id ==> metadata.snapshots@[s].timestamp_ms < terms.older_than,
    ensures
        !is_retained(metadata, terms, id),
{
    let snapshots = metadata.snapshots@;
    if retained_by_refs(metadata, terms, id) {
        let r = choose|r: int|
            0 <= r < metadata.refs@.len() && ref_retains(
                metadata,
                terms,
                #[trigger] metadata.refs@[r],
                id,
            );
        let entry = metadata.refs@[r];
        assert(lets_go(metadata, terms, entry.1, id));
        let head = snapshot_position(snapshots, entry.1.snapshot_id);
        let min_keep = branch_min_keep(entry.1, terms.retain_last);
        let cutoff = branch_cutoff(entry.1, terms);
        let depth = choose|depth: nat| #[trigger]
            kept_to(snapshots, head, min_keep, cutoff, depth) && snapshots[ancestor(
                snapshots,
                head,
                depth,
            )->0].snapshot_id == id;
        assert(keeps(snapshots, head, min_keep, cutoff, depth));
        assert(is_ancestor_at(snapshots, head, depth, id));
        let d = choose|d: nat|
            least_kept(entry.1.retention, terms.retain_last) <= d <= depth
                && #[trigger] is_ancestor_before(
                snapshots,
                head,
                d,
                kept_since(entry.1.retention, terms),
            );
        assert(keeps(snapshots, head, min_keep, cutoff, d));
    }
    if exists|r: int|
        0 <= r < metadata.refs@.len() && ref_kept(
            metadata,
            terms.now,
            #[trigger] metadata.refs@[r],
        ) && metadata.refs@[r].1.retention is Branch && has_ancestor(
            snapshots,
            snapshot_position(snapshots, metadata.refs@[r].1.snapshot_id),
            id,
        ) {
        let r = choose|r: int|
            0 <= r < metadata.refs@.len() && ref_kept(
                metadata,
                terms.now,
                #[trigger] metadata.refs@[r],
            ) && metadata.refs@[r].1.retention is Branch && has_ancestor(
                snapshots,
                snapshot_position(snapshots, metadata.refs@[r].1.snapshot_id),
                id,
            );
        assert(ref_reaches(metadata, terms.now, metadata.refs@[r], id));
    }
}

/// A snapshot that no reference that survives reaches is kept as long as it is young.
pub proof fn law_young_snapshots_without_references_survive(
    metadata: TableMetadata,
    terms: ExpiryTerms,
    s: int,
)
    requires
        0 <= s < metadata.snapshots@.len(),
        metadata.snapshots@[s].timestamp_ms >= terms.older_than,
        forall|r: int|
            0 <= r < metadata.refs@.len() && ref_kept(
                metadata,
                terms.now,
                #[trigger] metadata.refs@[r],
            ) ==> metadata.refs@[r].1.snapshot_id != metadata.snapshots@[s].snapshot_id && (
            metadata.refs@[r].1.retention is Branch ==> !has_ancestor(
                metadata.snapshots@,
                snapshot_position(metadata.snapshots@, metadata.refs@[r].1.snapshot_id),
                metadata.snapshots@[s].snapshot_id,
            )),
    ensures
        is_retained(metadata, terms, metadata.snapshots@[s].snapshot_id),
{
    let id = metadata.snapshots@[s].snapshot_id;
    assert(is_recent(metadata, terms, id));
    if is_referenced(metadata, terms.now, id) {
        let r = choose|r: int|
            0 <= r < metadata.refs@.len() && ref_reaches(
                metadata,
                terms.now,
                #[trigger] metadata.refs@[r],
                id,
            );
        assert(ref_kept(metadata, terms.now, metadata.refs@[r]));
    }
}

/// The terms of an expiry are those that are given; else the table says them, by the age at which
/// its snapshots expire and by how many of a branch it keeps, or else five days and one.
pub proof fn law_expiry_terms(
    metadata: TableMetadata,
    now: i64,
    older_than_ms: Option<i64>,
    retain_last: Option<i32>,
)
    ensures
        ({
            let terms = expiry_terms(metadata, now, older_than_ms, retain_last);
            let age = match value_of(metadata.properties@, "history.expire.max-snapshot-age-ms"@) {
                Some(text) => match bounded_value(text@, i64::MIN as int, i64::MAX as int) {
                    Some(age) => age,
                    None => 5 * 24 * 60 * 60 * 1000int,
                },
                None => 5 * 24 * 60 * 60 * 1000int,
            };
            let count = match value_of(
                metadata.properties@,
                "history.expire.min-snapshots-to-keep"@,
            ) {
                Some(text) => match bounded_value(text@, i32::MIN as int, i32::MAX as int) {
                    Some(count) => count,
                    None => 1,
                },
                None => 1,
            };
            &&& terms.now == now
            &&& older_than_ms matches Some(moment) ==> terms.older_than == moment
            &&& older_than_ms is None && i64::MIN <= now - age <= i64::MAX ==> terms.older_than
                == now - age
            &&& retain_last matches Some(given) ==> terms.retain_last == given
            &&& retain_last is None ==> terms.retain_last == count
        }),
{
}

/// What removing snapshots does to a table: the snapshots with the given ids go, and with them
/// their statistics where these are removed too. Nothing else changes.
pub proof fn law_removed_snapshots(state: ProcedureState, ids: Seq<i64>, with_statistics: bool)
    ensures
        ({
            let after = changed(state, ProcedureChange::RemoveSnapshots { ids }, with_statistics);
            &&& after.snapshots == state.snapshots.filter(
                |snapshot: Snapshot| !ids.contains(snapshot.snapshot_id),
            )
            &&& with_statistics ==> after.statistics == state.statistics.filter(
                |file: StatisticsFile| !ids.contains(file.snapshot_id),
            )
            &&& with_statistics ==> after.partition_statistics == state.partition_statistics.filter(
                |file: PartitionStatisticsFile| !ids.contains(file.snapshot_id),
            )
            &&& !with_statistics ==> after.statistics == state.statistics
                && after.partition_statistics == state.partition_statistics
            &&& after.refs == state.refs
            &&& after.current_snapshot_id == state.current_snapshot_id
        }),
{
    assert(stays(ids) =~= |snapshot: Snapshot| !ids.contains(snapshot.snapshot_id));
    assert(statistics_stay(ids) =~= |file: StatisticsFile| !ids.contains(file.snapshot_id));
    assert(partition_statistics_stay(ids) =~= |file: PartitionStatisticsFile|
        !ids.contains(file.snapshot_id));
}

/// Setting a reference changes the current snapshot only where the reference is `main`; removing
/// one changes nothing but the references.
pub proof fn law_changed_references(
    state: ProcedureState,
    name: Seq<char>,
    reference: SnapshotReference,
    with_statistics: bool,
)
    requires
        distinct_keys(state.refs),
    ensures
        ({
            let set = changed(
                state,
                ProcedureChange::SetRef { ref_name: name, reference },
                with_statistics,
            );
            let gone = changed(
                state,
                ProcedureChange::RemoveRef { ref_name: name },
                with_statistics,
            );
            &&& value_of(set.refs, name) == Some(reference)
            &&& name == "main"@ ==> set.current_snapshot_id == Some(reference.snapshot_id)
            &&& name != "main"@ ==> set.current_snapshot_id == state.current_snapshot_id
            &&& value_of(gone.refs, name) is None
            &&& gone.current_snapshot_id == state.current_snapshot_id
            &&& forall|other: Seq<char>|
                other != name ==> #[trigger] value_of(state.refs, other) == value_of(
                    set.refs,
                    other,
                ) && value_of(state.refs, other) == value_of(gone.refs, other)
            &&& set.snapshots == state.snapshots && gone.snapshots == state.snapshots
            &&& set.statistics == state.statistics && gone.statistics == state.statistics
            &&& set.partition_statistics == state.partition_statistics
            &&& gone.partition_statistics == state.partition_statistics
        }),
{
    lemma_stored(state.refs, name, reference);
    lemma_dropped(state.refs, name);
}

/// The target of a procedure: a rollback names it; a choice of the current snapshot names it or a
/// reference to it, and not both. A target that does not exist, or to which a rollback does not
/// lead, is refused.
pub proof fn law_procedures_have_targets(
    snapshot_id: i64,
    target_id: Option<i64>,
    ref_name: Option<String>,
    metadata: TableMetadata,
    now: i64,
)
    ensures
        ({
            let rollback = procedure_changes(
                TableFormatProcedureOperation::RollbackToSnapshot { snapshot_id },
                metadata,
                now,
            );
            &&& snapshot_position(metadata.snapshots@, snapshot_id) is None ==> rollback == Err::<
                Seq<ProcedureChange>,
                _,
            >(ProcedureFault::MissingSnapshot { snapshot_id })
            &&& snapshot_position(metadata.snapshots@, snapshot_id) is Some && !has_ancestor(
                metadata.snapshots@,
                metadata.current_position(),
                snapshot_id,
            ) ==> rollback == Err::<Seq<ProcedureChange>, _>(
                ProcedureFault::NotAncestor { snapshot_id },
            )
        }),
        ({
            let choice = procedure_changes(
                TableFormatProcedureOperation::SetCurrentSnapshot { target_id, ref_name },
                metadata,
                now,
            );
            let found = match (target_id, ref_name) {
                (Some(id), None) => Some(id),
                (None, Some(name)) => match value_of(metadata.refs@, name@) {
                    Some(reference) => Some(reference.snapshot_id),
                    None => None,
                },
                _ => None,
            };
            &&& choice is Ok <==> found is Some && exists|s: int|
                0 <= s < metadata.snapshots@.len() && (
                #[trigger] metadata.snapshots@[s]).snapshot_id == found->0
            &&& target_id is Some && ref_name is Some ==> choice == Err::<Seq<ProcedureChange>, _>(
                ProcedureFault::BothTargets,
            )
            &&& target_id is None && ref_name is None ==> choice == Err::<Seq<ProcedureChange>, _>(
                ProcedureFault::MissingTarget,
            )
            &&& (target_id is None && ref_name is Some && found is None) ==> choice == Err::<
                Seq<ProcedureChange>,
                _,
            >(ProcedureFault::UnknownRef { ref_name: ref_name->0@ })
            &&& choice is Err && found is Some ==> choice == Err::<Seq<ProcedureChange>, _>(
                ProcedureFault::MissingSnapshot { snapshot_id: found->0 },
            )
        }),
{
    let found = match (target_id, ref_name) {
        (Some(id), None) => Some(id),
        (None, Some(name)) => match value_of(metadata.refs@, name@) {
            Some(reference) => Some(reference.snapshot_id),
            None => None,
        },
        _ => None,
    };
    if found is Some {
        lemma_snapshot_position(metadata.snapshots@, found->0);
    }
}

/// A procedure lets `main` keep its retention, and gives it that of a branch without limits where
/// there is no `main`.
pub proof fn law_main_keeps_its_retention(metadata: TableMetadata)
    ensures
        match value_of(metadata.refs@, "main"@) {
            Some(reference) => main_retention(metadata) == reference.retention && main_snapshot(
                metadata,
            ) == Some(reference.snapshot_id),
            None => main_retention(metadata) == (SnapshotRetention::Branch {
                min_snapshots_to_keep: None,
                max_snapshot_age_ms: None,
                max_ref_age_ms: None,
            }) && main_snapshot(metadata) is None,
        },
        previous_snapshot(metadata) == (match (
            value_of(metadata.refs@, "main"@),
            metadata.current_snapshot_id,
        ) {
            (Some(reference), _) => reference.snapshot_id,
            (None, Some(id)) => id,
            (None, None) => 0,
        }),
{
}

/// A procedure has requirements on references alone. One holds exactly where the reference stands
/// for the wanted snapshot; where negative ids are none, wanting one is wanting none.
pub proof fn law_procedure_requirements(
    metadata: TableMetadata,
    requirement: TableRequirement,
    index: int,
    negative_is_none: bool,
)
    ensures
        procedure_fault(metadata, requirement, index, negative_is_none) is None <==> (
        requirement matches TableRequirement::RefSnapshotIdMatch { ref_name, snapshot_id }
            && match referenced_snapshot(metadata.current_snapshot_id, metadata.refs@, ref_name@) {
            Some(found) => snapshot_id == Some(found),
            None => snapshot_id is None || (negative_is_none && snapshot_id->0 < 0),
        }),
        !(requirement is RefSnapshotIdMatch) ==> procedure_fault(
            metadata,
            requirement,
            index,
            negative_is_none,
        ) == Some(ProcedureFault::UnsupportedRequirement { index }),
{
}

/// The fault of a procedure's requirements is that of the first that does not hold.
pub proof fn law_first_procedure_faults(
    metadata: TableMetadata,
    requirements: Seq<TableRequirement>,
    negative_is_none: bool,
)
    ensures
        match first_procedure_fault(metadata, requirements, negative_is_none) {
            None => forall|i: int|
                0 <= i < requirements.len() ==> procedure_fault(
                    metadata,
                    #[trigger] requirements[i],
                    i,
                    negative_is_none,
                ) is None,
            Some(fault) => exists|i: int|
                0 <= i < requirements.len() && procedure_fault(
                    metadata,
                    #[trigger] requirements[i],
                    i,
                    negative_is_none,
                ) == Some(fault) && forall|j: int|
                    0 <= j < i ==> procedure_fault(
                        metadata,
                        #[trigger] requirements[j],
                        j,
                        negative_is_none,
                    ) is None,
        },
    decreases requirements.len(),
{
    if requirements.len() > 0 {
        let init = requirements.drop_last();
        let last = requirements.len() - 1;
        law_first_procedure_faults(metadata, init, negative_is_none);
        match first_procedure_fault(metadata, init, negative_is_none) {
            Some(fault) => {
                let i = choose|i: int|
                    0 <= i < init.len() && procedure_fault(
                        metadata,
                        #[trigger] init[i],
                        i,
                        negative_is_none,
                    ) == Some(fault) && forall|j: int|
                        0 <= j < i ==> procedure_fault(
                            metadata,
                            #[trigger] init[j],
                            j,
                            negative_is_none,
                        ) is None;
                assert(requirements[i] == init[i]);
                assert forall|j: int| 0 <= j < i implies procedure_fault(
                    metadata,
                    #[trigger] requirements[j],
                    j,
                    negative_is_none,
                ) is None by {
                    assert(requirements[j] == init[j]);
                }
            },
            None => {
                assert forall|j: int| 0 <= j < last implies procedure_fault(
                    metadata,
                    #[trigger] requirements[j],
                    j,
                    negative_is_none,
                ) is None by {
                    assert(requirements[j] == init[j]);
                }
                assert(requirements[last] == requirements.last());
            },
        }
    }
}

} // verus!
