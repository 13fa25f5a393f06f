//! Procedures on a table: rolling back, choosing the current snapshot, expiring snapshots.

use std::collections::HashSet;

use vstd::prelude::*;
use vstd::string::*;

use crate::iceberg::ancestry::is_current_ancestor;
use crate::iceberg::expiry::{
    check_ages, max_snapshot_age_ms, min_snapshots_to_keep, retained_snapshot_ids, ExpiryTerms,
};
use crate::iceberg::identifiers::shown_id_text;
use crate::iceberg::requirements::resolve_reference;
use crate::iceberg::table::{
    PartitionStatisticsFile, Snapshot, SnapshotReference, SnapshotRetention, StatisticsFile,
    TableMetadata, TableRequirement, TableUpdate, MAIN_BRANCH,
};
use crate::string_map::str_eq;
use crate::text::signed_decimal_text;

verus! {

use crate::assoc::{dropped, stored, value_of};
use crate::iceberg::ancestry::has_ancestor;
use crate::iceberg::expiry::{ages_fit, is_retained, is_time, max_snapshot_age, min_snapshots};
use crate::iceberg::identifiers::shown_id;
use crate::iceberg::requirements::referenced_snapshot;
use crate::iceberg::table::snapshot_position;
use crate::text::signed_decimal;

/// A procedure with its arguments.
#[derive(Debug)]
pub enum TableFormatProcedureOperation {
    RollbackToSnapshot { snapshot_id: i64 },
    /// The target is a snapshot or a reference.
    SetCurrentSnapshot { target_id: Option<i64>, ref_name: Option<String> },
    ExpireSnapshots { older_than_ms: Option<i64>, retain_last: Option<i32> },
}

/// Why a procedure cannot be carried out.
#[derive(Debug)]
pub enum ProcedureError {
    MissingSnapshot { snapshot_id: i64 },
    NotAncestor { snapshot_id: i64 },
    MissingTarget,
    BothTargets,
    UnknownRef { ref_name: String },
    /// The requirement at the given position is not one that procedures have.
    UnsupportedRequirement { index: usize },
    /// The update at the given position is not one that procedures make.
    UnsupportedUpdate { index: usize },
    Conflict { ref_name: String, expected: Option<i64>, found: Option<i64> },
}

/// Why a procedure cannot be carried out, by its contents.
#[allow(inconsistent_fields)]
pub enum ProcedureFault {
    MissingSnapshot { snapshot_id: i64 },
    NotAncestor { snapshot_id: i64 },
    MissingTarget,
    BothTargets,
    UnknownRef { ref_name: Seq<char> },
    UnsupportedRequirement { index: int },
    UnsupportedUpdate { index: int },
    Conflict { ref_name: Seq<char>, expected: Option<i64>, found: Option<i64> },
}

impl View for ProcedureError {
    type V = ProcedureFault;

    open spec fn view(&self) -> ProcedureFault {
        match self {
            ProcedureError::MissingSnapshot { snapshot_id } => ProcedureFault::MissingSnapshot {
                snapshot_id: *snapshot_id,
            },
            ProcedureError::NotAncestor { snapshot_id } => ProcedureFault::NotAncestor {
                snapshot_id: *snapshot_id,
            },
            ProcedureError::MissingTarget => ProcedureFault::MissingTarget,
            ProcedureError::BothTargets => ProcedureFault::BothTargets,
            ProcedureError::UnknownRef { ref_name } => ProcedureFault::UnknownRef {
                ref_name: ref_name@,
            },
            ProcedureError::UnsupportedRequirement { index } => {
                ProcedureFault::UnsupportedRequirement { index: *index as int }
            },
            ProcedureError::UnsupportedUpdate { index } => ProcedureFault::UnsupportedUpdate {
                index: *index as int,
            },
            ProcedureError::Conflict { ref_name, expected, found } => ProcedureFault::Conflict {
                ref_name: ref_name@,
                expected: *expected,
                found: *found,
            },
        }
    }
}

impl ProcedureFault {
    pub open spec fn text(self) -> Seq<char> {
        match self {
            ProcedureFault::MissingSnapshot { snapshot_id } => "snapshot "@ + signed_decimal(
                snapshot_id as int,
            ) + " does not exist"@,
            ProcedureFault::NotAncestor { snapshot_id } => {
                "Cannot roll back to snapshot, not an ancestor of the current state: "@
                    + signed_decimal(snapshot_id as int)
            },
            ProcedureFault::MissingTarget => {
                "missing snapshot_id or ref for set_current_snapshot"@
            },
            ProcedureFault::BothTargets => {
                "Either snapshot_id or ref must be provided, not both"@
            },
            ProcedureFault::UnknownRef { ref_name } => {
                "Cannot find matching snapshot ID for ref "@ + ref_name
            },
            ProcedureFault::UnsupportedRequirement { .. } => {
                "unsupported TableRequirement for CALL procedure: "@
            },
            ProcedureFault::UnsupportedUpdate { .. } => {
                "unsupported TableUpdate for CALL procedure: "@
            },
            ProcedureFault::Conflict { ref_name, expected, found } => {
                "Iceberg commit failed: reference '"@ + ref_name + "' expected snapshot "@
                    + shown_id(expected) + " but found "@ + shown_id(found)
            },
        }
    }
}

impl ProcedureError {
    /// The message of the error. That of an unsupported requirement or update ends where the
    /// requirement or update itself is to be shown.
    pub fn message(&self) -> (text: String)
        ensures
            text@ == self@.text(),
    {
        match self {
            ProcedureError::MissingSnapshot { snapshot_id } => {
                let mut text = "snapshot ".to_owned();
                text.append(signed_decimal_text(*snapshot_id).as_str());
                text.append(" does not exist");
                text
            },
            ProcedureError::NotAncestor { snapshot_id } => {
                let mut text =
                    "Cannot roll back to snapshot, not an ancestor of the current state: ".to_owned();
                text.append(signed_decimal_text(*snapshot_id).as_str());
                text
            },
            ProcedureError::MissingTarget => {
                "missing snapshot_id or ref for set_current_snapshot".to_owned()
            },
            ProcedureError::BothTargets => {
                "Either snapshot_id or ref must be provided, not both".to_owned()
            },
            ProcedureError::UnknownRef { ref_name } => {
                let mut text = "Cannot find matching snapshot ID for ref ".to_owned();
                text.append(ref_name.as_str());
                text
            },
            ProcedureError::UnsupportedRequirement { .. } => {
                "unsupported TableRequirement for CALL procedure: ".to_owned()
            },
            ProcedureError::UnsupportedUpdate { .. } => {
                "unsupported TableUpdate for CALL procedure: ".to_owned()
            },
            ProcedureError::Conflict { ref_name, expected, found } => {
                let mut text = "Iceberg commit failed: reference '".to_owned();
                text.append(ref_name.as_str());
                text.append("' expected snapshot ");
                text.append(shown_id_text(*expected).as_str());
                text.append(" but found ");
                text.append(shown_id_text(*found).as_str());
                text
            },
        }
    }
}

/// What a procedure does to a table.
#[verifier::ext_equal]
#[allow(inconsistent_fields)]
pub enum ProcedureChange {
    SetRef { ref_name: Seq<char>, reference: SnapshotReference },
    RemoveSnapshots { ids: Seq<i64> },
    RemoveRef { ref_name: Seq<char> },
    Unsupported,
}

/// What an update does.
pub open spec fn change_of(update: TableUpdate) -> ProcedureChange {
    match update {
        TableUpdate::SetSnapshotRef { ref_name, reference } => ProcedureChange::SetRef {
            ref_name: ref_name@,
            reference,
        },
        TableUpdate::RemoveSnapshots { snapshot_ids } => ProcedureChange::RemoveSnapshots {
            ids: snapshot_ids@,
        },
        TableUpdate::RemoveSnapshotRef { ref_name } => ProcedureChange::RemoveRef {
            ref_name: ref_name@,
        },
        _ => ProcedureChange::Unsupported,
    }
}

/// What updates do.
pub open spec fn changes_of(updates: Seq<TableUpdate>) -> Seq<ProcedureChange> {
    updates.map_values(|update: TableUpdate| change_of(update))
}

/// The retention of the `main` branch: the one that it has, or the default of a branch.
pub open spec fn main_retention(metadata: TableMetadata) -> SnapshotRetention {
    match value_of(metadata.refs@, MAIN_BRANCH@) {
        Some(reference) => reference.retention,
        None => SnapshotRetention::Branch {
            min_snapshots_to_keep: None,
            max_snapshot_age_ms: None,
            max_ref_age_ms: None,
        },
    }
}

/// The change that lets `main` point at a snapshot.
pub open spec fn main_change(metadata: TableMetadata, snapshot_id: i64) -> ProcedureChange {
    ProcedureChange::SetRef {
        ref_name: MAIN_BRANCH@,
        reference: SnapshotReference { snapshot_id, retention: main_retention(metadata) },
    }
}

/// Builds the `SetSnapshotRef` update pointing `main` at `snapshot_id`, preserving the
/// current `main` retention policy (or a default branch retention when absent).
pub fn set_main_snapshot_ref(metadata: &TableMetadata, snapshot_id: i64) -> (update: TableUpdate)
    ensures
        change_of(update) == main_change(*metadata, snapshot_id),
{
    let retention = match metadata.refs.get(MAIN_BRANCH) {
        Some(reference) => reference.retention,
        None => SnapshotRetention::Branch {
            min_snapshots_to_keep: None,
            max_snapshot_age_ms: None,
            max_ref_age_ms: None,
        },
    };
    TableUpdate::SetSnapshotRef {
        ref_name: MAIN_BRANCH.to_owned(),
        reference: SnapshotReference { snapshot_id, retention },
    }
}

/// The snapshot that a procedure is about, where it is about one.
pub open spec fn target_snapshot(
    procedure: TableFormatProcedureOperation,
    metadata: TableMetadata,
) -> Result<Option<i64>, ProcedureFault> {
    match procedure {
        TableFormatProcedureOperation::RollbackToSnapshot { snapshot_id } => Ok(Some(snapshot_id)),
        TableFormatProcedureOperation::SetCurrentSnapshot { target_id, ref_name } => match (
            target_id,
            ref_name,
        ) {
            (Some(id), None) => Ok(Some(id)),
            (None, Some(name)) => match value_of(metadata.refs@, name@) {
                Some(reference) => Ok(Some(reference.snapshot_id)),
                None => Err(ProcedureFault::UnknownRef { ref_name: name@ }),
            },
            (Some(_), Some(_)) => Err(ProcedureFault::BothTargets),
            (None, None) => Ok(None),
        },
        TableFormatProcedureOperation::ExpireSnapshots { .. } => Ok(None),
    }
}

/// Resolves the target snapshot id for `rollback_to_snapshot` / `set_current_snapshot`.
///
/// For `set_current_snapshot` with a `ref` (branch/tag) argument, resolves the ref name to its
/// referenced snapshot id from the table metadata's `refs` map, mirroring the Iceberg
/// procedure ("Cannot find matching snapshot ID for ref %s"). Returns `None` when neither a
/// `snapshot_id` nor a `ref` was provided.
pub fn resolve_target_snapshot_id(
    procedure: &TableFormatProcedureOperation,
    metadata: &TableMetadata,
) -> (target: Result<Option<i64>, ProcedureError>)
    ensures
        match target {
            Ok(id) => target_snapshot(*procedure, *metadata) == Ok::<_, ProcedureFault>(id),
            Err(e) => target_snapshot(*procedure, *metadata) == Err::<Option<i64>, _>(e@),
        },
{
    match procedure {
        TableFormatProcedureOperation::RollbackToSnapshot { snapshot_id } => Ok(Some(*snapshot_id)),
        TableFormatProcedureOperation::SetCurrentSnapshot { target_id, ref_name } => {
            match (target_id, ref_name) {
                (Some(id), None) => Ok(Some(*id)),
                (None, Some(name)) => match metadata.refs.get(name.as_str()) {
                    Some(reference) => Ok(Some(reference.snapshot_id)),
                    None => Err(ProcedureError::UnknownRef { ref_name: name.clone() }),
                },
                (Some(_), Some(_)) => Err(ProcedureError::BothTargets),
                (None, None) => Ok(None),
            }
        },
        TableFormatProcedureOperation::ExpireSnapshots { .. } => Ok(None),
    }
}

/// Whether the moments that expiring snapshots asks for can be computed.
pub open spec fn expiry_fits(metadata: TableMetadata, now: i64) -> bool {
    is_time(now - max_snapshot_age(metadata)) && ages_fit(metadata, now)
}

/// Whether the moments that expiring snapshots asks for can be computed.
pub fn check_expiry(metadata: &TableMetadata, now: i64) -> (fit: bool)
    ensures
        fit == expiry_fits(*metadata, now),
{
    now.checked_sub(max_snapshot_age_ms(metadata)).is_some() && check_ages(metadata, now)
}

/// The terms of an expiry, with the defaults of the table for those that are not given.
pub open spec fn expiry_terms(
    metadata: TableMetadata,
    now: i64,
    older_than_ms: Option<i64>,
    retain_last: Option<i32>,
) -> ExpiryTerms {
    ExpiryTerms {
        now,
        older_than: match older_than_ms {
            Some(moment) => moment,
            None => (now - max_snapshot_age(metadata)) as i64,
        },
        retain_last: match retain_last {
            Some(count) => count,
            None => min_snapshots(metadata) as i32,
        },
    }
}

/// Whether a snapshot expires.
pub open spec fn expires(metadata: TableMetadata, terms: ExpiryTerms) -> spec_fn(Snapshot) -> bool {
    |snapshot: Snapshot| !is_retained(metadata, terms, snapshot.snapshot_id)
}

/// The id of a snapshot.
pub open spec fn id_of_snapshot() -> spec_fn(Snapshot) -> i64 {
    |snapshot: Snapshot| snapshot.snapshot_id
}

/// The ids of the snapshots that expire, in order.
pub open spec fn expired_ids(metadata: TableMetadata, terms: ExpiryTerms) -> Seq<i64> {
    metadata.snapshots@.filter(expires(metadata, terms)).map_values(id_of_snapshot())
}

/// Whether a reference goes with its snapshot.
pub open spec fn loses_ref(metadata: TableMetadata, terms: ExpiryTerms) -> spec_fn(
    (Seq<char>, SnapshotReference),
) -> bool {
    |entry: (Seq<char>, SnapshotReference)|
        entry.0 != MAIN_BRANCH@ && !is_retained(metadata, terms, entry.1.snapshot_id)
}

/// The change that removes a reference.
pub open spec fn ref_removal() -> spec_fn((Seq<char>, SnapshotReference)) -> ProcedureChange {
    |entry: (Seq<char>, SnapshotReference)| ProcedureChange::RemoveRef { ref_name: entry.0 }
}

/// What expiring snapshots does: nothing where none expires, and otherwise the snapshots go,
/// and with them the references other than `main` whose snapshots do not survive.
pub open spec fn expiry_changes(metadata: TableMetadata, terms: ExpiryTerms) -> Seq<
    ProcedureChange,
> {
    if expired_ids(metadata, terms).len() == 0 {
        Seq::empty()
    } else {
        seq![ProcedureChange::RemoveSnapshots { ids: expired_ids(metadata, terms) }]
            + metadata.refs@.filter(loses_ref(metadata, terms)).map_values(ref_removal())
    }
}

/// Computes `RemoveSnapshots` / `RemoveSnapshotRef` for `expire_snapshots` using the spec
/// retain-set algorithm. Returns nothing when nothing expires.
///
/// `older_than_ms` and `retain_last` are optional procedure arguments; defaults are read from
/// the table's `history.expire.*` properties. See `retained_snapshot_ids`.
pub fn expire_snapshot_updates(
    metadata: &TableMetadata,
    now: i64,
    older_than_ms: Option<i64>,
    retain_last: Option<i32>,
) -> (updates: Vec<TableUpdate>)
    requires
        expiry_fits(*metadata, now),
    ensures
        changes_of(updates@) == expiry_changes(
            *metadata,
            expiry_terms(*metadata, now, older_than_ms, retain_last),
        ),
{
    let ghost terms = expiry_terms(*metadata, now, older_than_ms, retain_last);
    let max_age: i64 = max_snapshot_age_ms(metadata);
    let older_than: i64 = match older_than_ms {
        Some(moment) => moment,
        None => now - max_age,
    };
    let keep: i32 = match retain_last {
        Some(count) => count,
        None => min_snapshots_to_keep(metadata),
    };
    assert(terms == (ExpiryTerms { now, older_than, retain_last: keep }));
    let (retained, _) = retained_snapshot_ids(metadata, now, older_than, keep);
    let ghost all = metadata.snapshots@;
    let mut expired: Vec<i64> = Vec::new();
    assert(all.take(0).filter(expires(*metadata, terms)).map_values(id_of_snapshot()) =~= Seq::<
        i64,
    >::empty()) by {
        reveal(Seq::filter);
    }
    for s in 0..metadata.snapshots.len()
        invariant
            all == metadata.snapshots@,
            forall|id: i64| #[trigger]
                retained@.contains(id) <==> is_retained(*metadata, terms, id),
            expired@ == all.take(s as int).filter(expires(*metadata, terms)).map_values(
                id_of_snapshot(),
            ),
    {
        broadcast use vstd::std_specs::hash::group_hash_axioms;

        let ghost before = all.take(s as int).filter(expires(*metadata, terms));
        let snapshot = &metadata.snapshots[s];
        proof {
            reveal(Seq::filter);
            assert(all.take(s + 1).drop_last() =~= all.take(s as int));
            assert(all.take(s + 1).last() == *snapshot);
        }
        if !retained.contains(&snapshot.snapshot_id) {
            expired.push(snapshot.snapshot_id);
            assert(before.push(*snapshot).map_values(id_of_snapshot()) =~= before.map_values(
                id_of_snapshot(),
            ).push(snapshot.snapshot_id));
        } else {
            assert(is_retained(*metadata, terms, snapshot.snapshot_id));
        }
    }
    assert(all.take(all.len() as int) =~= all);
    let mut updates: Vec<TableUpdate> = Vec::new();
    if expired.len() == 0 {
        assert(changes_of(updates@) =~= Seq::<ProcedureChange>::empty());
        return updates;
    }
    let ghost first = ProcedureChange::RemoveSnapshots { ids: expired@ };
    updates.push(TableUpdate::RemoveSnapshots { snapshot_ids: expired });
    let ghost refs = metadata.refs@;
    assert(changes_of(updates@) =~= seq![first] + refs.take(0).filter(
        loses_ref(*metadata, terms),
    ).map_values(ref_removal())) by {
        reveal(Seq::filter);
    }
    let ref_count: usize = metadata.refs.len();
    for r in 0..ref_count
        invariant
            refs == metadata.refs@,
            ref_count == refs.len(),
            forall|id: i64| #[trigger]
                retained@.contains(id) <==> is_retained(*metadata, terms, id),
            changes_of(updates@) == seq![first] + refs.take(r as int).filter(
                loses_ref(*metadata, terms),
            ).map_values(ref_removal()),
    {
        broadcast use vstd::std_specs::hash::group_hash_axioms;

        let ghost before = refs.take(r as int).filter(loses_ref(*metadata, terms));
        let ghost made = updates@;
        let (name, reference) = metadata.refs.entry(r);
        let ghost entry = refs[r as int];
        proof {
            reveal(Seq::filter);
            assert(refs.take(r + 1).drop_last() =~= refs.take(r as int));
            assert(refs.take(r + 1).last() == entry);
            assert(entry == (name@, *reference));
        }
        assert(retained@.contains(reference.snapshot_id) <==> is_retained(
            *metadata,
            terms,
            reference.snapshot_id,
        ));
        if !str_eq(name.as_str(), MAIN_BRANCH) && !retained.contains(&reference.snapshot_id) {
            let update = TableUpdate::RemoveSnapshotRef { ref_name: name.clone() };
            assert(change_of(update) == ref_removal()(entry));
            updates.push(update);
            assert(changes_of(updates@) =~= changes_of(made).push(ref_removal()(entry)));
            assert(before.push(entry).map_values(ref_removal()) =~= before.map_values(
                ref_removal(),
            ).push(ref_removal()(entry)));
            assert(changes_of(updates@) =~= seq![first] + before.push(entry).map_values(
                ref_removal(),
            ));
        }
    }
    assert(refs.take(refs.len() as int) =~= refs);
    updates
}

/// What a procedure does to a table at the given moment, or why it does nothing.
pub open spec fn procedure_changes(
    procedure: TableFormatProcedureOperation,
    metadata: TableMetadata,
    now: i64,
) -> Result<Seq<ProcedureChange>, ProcedureFault> {
    match procedure {
        TableFormatProcedureOperation::RollbackToSnapshot { snapshot_id } => if snapshot_position(
            metadata.snapshots@,
            snapshot_id,
        ) is None {
            Err(ProcedureFault::MissingSnapshot { snapshot_id })
        } else if !has_ancestor(metadata.snapshots@, metadata.current_position(), snapshot_id) {
            Err(ProcedureFault::NotAncestor { snapshot_id })
        } else {
            Ok(seq![main_change(metadata, snapshot_id)])
        },
        TableFormatProcedureOperation::SetCurrentSnapshot { .. } => match target_snapshot(
            procedure,
            metadata,
        ) {
            Err(fault) => Err(fault),
            Ok(None) => Err(ProcedureFault::MissingTarget),
            Ok(Some(snapshot_id)) => if snapshot_position(metadata.snapshots@, snapshot_id) is None {
                Err(ProcedureFault::MissingSnapshot { snapshot_id })
            } else {
                Ok(seq![main_change(metadata, snapshot_id)])
            },
        },
        TableFormatProcedureOperation::ExpireSnapshots { older_than_ms, retain_last } => Ok(
            expiry_changes(metadata, expiry_terms(metadata, now, older_than_ms, retain_last)),
        ),
    }
}

fn main_update(metadata: &TableMetadata, snapshot_id: i64) -> (updates: Vec<TableUpdate>)
    ensures
        changes_of(updates@) == seq![main_change(*metadata, snapshot_id)],
{
    let mut updates: Vec<TableUpdate> = Vec::new();
    updates.push(set_main_snapshot_ref(metadata, snapshot_id));
    assert(changes_of(updates@) =~= seq![main_change(*metadata, snapshot_id)]);
    updates
}

/// Computes the metadata `TableUpdate`s for a CALL procedure against the given metadata.
pub fn compute_procedure_updates(
    procedure: &TableFormatProcedureOperation,
    metadata: &TableMetadata,
    now: i64,
) -> (updates: Result<Vec<TableUpdate>, ProcedureError>)
    requires
        procedure is ExpireSnapshots ==> expiry_fits(*metadata, now),
    ensures
        match updates {
            Ok(list) => procedure_changes(*procedure, *metadata, now) == Ok::<_, ProcedureFault>(
                changes_of(list@),
            ),
            Err(e) => procedure_changes(*procedure, *metadata, now) == Err::<
                Seq<ProcedureChange>,
                _,
            >(e@),
        },
{
    match procedure {
        TableFormatProcedureOperation::RollbackToSnapshot { snapshot_id } => {
            if metadata.snapshot(*snapshot_id).is_none() {
                return Err(ProcedureError::MissingSnapshot { snapshot_id: *snapshot_id });
            }
            if !is_current_ancestor(metadata, *snapshot_id) {
                return Err(ProcedureError::NotAncestor { snapshot_id: *snapshot_id });
            }
            Ok(main_update(metadata, *snapshot_id))
        },
        TableFormatProcedureOperation::SetCurrentSnapshot { .. } => {
            match resolve_target_snapshot_id(procedure, metadata) {
                Err(e) => Err(e),
                Ok(None) => Err(ProcedureError::MissingTarget),
                Ok(Some(snapshot_id)) => {
                    if metadata.snapshot(snapshot_id).is_none() {
                        return Err(ProcedureError::MissingSnapshot { snapshot_id });
                    }
                    Ok(main_update(metadata, snapshot_id))
                },
            }
        },
        TableFormatProcedureOperation::ExpireSnapshots { older_than_ms, retain_last } => Ok(
            expire_snapshot_updates(metadata, now, *older_than_ms, *retain_last),
        ),
    }
}

/// The snapshot that `main` points at.
pub open spec fn main_snapshot(metadata: TableMetadata) -> Option<i64> {
    match value_of(metadata.refs@, MAIN_BRANCH@) {
        Some(reference) => Some(reference.snapshot_id),
        None => None,
    }
}

fn main_snapshot_id(metadata: &TableMetadata) -> (id: Option<i64>)
    ensures
        id == main_snapshot(*metadata),
{
    match metadata.refs.get(MAIN_BRANCH) {
        Some(reference) => Some(reference.snapshot_id),
        None => None,
    }
}

/// The table requirement guarding the commit: the `main` ref must still point at the
/// snapshot that was current when the procedure was resolved.
pub fn procedure_requirements(metadata: &TableMetadata) -> (requirements: Vec<TableRequirement>)
    ensures
        requirements@.len() == 1,
        requirements@[0] matches TableRequirement::RefSnapshotIdMatch { ref_name, snapshot_id }
            && ref_name@ == MAIN_BRANCH@ && snapshot_id == main_snapshot(*metadata),
{
    let mut requirements: Vec<TableRequirement> = Vec::new();
    requirements.push(
        TableRequirement::RefSnapshotIdMatch {
            ref_name: MAIN_BRANCH.to_owned(),
            snapshot_id: main_snapshot_id(metadata),
        },
    );
    requirements
}

/// The fault of a requirement, where it does not hold. With `negative_is_none` an expected
/// negative id stands for no snapshot.
pub open spec fn procedure_fault(
    metadata: TableMetadata,
    requirement: TableRequirement,
    index: int,
    negative_is_none: bool,
) -> Option<ProcedureFault> {
    match requirement {
        TableRequirement::RefSnapshotIdMatch { ref_name, snapshot_id } => {
            let found = referenced_snapshot(
                metadata.current_snapshot_id,
                metadata.refs@,
                ref_name@,
            );
            if found == wanted_snapshot(snapshot_id, negative_is_none) {
                None
            } else {
                Some(
                    ProcedureFault::Conflict { ref_name: ref_name@, expected: snapshot_id, found },
                )
            }
        },
        _ => Some(ProcedureFault::UnsupportedRequirement { index }),
    }
}

/// The snapshot that a requirement wants. With `negative_is_none` a negative id stands for
/// none.
pub open spec fn wanted_snapshot(snapshot_id: Option<i64>, negative_is_none: bool) -> Option<i64> {
    match snapshot_id {
        Some(id) if negative_is_none && id < 0 => None,
        _ => snapshot_id,
    }
}

/// The fault of the first requirement that does not hold.
pub open spec fn first_procedure_fault(
    metadata: TableMetadata,
    requirements: Seq<TableRequirement>,
    negative_is_none: bool,
) -> Option<ProcedureFault>
    decreases requirements.len(),
{
    if requirements.len() == 0 {
        None
    } else {
        match first_procedure_fault(metadata, requirements.drop_last(), negative_is_none) {
            Some(fault) => Some(fault),
            None => procedure_fault(
                metadata,
                requirements.last(),
                requirements.len() - 1,
                negative_is_none,
            ),
        }
    }
}

proof fn lemma_procedure_fault_prefix(
    metadata: TableMetadata,
    requirements: Seq<TableRequirement>,
    negative_is_none: bool,
    n: int,
)
    requires
        0 <= n <= requirements.len(),
    ensures
        first_procedure_fault(metadata, requirements.take(n), negative_is_none) is Some
            ==> first_procedure_fault(metadata, requirements, negative_is_none)
            == first_procedure_fault(metadata, requirements.take(n), negative_is_none),
    decreases requirements.len() - n,
{
    if n < requirements.len() {
        assert(requirements.take(n + 1).drop_last() =~= requirements.take(n));
        lemma_procedure_fault_prefix(metadata, requirements, negative_is_none, n + 1);
    } else {
        assert(requirements.take(n) =~= requirements);
    }
}

pub(crate) fn validate_references(
    table_meta: &TableMetadata,
    requirements: &Vec<TableRequirement>,
    negative_is_none: bool,
) -> (outcome: Result<(), ProcedureError>)
    ensures
        match outcome {
            Ok(_) => first_procedure_fault(*table_meta, requirements@, negative_is_none) is None,
            Err(e) => first_procedure_fault(*table_meta, requirements@, negative_is_none) == Some(
                e@,
            ),
        },
{
    for i in 0..requirements.len()
        invariant
            first_procedure_fault(*table_meta, requirements@.take(i as int), negative_is_none)
                is None,
    {
        proof {
            assert(requirements@.take(i + 1).drop_last() =~= requirements@.take(i as int));
            lemma_procedure_fault_prefix(*table_meta, requirements@, negative_is_none, i + 1);
        }
        match &requirements[i] {
            TableRequirement::RefSnapshotIdMatch { ref_name, snapshot_id } => {
                let found = resolve_reference(table_meta, ref_name.as_str());
                let wanted = match *snapshot_id {
                    Some(id) => {
                        if negative_is_none && id < 0 {
                            None
                        } else {
                            Some(id)
                        }
                    },
                    None => None,
                };
                let same = match (found, wanted) {
                    (Some(a), Some(b)) => a == b,
                    (None, None) => true,
                    _ => false,
                };
                if !same {
                    return Err(
                        ProcedureError::Conflict {
                            ref_name: ref_name.clone(),
                            expected: *snapshot_id,
                            found,
                        },
                    );
                }
            },
            _ => {
                return Err(ProcedureError::UnsupportedRequirement { index: i });
            },
        }
    }
    assert(requirements@.take(requirements@.len() as int) =~= requirements@);
    Ok(())
}

/// Validates the procedure's `RefSnapshotIdMatch` requirement against freshly-loaded metadata
/// on the filesystem commit path. Fails with a conflict-style error so the caller can treat it
/// like a conflict on the catalog commit path.
pub fn validate_procedure_requirements(
    table_meta: &TableMetadata,
    requirements: &Vec<TableRequirement>,
) -> (outcome: Result<(), ProcedureError>)
    ensures
        match outcome {
            Ok(_) => first_procedure_fault(*table_meta, requirements@, false) is None,
            Err(e) => first_procedure_fault(*table_meta, requirements@, false) == Some(e@),
        },
{
    validate_references(table_meta, requirements, false)
}

/// The part of the metadata that procedures change.
#[verifier::ext_equal]
pub struct ProcedureState {
    pub current_snapshot_id: Option<i64>,
    pub refs: Seq<(Seq<char>, SnapshotReference)>,
    pub snapshots: Seq<Snapshot>,
    pub statistics: Seq<StatisticsFile>,
    pub partition_statistics: Seq<PartitionStatisticsFile>,
}

/// The part of the metadata that procedures change.
pub open spec fn procedure_state(metadata: TableMetadata) -> ProcedureState {
    ProcedureState {
        current_snapshot_id: metadata.current_snapshot_id,
        refs: metadata.refs@,
        snapshots: metadata.snapshots@,
        statistics: metadata.statistics@,
        partition_statistics: metadata.partition_statistics@,
    }
}

/// Whether a snapshot is none of those that are removed.
pub open spec fn stays(ids: Seq<i64>) -> spec_fn(Snapshot) -> bool {
    |snapshot: Snapshot| !ids.contains(snapshot.snapshot_id)
}

/// Whether statistics are of none of the snapshots that are removed.
pub open spec fn statistics_stay(ids: Seq<i64>) -> spec_fn(StatisticsFile) -> bool {
    |file: StatisticsFile| !ids.contains(file.snapshot_id)
}

/// Whether statistics are of none of the snapshots that are removed.
pub open spec fn partition_statistics_stay(ids: Seq<i64>) -> spec_fn(PartitionStatisticsFile) -> bool {
    |file: PartitionStatisticsFile| !ids.contains(file.snapshot_id)
}

/// The state after a change. A reference is set, and `main` makes its snapshot the current
/// one; snapshots go, and their statistics where they are kept with them; a reference goes.
pub open spec fn changed(state: ProcedureState, change: ProcedureChange, with_statistics: bool) -> ProcedureState {
    match change {
        ProcedureChange::SetRef { ref_name, reference } => ProcedureState {
            refs: stored(state.refs, ref_name, reference),
            current_snapshot_id: if ref_name == MAIN_BRANCH@ {
                Some(reference.snapshot_id)
            } else {
                state.current_snapshot_id
            },
            ..state
        },
        ProcedureChange::RemoveSnapshots { ids } => ProcedureState {
            snapshots: state.snapshots.filter(stays(ids)),
            statistics: if with_statistics {
                state.statistics.filter(statistics_stay(ids))
            } else {
                state.statistics
            },
            partition_statistics: if with_statistics {
                state.partition_statistics.filter(partition_statistics_stay(ids))
            } else {
                state.partition_statistics
            },
            ..state
        },
        ProcedureChange::RemoveRef { ref_name } => ProcedureState {
            refs: dropped(state.refs, ref_name),
            ..state
        },
        ProcedureChange::Unsupported => state,
    }
}

/// The state after several changes.
pub open spec fn all_changed(
    state: ProcedureState,
    changes: Seq<ProcedureChange>,
    with_statistics: bool,
) -> ProcedureState
    decreases changes.len(),
{
    if changes.len() == 0 {
        state
    } else {
        changed(
            all_changed(state, changes.drop_last(), with_statistics),
            changes.last(),
            with_statistics,
        )
    }
}

/// Whether every change is one that procedures make.
pub open spec fn all_supported(changes: Seq<ProcedureChange>) -> bool {
    forall|i: int| 0 <= i < changes.len() ==> !((#[trigger] changes[i]) is Unsupported)
}

/// What has become of metadata to which updates were applied: all of them, or those before the
/// first one that procedures do not make.
pub open spec fn procedure_applied(
    before: TableMetadata,
    after: TableMetadata,
    updates: Seq<TableUpdate>,
    outcome: Result<(), ProcedureFault>,
    with_statistics: bool,
) -> bool {
    let changes = changes_of(updates);
    &&& match outcome {
        Ok(_) => all_supported(changes) && procedure_state(after) == all_changed(
            procedure_state(before),
            changes,
            with_statistics,
        ),
        Err(fault) => {
            &&& fault matches ProcedureFault::UnsupportedUpdate { index }
            &&& 0 <= index < changes.len()
            &&& changes[index] is Unsupported
            &&& all_supported(changes.take(index))
            &&& procedure_state(after) == all_changed(
                procedure_state(before),
                changes.take(index),
                with_statistics,
            )
        },
    }
    &&& after == (TableMetadata {
        current_snapshot_id: after.current_snapshot_id,
        refs: after.refs,
        snapshots: after.snapshots,
        statistics: after.statistics,
        partition_statistics: after.partition_statistics,
        ..before
    })
}

/// An outcome, with its error by its contents.
pub open spec fn outcome_view(outcome: Result<(), ProcedureError>) -> Result<(), ProcedureFault> {
    match outcome {
        Ok(_) => Ok(()),
        Err(e) => Err(e@),
    }
}

fn id_set(ids: &Vec<i64>) -> (set: HashSet<i64>)
    ensures
        forall|id: i64| #[trigger] set@.contains(id) <==> ids@.contains(id),
{
    broadcast use vstd::std_specs::hash::group_hash_axioms;

    let mut set: HashSet<i64> = HashSet::new();
    for i in 0..ids.len()
        invariant
            forall|id: i64| #[trigger] set@.contains(id) <==> ids@.take(i as int).contains(id),
    {
        let ghost before = set@;
        set.insert(ids[i]);
        assert forall|id: i64| #[trigger] set@.contains(id) <==> ids@.take(i + 1).contains(id) by {
            let longer = ids@.take(i + 1);
            let shorter = ids@.take(i as int);
            if longer.contains(id) {
                let k = choose|k: int| 0 <= k < longer.len() && longer[k] == id;
                if k < i {
                    assert(shorter[k] == id);
                    assert(before.contains(id));
                }
            }
            if before.contains(id) {
                let k = choose|k: int| 0 <= k < shorter.len() && shorter[k] == id;
                assert(longer[k] == id);
            }
            if id == ids@[i as int] {
                assert(longer[i as int] == id);
            }
        }
    }
    assert(ids@.take(ids@.len() as int) =~= ids@);
    set
}

fn remove_snapshots(snapshots: Vec<Snapshot>, ids: &Vec<i64>, set: &HashSet<i64>) -> (left: Vec<
    Snapshot,
>)
    requires
        forall|id: i64| #[trigger] set@.contains(id) <==> ids@.contains(id),
    ensures
        left@ == snapshots@.filter(stays(ids@)),
{
    broadcast use vstd::std_specs::hash::group_hash_axioms;

    let ghost all = snapshots@;
    let mut left: Vec<Snapshot> = Vec::new();
    for snapshot in iter: snapshots
        invariant
            iter.seq() == all,
            forall|id: i64| #[trigger] set@.contains(id) <==> ids@.contains(id),
            left@ == all.take(iter.index()).filter(stays(ids@)),
    {
        let ghost n = iter.index();
        proof {
            reveal(Seq::filter);
            assert(all.take(n + 1).drop_last() =~= all.take(n));
            assert(all.take(n + 1).last() == snapshot);
        }
        if !set.contains(&snapshot.snapshot_id) {
            left.push(snapshot);
        }
    }
    assert(all.take(all.len() as int) =~= all);
    left
}

fn remove_statistics(files: Vec<StatisticsFile>, ids: &Vec<i64>, set: &HashSet<i64>) -> (left: Vec<
    StatisticsFile,
>)
    requires
        forall|id: i64| #[trigger] set@.contains(id) <==> ids@.contains(id),
    ensures
        left@ == files@.filter(statistics_stay(ids@)),
{
    broadcast use vstd::std_specs::hash::group_hash_axioms;

    let ghost all = files@;
    let mut left: Vec<StatisticsFile> = Vec::new();
    for file in iter: files
        invariant
            iter.seq() == all,
            forall|id: i64| #[trigger] set@.contains(id) <==> ids@.contains(id),
            left@ == all.take(iter.index()).filter(statistics_stay(ids@)),
    {
        let ghost n = iter.index();
        proof {
            reveal(Seq::filter);
            assert(all.take(n + 1).drop_last() =~= all.take(n));
            assert(all.take(n + 1).last() == file);
        }
        if !set.contains(&file.snapshot_id) {
            left.push(file);
        }
    }
    assert(all.take(all.len() as int) =~= all);
    left
}

fn remove_partition_statistics(
    files: Vec<PartitionStatisticsFile>,
    ids: &Vec<i64>,
    set: &HashSet<i64>,
) -> (left: Vec<PartitionStatisticsFile>)
    requires
        forall|id: i64| #[trigger] set@.contains(id) <==> ids@.contains(id),
    ensures
        left@ == files@.filter(partition_statistics_stay(ids@)),
{
    broadcast use vstd::std_specs::hash::group_hash_axioms;

    let ghost all = files@;
    let mut left: Vec<PartitionStatisticsFile> = Vec::new();
    for file in iter: files
        invariant
            iter.seq() == all,
            forall|id: i64| #[trigger] set@.contains(id) <==> ids@.contains(id),
            left@ == all.take(iter.index()).filter(partition_statistics_stay(ids@)),
    {
        let ghost n = iter.index();
        proof {
            reveal(Seq::filter);
            assert(all.take(n + 1).drop_last() =~= all.take(n));
            assert(all.take(n + 1).last() == file);
        }
        if !set.contains(&file.snapshot_id) {
            left.push(file);
        }
    }
    assert(all.take(all.len() as int) =~= all);
    left
}

pub(crate) fn apply_changes(
    table_meta: &mut TableMetadata,
    updates: &Vec<TableUpdate>,
    with_statistics: bool,
) -> (outcome: Result<(), ProcedureError>)
    ensures
        procedure_applied(
            *old(table_meta),
            *final(table_meta),
            updates@,
            outcome_view(outcome),
            with_statistics,
        ),
{
    let ghost before = *table_meta;
    let ghost start = procedure_state(before);
    let ghost changes = changes_of(updates@);
    assert(changes.take(0) =~= Seq::<ProcedureChange>::empty());
    for i in 0..updates.len()
        invariant
            before == *old(table_meta),
            start == procedure_state(before),
            changes == changes_of(updates@),
            all_supported(changes.take(i as int)),
            procedure_state(*table_meta) == all_changed(
                start,
                changes.take(i as int),
                with_statistics,
            ),
            *table_meta == (TableMetadata {
                current_snapshot_id: table_meta.current_snapshot_id,
                refs: table_meta.refs,
                snapshots: table_meta.snapshots,
                statistics: table_meta.statistics,
                partition_statistics: table_meta.partition_statistics,
                ..before
            }),
    {
        let ghost so_far = procedure_state(*table_meta);
        proof {
            assert(changes.take(i + 1).drop_last() =~= changes.take(i as int));
            assert(changes.take(i + 1).last() == change_of(updates@[i as int]));
        }
        match &updates[i] {
            TableUpdate::SetSnapshotRef { ref_name, reference } => {
                table_meta.refs.insert(ref_name.clone(), *reference);
                if str_eq(ref_name.as_str(), MAIN_BRANCH) {
                    table_meta.current_snapshot_id = Some(reference.snapshot_id);
                }
            },
            TableUpdate::RemoveSnapshots { snapshot_ids } => {
                let set = id_set(snapshot_ids);
                let mut snapshots: Vec<Snapshot> = Vec::new();
                std::mem::swap(&mut snapshots, &mut table_meta.snapshots);
                table_meta.snapshots = remove_snapshots(snapshots, snapshot_ids, &set);
                if with_statistics {
                    let mut statistics: Vec<StatisticsFile> = Vec::new();
                    std::mem::swap(&mut statistics, &mut table_meta.statistics);
                    table_meta.statistics = remove_statistics(statistics, snapshot_ids, &set);
                    let mut partition_statistics: Vec<PartitionStatisticsFile> = Vec::new();
                    std::mem::swap(
                        &mut partition_statistics,
                        &mut table_meta.partition_statistics,
                    );
                    table_meta.partition_statistics = remove_partition_statistics(
                        partition_statistics,
                        snapshot_ids,
                        &set,
                    );
                }
            },
            TableUpdate::RemoveSnapshotRef { ref_name } => {
                table_meta.refs.remove(ref_name.as_str());
            },
            _ => {
                assert(changes[i as int] is Unsupported);
                return Err(ProcedureError::UnsupportedUpdate { index: i });
            },
        }
        assert(procedure_state(*table_meta) =~= changed(
            so_far,
            change_of(updates@[i as int]),
            with_statistics,
        ));
        assert(all_supported(changes.take(i + 1))) by {
            assert forall|k: int| 0 <= k < changes.take(i + 1).len() implies !((
            #[trigger] changes.take(i + 1)[k]) is Unsupported) by {
                if k < i {
                    assert(changes.take(i as int)[k] == changes.take(i + 1)[k]);
                }
            }
        }
    }
    assert(changes.take(changes.len() as int) =~= changes);
    Ok(())
}

/// Applies the computed `TableUpdate`s directly to `TableMetadata` (filesystem commit). The
/// statistics of removed snapshots go with them.
pub fn apply_procedure_updates(table_meta: &mut TableMetadata, updates: &Vec<TableUpdate>) -> (
    outcome: Result<(), ProcedureError>)
    ensures
        procedure_applied(
            *old(table_meta),
            *final(table_meta),
            updates@,
            outcome_view(outcome),
            true,
        ),
{
    apply_changes(table_meta, updates, true)
}

/// The spec-shaped single-row output of a `CALL <catalog>.system.<procedure>(...)`.
///
/// Mirrors the Apache Iceberg Spark procedures output tables:
/// - `rollback_to_snapshot` / `set_current_snapshot` →
///   `previous_snapshot_id`, `current_snapshot_id`;
/// - `expire_snapshots` → six `deleted_*_count` columns.
#[derive(Debug, Clone, Copy, PartialEq, Eq, Structural)]
pub enum CallProcedureOutput {
    /// `rollback_to_snapshot` / `set_current_snapshot`.
    SnapshotRef { previous_snapshot_id: i64, current_snapshot_id: i64 },
    /// `expire_snapshots` — the number of files physically deleted per kind. All zero when
    /// the physical GC pass was skipped (e.g. `gc.enabled=false`).
    ExpireSnapshots {
        deleted_data_files_count: i64,
        deleted_position_delete_files_count: i64,
        deleted_equality_delete_files_count: i64,
        deleted_manifest_files_count: i64,
        deleted_manifest_lists_count: i64,
        deleted_statistics_files_count: i64,
    },
}

/// The snapshot that is reported as the former one: that of `main`, or else the current one,
/// or else zero.
pub open spec fn previous_snapshot(metadata: TableMetadata) -> i64 {
    match main_snapshot(metadata) {
        Some(id) => id,
        None => match metadata.current_snapshot_id {
            Some(id) => id,
            None => 0,
        },
    }
}

pub(crate) fn previous_snapshot_id(metadata: &TableMetadata) -> (id: i64)
    ensures
        id == previous_snapshot(*metadata),
{
    match main_snapshot_id(metadata) {
        Some(id) => id,
        None => match metadata.current_snapshot_id {
            Some(id) => id,
            None => 0,
        },
    }
}

/// Computes the spec-shaped output row for a procedure against the current metadata.
///
/// `previous_snapshot_id` is the `main` ref's snapshot id before the commit (the same value
/// the `RefSnapshotIdMatch` requirement asserts); `current_snapshot_id` is the procedure's
/// target snapshot. The counts of an expiry are filled in once files were deleted.
pub fn compute_procedure_output(
    procedure: &TableFormatProcedureOperation,
    metadata: &TableMetadata,
) -> (output: Result<CallProcedureOutput, ProcedureError>)
    ensures
        match output {
            Ok(o) => target_snapshot(*procedure, *metadata) matches Ok(target) && o == (
            if procedure is ExpireSnapshots {
                CallProcedureOutput::ExpireSnapshots {
                    deleted_data_files_count: 0,
                    deleted_position_delete_files_count: 0,
                    deleted_equality_delete_files_count: 0,
                    deleted_manifest_files_count: 0,
                    deleted_manifest_lists_count: 0,
                    deleted_statistics_files_count: 0,
                }
            } else {
                CallProcedureOutput::SnapshotRef {
                    previous_snapshot_id: previous_snapshot(*metadata),
                    current_snapshot_id: match target {
                        Some(id) => id,
                        None => 0,
                    },
                }
            }),
            Err(e) => target_snapshot(*procedure, *metadata) == Err::<Option<i64>, _>(e@),
        },
{
    match procedure {
        TableFormatProcedureOperation::ExpireSnapshots { .. } => Ok(
            CallProcedureOutput::ExpireSnapshots {
                deleted_data_files_count: 0,
                deleted_position_delete_files_count: 0,
                deleted_equality_delete_files_count: 0,
                deleted_manifest_files_count: 0,
                deleted_manifest_lists_count: 0,
                deleted_statistics_files_count: 0,
            },
        ),
        _ => match resolve_target_snapshot_id(procedure, metadata) {
            Err(e) => Err(e),
            Ok(target) => Ok(
                CallProcedureOutput::SnapshotRef {
                    previous_snapshot_id: previous_snapshot_id(metadata),
                    current_snapshot_id: match target {
                        Some(id) => id,
                        None => 0,
                    },
                },
            ),
        },
    }
}

/// The texts of column names.
pub open spec fn snapshot_ref_columns() -> Seq<Seq<char>> {
    seq!["previous_snapshot_id"@, "current_snapshot_id"@]
}

/// The texts of column names.
pub open spec fn expire_columns() -> Seq<Seq<char>> {
    seq![
        "deleted_data_files_count"@,
        "deleted_position_delete_files_count"@,
        "deleted_equality_delete_files_count"@,
        "deleted_manifest_files_count"@,
        "deleted_manifest_lists_count"@,
        "deleted_statistics_files_count"@,
    ]
}

/// The names of the columns that a change of `main` reports.
pub(crate) fn snapshot_ref_names() -> (names: Vec<String>)
    ensures
        crate::iceberg::contents::texts(names@) == snapshot_ref_columns(),
{
    let mut names: Vec<String> = Vec::new();
    names.push("previous_snapshot_id".to_owned());
    names.push("current_snapshot_id".to_owned());
    assert(crate::iceberg::contents::texts(names@) =~= snapshot_ref_columns());
    names
}

/// The names of the columns that an expiry reports.
pub(crate) fn expire_names() -> (names: Vec<String>)
    ensures
        crate::iceberg::contents::texts(names@) == expire_columns(),
{
    let mut names: Vec<String> = Vec::new();
    names.push("deleted_data_files_count".to_owned());
    names.push("deleted_position_delete_files_count".to_owned());
    names.push("deleted_equality_delete_files_count".to_owned());
    names.push("deleted_manifest_files_count".to_owned());
    names.push("deleted_manifest_lists_count".to_owned());
    names.push("deleted_statistics_files_count".to_owned());
    assert(crate::iceberg::contents::texts(names@) =~= expire_columns());
    names
}

impl CallProcedureOutput {
    /// The names of the columns of this output, all of 64-bit integers that may be null.
    pub fn schema(&self) -> (names: Vec<String>)
        ensures
            crate::iceberg::contents::texts(names@) == (match *self {
                CallProcedureOutput::SnapshotRef { .. } => snapshot_ref_columns(),
                CallProcedureOutput::ExpireSnapshots { .. } => expire_columns(),
            }),
    {
        match self {
            CallProcedureOutput::SnapshotRef { .. } => snapshot_ref_names(),
            CallProcedureOutput::ExpireSnapshots { .. } => expire_names(),
        }
    }

    /// The single row of this output.
    pub fn row(&self) -> (row: Vec<i64>)
        ensures
            row@ == (match *self {
                CallProcedureOutput::SnapshotRef { previous_snapshot_id, current_snapshot_id } => {
                    seq![previous_snapshot_id, current_snapshot_id]
                },
                CallProcedureOutput::ExpireSnapshots {
                    deleted_data_files_count,
                    deleted_position_delete_files_count,
                    deleted_equality_delete_files_count,
                    deleted_manifest_files_count,
                    deleted_manifest_lists_count,
                    deleted_statistics_files_count,
                } => seq![
                    deleted_data_files_count,
                    deleted_position_delete_files_count,
                    deleted_equality_delete_files_count,
                    deleted_manifest_files_count,
                    deleted_manifest_lists_count,
                    deleted_statistics_files_count,
                ],
            }),
    {
        match self {
            CallProcedureOutput::SnapshotRef { previous_snapshot_id, current_snapshot_id } => vec![
                *previous_snapshot_id,
                *current_snapshot_id,
            ],
            CallProcedureOutput::ExpireSnapshots {
                deleted_data_files_count,
                deleted_position_delete_files_count,
                deleted_equality_delete_files_count,
                deleted_manifest_files_count,
                deleted_manifest_lists_count,
                deleted_statistics_files_count,
            } => vec![
                *deleted_data_files_count,
                *deleted_position_delete_files_count,
                *deleted_equality_delete_files_count,
                *deleted_manifest_files_count,
                *deleted_manifest_lists_count,
                *deleted_statistics_files_count,
            ],
        }
    }
}

/// Procedures change snapshots, references and statistics and nothing else of a table. One that
/// succeeds has made only updates that procedures make; one that fails names the first other one.
pub proof fn law_procedures_leave_the_rest(
    before: TableMetadata,
    after: TableMetadata,
    updates: Seq<TableUpdate>,
    outcome: Result<(), ProcedureFault>,
    with_statistics: bool,
)
    requires
        procedure_applied(before, after, updates, outcome, with_statistics),
    ensures
        after.table_uuid == before.table_uuid,
        after.schemas == before.schemas && after.current_schema_id == before.current_schema_id,
        after.partition_specs == before.partition_specs && after.default_spec_id
            == before.default_spec_id,
        after.last_sequence_number == before.last_sequence_number,
        after.properties == before.properties,
        after.snapshot_log == before.snapshot_log && after.metadata_log == before.metadata_log,
        outcome is Ok ==> all_supported(changes_of(updates)),
        outcome matches Err(fault) ==> (fault matches ProcedureFault::UnsupportedUpdate { index }
            && 0 <= index < updates.len() && changes_of(updates)[index] is Unsupported
            && all_supported(changes_of(updates).take(index))),
{
}

} // verus!
