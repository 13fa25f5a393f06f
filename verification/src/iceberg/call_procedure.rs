//! Carrying out `CALL <catalog>.system.<procedure>(...)`.

use vstd::prelude::*;
use vstd::string::*;

use crate::iceberg::commit::machine::{CatalogAnswer, IcebergCatalogCommitMode};
use crate::iceberg::commit::meta::LakehouseContext;
use crate::iceberg::procedure;
use crate::iceberg::procedure::{
    apply_changes, expire_names, previous_snapshot_id, snapshot_ref_names, validate_references,
    ProcedureError, TableFormatProcedureOperation,
};
use crate::iceberg::table::{TableMetadata, TableRequirement, TableUpdate, MAIN_BRANCH};

verus! {

use crate::iceberg::contents::texts;
use crate::iceberg::procedure::{
    changes_of, expire_columns, expiry_fits, first_procedure_fault, main_snapshot, outcome_view,
    previous_snapshot, procedure_applied, procedure_changes, snapshot_ref_columns, target_snapshot,
    ProcedureChange, ProcedureFault,
};

/// A procedure with its arguments, the first of which is the table.
#[derive(Debug)]
pub enum CallProcedure {
    RollbackToSnapshot { table: String, snapshot_id: i64 },
    /// The target is a snapshot or a reference.
    SetCurrentSnapshot { table: String, target_id: Option<i64>, ref_name: Option<String> },
    ExpireSnapshots { table: String, older_than_ms: Option<i64>, retain_last: Option<i32> },
}

impl CallProcedure {
    /// The procedure without its table.
    pub open spec fn spec_operation(self) -> TableFormatProcedureOperation {
        match self {
            CallProcedure::RollbackToSnapshot { snapshot_id, .. } => {
                TableFormatProcedureOperation::RollbackToSnapshot { snapshot_id }
            },
            CallProcedure::SetCurrentSnapshot { target_id, ref_name, .. } => {
                TableFormatProcedureOperation::SetCurrentSnapshot { target_id, ref_name }
            },
            CallProcedure::ExpireSnapshots { older_than_ms, retain_last, .. } => {
                TableFormatProcedureOperation::ExpireSnapshots { older_than_ms, retain_last }
            },
        }
    }

    /// The procedure without its table.
    pub fn operation(&self) -> (operation: TableFormatProcedureOperation)
        ensures
            operation == self.spec_operation(),
    {
        match self {
            CallProcedure::RollbackToSnapshot { snapshot_id, .. } => {
                TableFormatProcedureOperation::RollbackToSnapshot { snapshot_id: *snapshot_id }
            },
            CallProcedure::SetCurrentSnapshot { target_id, ref_name, .. } => {
                let ref_name = match ref_name {
                    Some(name) => Some(name.clone()),
                    None => None,
                };
                TableFormatProcedureOperation::SetCurrentSnapshot { target_id: *target_id, ref_name }
            },
            CallProcedure::ExpireSnapshots { older_than_ms, retain_last, .. } => {
                TableFormatProcedureOperation::ExpireSnapshots {
                    older_than_ms: *older_than_ms,
                    retain_last: *retain_last,
                }
            },
        }
    }
}

/// Computes the `TableUpdate`s for a procedure against the current table metadata.
pub fn compute_procedure_updates(procedure: &CallProcedure, metadata: &TableMetadata, now: i64) -> (
    updates: Result<Vec<TableUpdate>, ProcedureError>)
    requires
        procedure is ExpireSnapshots ==> expiry_fits(*metadata, now),
    ensures
        match updates {
            Ok(list) => procedure_changes(procedure.spec_operation(), *metadata, now) == Ok::<
                _,
                ProcedureFault,
            >(changes_of(list@)),
            Err(e) => procedure_changes(procedure.spec_operation(), *metadata, now) == Err::<
                Seq<ProcedureChange>,
                _,
            >(e@),
        },
{
    procedure::compute_procedure_updates(&procedure.operation(), metadata, now)
}

/// Resolves the target snapshot id for `rollback_to_snapshot` / `set_current_snapshot`.
pub fn resolve_target_snapshot_id(procedure: &CallProcedure, metadata: &TableMetadata) -> (target:
    Result<Option<i64>, ProcedureError>)
    ensures
        match target {
            Ok(id) => target_snapshot(procedure.spec_operation(), *metadata) == Ok::<
                _,
                ProcedureFault,
            >(id),
            Err(e) => target_snapshot(procedure.spec_operation(), *metadata) == Err::<
                Option<i64>,
                _,
            >(e@),
        },
{
    procedure::resolve_target_snapshot_id(&procedure.operation(), metadata)
}

/// The table requirement guarding the commit: the `main` ref must still point at the
/// snapshot that was current when the procedure was resolved.
pub fn procedure_requirements(metadata: &TableMetadata) -> (requirements: Vec<TableRequirement>)
    ensures
        requirements@.len() == 1,
        requirements@[0] matches TableRequirement::RefSnapshotIdMatch { ref_name, snapshot_id }
            && ref_name@ == MAIN_BRANCH@ && snapshot_id == main_snapshot(*metadata),
{
    procedure::procedure_requirements(metadata)
}

/// Validates the procedure's `RefSnapshotIdMatch` requirement against freshly-loaded metadata
/// on the filesystem commit path.
///
/// `main` is resolved via `current_snapshot_id`; a `None`/negative expected id means "must not
/// exist". Fails with a conflict-style error so the caller can treat it like a conflict on the
/// catalog commit path.
pub fn validate_procedure_requirements(
    table_meta: &TableMetadata,
    requirements: &Vec<TableRequirement>,
) -> (outcome: Result<(), ProcedureError>)
    ensures
        match outcome {
            Ok(_) => first_procedure_fault(*table_meta, requirements@, true) is None,
            Err(e) => first_procedure_fault(*table_meta, requirements@, true) == Some(e@),
        },
{
    validate_references(table_meta, requirements, true)
}

/// Applies the computed `TableUpdate`s directly to `TableMetadata` (filesystem commit).
pub fn apply_procedure_updates(table_meta: &mut TableMetadata, updates: &Vec<TableUpdate>) -> (
    outcome: Result<(), ProcedureError>)
    ensures
        procedure_applied(
            *old(table_meta),
            *final(table_meta),
            updates@,
            outcome_view(outcome),
            false,
        ),
{
    apply_changes(table_meta, updates, false)
}

/// The spec-shaped single-row output of a `CALL <catalog>.system.<procedure>(...)`.
///
/// Mirrors the Apache Iceberg Spark procedures output tables:
/// - `rollback_to_snapshot` / `set_current_snapshot` →
///   `previous_snapshot_id`, `current_snapshot_id`;
/// - `expire_snapshots` → six `deleted_*_count` columns (all `0`, as only metadata changes).
#[derive(Debug, Clone, Copy, PartialEq, Eq, Structural)]
pub enum CallProcedureOutput {
    /// `rollback_to_snapshot` / `set_current_snapshot`.
    SnapshotRef { previous_snapshot_id: i64, current_snapshot_id: i64 },
    /// `expire_snapshots` — metadata-only, so all counts are zero.
    ExpireSnapshots,
}

impl CallProcedureOutput {
    /// The names of the columns of this output, all of 64-bit integers that may be null.
    pub fn schema(&self) -> (names: Vec<String>)
        ensures
            texts(names@) == (match *self {
                CallProcedureOutput::SnapshotRef { .. } => snapshot_ref_columns(),
                CallProcedureOutput::ExpireSnapshots => expire_columns(),
            }),
    {
        match self {
            CallProcedureOutput::SnapshotRef { .. } => snapshot_ref_names(),
            CallProcedureOutput::ExpireSnapshots => expire_names(),
        }
    }

    /// The single row of this output.
    pub fn row(&self) -> (row: Vec<i64>)
        ensures
            row@ == (match *self {
                CallProcedureOutput::SnapshotRef { previous_snapshot_id, current_snapshot_id } => {
                    seq![previous_snapshot_id, current_snapshot_id]
                },
                CallProcedureOutput::ExpireSnapshots => seq![0i64, 0i64, 0i64, 0i64, 0i64, 0i64],
            }),
    {
        match self {
            CallProcedureOutput::SnapshotRef { previous_snapshot_id, current_snapshot_id } => vec![
                *previous_snapshot_id,
                *current_snapshot_id,
            ],
            CallProcedureOutput::ExpireSnapshots => vec![0, 0, 0, 0, 0, 0],
        }
    }
}

/// Computes the spec-shaped output row for a procedure against the current metadata.
///
/// `previous_snapshot_id` is the `main` ref's snapshot id before the commit (the same value
/// the `RefSnapshotIdMatch` requirement asserts); `current_snapshot_id` is the procedure's
/// target snapshot.
pub fn compute_procedure_output(procedure: &CallProcedure, metadata: &TableMetadata) -> (output:
    Result<CallProcedureOutput, ProcedureError>)
    ensures
        match output {
            Ok(o) => target_snapshot(procedure.spec_operation(), *metadata) matches Ok(target) && o
                == (if procedure is ExpireSnapshots {
                CallProcedureOutput::ExpireSnapshots
            } else {
                CallProcedureOutput::SnapshotRef {
                    previous_snapshot_id: previous_snapshot(*metadata),
                    current_snapshot_id: match target {
                        Some(id) => id,
                        None => 0,
                    },
                }
            }),
            Err(e) => target_snapshot(procedure.spec_operation(), *metadata) == Err::<
                Option<i64>,
                _,
            >(e@),
        },
{
    match procedure {
        CallProcedure::ExpireSnapshots { .. } => Ok(CallProcedureOutput::ExpireSnapshots),
        _ => match resolve_target_snapshot_id(procedure, metadata) {
            Err(e) => Err(e),
            Ok(target) => Ok(
                CallProcedureOutput::SnapshotRef {
                    previous_snapshot_id: previous_snapshot_id(metadata),
                    current_snapshot_id: match target {
                        Some(id) => id,
                        None => 0,
                    },
                },
            ),
        },
    }
}

/// A procedure on a table, with what it does to the table and what it reports.
#[derive(Debug)]
pub struct CallProcedureExec {
    procedure: CallProcedure,
    table_url: String,
    lakehouse_table: Option<LakehouseContext>,
    updates: Vec<TableUpdate>,
    requirements: Vec<TableRequirement>,
    output: CallProcedureOutput,
    /// Whether the metadata from before the commit is needed after it, for the files of
    /// expired snapshots.
    keeps_metadata: bool,
}

/// The metadata before and after a procedure is committed: as it was where a requirement does not
/// hold, and with the updates of the procedure otherwise.
pub open spec fn procedure_committed(
    before: TableMetadata,
    after: TableMetadata,
    requirements: Seq<TableRequirement>,
    updates: Seq<TableUpdate>,
    outcome: Result<(), ProcedureFault>,
) -> bool {
    let fault = first_procedure_fault(before, requirements, true);
    if fault is Some {
        after == before && outcome == Err::<(), ProcedureFault>(fault->0)
    } else {
        procedure_applied(before, after, updates, outcome, false)
    }
}

impl CallProcedureExec {
    pub closed spec fn spec_procedure(self) -> CallProcedure {
        self.procedure
    }

    pub closed spec fn spec_table_url(self) -> String {
        self.table_url
    }

    pub closed spec fn spec_lakehouse_table(self) -> Option<LakehouseContext> {
        self.lakehouse_table
    }

    pub closed spec fn spec_updates(self) -> Seq<TableUpdate> {
        self.updates@
    }

    pub closed spec fn spec_requirements(self) -> Seq<TableRequirement> {
        self.requirements@
    }

    pub closed spec fn spec_output(self) -> CallProcedureOutput {
        self.output
    }

    pub closed spec fn spec_keeps_metadata(self) -> bool {
        self.keeps_metadata
    }

    pub fn new(
        procedure: CallProcedure,
        table_url: String,
        lakehouse_table: Option<LakehouseContext>,
        updates: Vec<TableUpdate>,
        requirements: Vec<TableRequirement>,
        output: CallProcedureOutput,
    ) -> (exec: CallProcedureExec)
        ensures
            exec.spec_procedure() == procedure,
            exec.spec_table_url() == table_url,
            exec.spec_lakehouse_table() == lakehouse_table,
            exec.spec_updates() == updates@,
            exec.spec_requirements() == requirements@,
            exec.spec_output() == output,
            exec.spec_keeps_metadata() == (procedure is ExpireSnapshots),
    {
        let keeps_metadata = matches!(procedure, CallProcedure::ExpireSnapshots { .. });
        CallProcedureExec {
            procedure,
            table_url,
            lakehouse_table,
            updates,
            requirements,
            output,
            keeps_metadata,
        }
    }

    /// Plans a procedure on a table with the given metadata: computes the updates (validating
    /// arguments such as snapshot existence), the requirement and the output row.
    pub fn plan(
        procedure: CallProcedure,
        table_url: String,
        lakehouse_table: Option<LakehouseContext>,
        metadata: &TableMetadata,
        now: i64,
    ) -> (plan: Result<CallProcedureExec, ProcedureError>)
        requires
            procedure is ExpireSnapshots ==> expiry_fits(*metadata, now),
        ensures
            match plan {
                Ok(exec) => {
                    &&& procedure_changes(procedure.spec_operation(), *metadata, now) == Ok::<
                        _,
                        ProcedureFault,
                    >(changes_of(exec.spec_updates()))
                    &&& exec.spec_requirements().len() == 1
                    &&& exec.spec_requirements()[0] matches TableRequirement::RefSnapshotIdMatch {
                        ref_name,
                        snapshot_id,
                    } && ref_name@ == MAIN_BRANCH@ && snapshot_id == main_snapshot(*metadata)
                    &&& (target_snapshot(procedure.spec_operation(), *metadata) matches Ok(target)
                        && exec.spec_output() == (if procedure is ExpireSnapshots {
                        CallProcedureOutput::ExpireSnapshots
                    } else {
                        CallProcedureOutput::SnapshotRef {
                            previous_snapshot_id: previous_snapshot(*metadata),
                            current_snapshot_id: match target {
                                Some(id) => id,
                                None => 0,
                            },
                        }
                    }))
                    &&& exec.spec_procedure() == procedure
                    &&& exec.spec_table_url() == table_url
                    &&& exec.spec_lakehouse_table() == lakehouse_table
                    &&& exec.spec_keeps_metadata() == (procedure is ExpireSnapshots)
                },
                Err(e) => procedure_changes(procedure.spec_operation(), *metadata, now) == Err::<
                    Seq<ProcedureChange>,
                    _,
                >(e@),
            },
    {
        let updates = match compute_procedure_updates(&procedure, metadata, now) {
            Ok(updates) => updates,
            Err(e) => {
                return Err(e);
            },
        };
        let requirements = procedure_requirements(metadata);
        let output = match compute_procedure_output(&procedure, metadata) {
            Ok(output) => output,
            Err(e) => {
                return Err(e);
            },
        };
        Ok(
            CallProcedureExec::new(
                procedure,
                table_url,
                lakehouse_table,
                updates,
                requirements,
                output,
            ),
        )
    }

    pub fn procedure(&self) -> (procedure: &CallProcedure)
        ensures
            *procedure == self.spec_procedure(),
    {
        &self.procedure
    }

    pub fn table_url(&self) -> (url: &String)
        ensures
            *url == self.spec_table_url(),
    {
        &self.table_url
    }

    pub fn lakehouse_table(&self) -> (table: Option<&LakehouseContext>)
        ensures
            match table {
                Some(t) => self.spec_lakehouse_table() == Some(*t),
                None => self.spec_lakehouse_table() is None,
            },
    {
        match &self.lakehouse_table {
            Some(table) => Some(table),
            None => None,
        }
    }

    pub fn updates(&self) -> (updates: &Vec<TableUpdate>)
        ensures
            updates@ == self.spec_updates(),
    {
        &self.updates
    }

    pub fn requirements(&self) -> (requirements: &Vec<TableRequirement>)
        ensures
            requirements@ == self.spec_requirements(),
    {
        &self.requirements
    }

    pub fn output(&self) -> (output: &CallProcedureOutput)
        ensures
            *output == self.spec_output(),
    {
        &self.output
    }

    /// Whether the metadata from before the commit is needed after it.
    pub fn keeps_metadata(&self) -> (keeps: bool)
        ensures
            keeps == self.spec_keeps_metadata(),
    {
        self.keeps_metadata
    }

    /// Who commits the procedure, given who decides which metadata is current.
    pub fn route(&self, mode: IcebergCatalogCommitMode) -> (route: CallRoute)
        ensures
            route == call_route(mode, self.spec_lakehouse_table() is Some),
    {
        match mode {
            IcebergCatalogCommitMode::Filesystem => CallRoute::Files,
            IcebergCatalogCommitMode::CatalogCommit
            | IcebergCatalogCommitMode::CompatibilityCatalogCommit => {
                if self.lakehouse_table.is_some() {
                    CallRoute::Catalog
                } else {
                    CallRoute::Refused { failure: CallFailure::MissingContext }
                }
            },
            IcebergCatalogCommitMode::MetadataLocationCas => CallRoute::Refused {
                failure: CallFailure::LocationUpdate,
            },
        }
    }

    /// Commits the procedure to freshly-loaded metadata: the requirements are validated before
    /// the updates are applied.
    pub fn commit_to(&self, table_meta: &mut TableMetadata) -> (outcome: Result<
        (),
        ProcedureError,
    >)
        ensures
            match first_procedure_fault(*old(table_meta), self.spec_requirements(), true) {
                Some(fault) => outcome_view(outcome) == Err::<(), _>(fault) && *final(table_meta)
                    == *old(table_meta),
                None => procedure_applied(
                    *old(table_meta),
                    *final(table_meta),
                    self.spec_updates(),
                    outcome_view(outcome),
                    false,
                ),
            },
            procedure_committed(
                *old(table_meta),
                *final(table_meta),
                self.spec_requirements(),
                self.spec_updates(),
                outcome_view(outcome),
            ),
    {
        match validate_procedure_requirements(table_meta, &self.requirements) {
            Err(e) => Err(e),
            Ok(_) => apply_procedure_updates(table_meta, &self.updates),
        }
    }
}

/// Who commits a procedure.
#[derive(Debug, Clone, Copy, PartialEq, Eq, Structural)]
pub enum CallRoute {
    /// The files in the metadata directory, in as many attempts as it takes.
    Files,
    /// The catalog.
    Catalog,
    Refused { failure: CallFailure },
}

/// Why a procedure is not committed.
#[derive(Debug, Clone, Copy, PartialEq, Eq, Structural)]
pub enum CallFailure {
    MissingContext,
    LocationUpdate,
    NotSupported,
    Conflict,
}

impl CallFailure {
    pub open spec fn spec_message(self) -> Seq<char> {
        match self {
            CallFailure::MissingContext => {
                "missing lakehouse context for Iceberg catalog commit"@
            },
            CallFailure::LocationUpdate => {
                "CALL procedures do not support metadata-location CAS commit yet"@
            },
            CallFailure::NotSupported => {
                "Iceberg catalog commit is not supported by the resolved catalog authority"@
            },
            CallFailure::Conflict => "Iceberg catalog commit conflict while executing CALL"@,
        }
    }

    pub fn message(&self) -> (text: String)
        ensures
            text@ == self.spec_message(),
    {
        match self {
            CallFailure::MissingContext => {
                "missing lakehouse context for Iceberg catalog commit".to_owned()
            },
            CallFailure::LocationUpdate => {
                "CALL procedures do not support metadata-location CAS commit yet".to_owned()
            },
            CallFailure::NotSupported => {
                "Iceberg catalog commit is not supported by the resolved catalog authority".to_owned()
            },
            CallFailure::Conflict => {
                "Iceberg catalog commit conflict while executing CALL".to_owned()
            },
        }
    }
}

/// Who commits a procedure. A catalog that takes the location of metadata does not.
pub open spec fn call_route(mode: IcebergCatalogCommitMode, has_context: bool) -> CallRoute {
    match mode {
        IcebergCatalogCommitMode::Filesystem => CallRoute::Files,
        IcebergCatalogCommitMode::CatalogCommit
        | IcebergCatalogCommitMode::CompatibilityCatalogCommit => if has_context {
            CallRoute::Catalog
        } else {
            CallRoute::Refused { failure: CallFailure::MissingContext }
        },
        IcebergCatalogCommitMode::MetadataLocationCas => CallRoute::Refused {
            failure: CallFailure::LocationUpdate,
        },
    }
}

/// What comes of a procedure that a catalog was asked to commit.
pub fn call_outcome(answer: CatalogAnswer) -> (outcome: Result<(), CallFailure>)
    ensures
        outcome == (match answer {
            CatalogAnswer::Committed => Ok::<(), CallFailure>(()),
            CatalogAnswer::NotSupported => Err(CallFailure::NotSupported),
            CatalogAnswer::Conflict => Err(CallFailure::Conflict),
        }),
{
    match answer {
        CatalogAnswer::Committed => Ok(()),
        CatalogAnswer::NotSupported => Err(CallFailure::NotSupported),
        CatalogAnswer::Conflict => Err(CallFailure::Conflict),
    }
}

/// A procedure is committed where the metadata of the table is decided on: to the files, or to a
/// catalog that commits and that the table is known in. A catalog that takes locations is
/// refused.
pub proof fn law_calls_go_where_metadata_is_decided(
    mode: IcebergCatalogCommitMode,
    has_context: bool,
)
    ensures
        call_route(mode, has_context) is Files <==> mode == IcebergCatalogCommitMode::Filesystem,
        call_route(mode, has_context) is Catalog <==> has_context && (mode
            == IcebergCatalogCommitMode::CatalogCommit || mode
            == IcebergCatalogCommitMode::CompatibilityCatalogCommit),
        mode == IcebergCatalogCommitMode::MetadataLocationCas ==> call_route(
            mode,
            has_context,
        ) is Refused,
        call_route(mode, has_context) matches CallRoute::Refused { failure } ==> failure == (if mode
            == IcebergCatalogCommitMode::MetadataLocationCas {
            CallFailure::LocationUpdate
        } else {
            CallFailure::MissingContext
        }),
{
}

/// A procedure of a table is the procedure itself, with the same arguments.
pub proof fn law_calls_keep_their_arguments(procedure: CallProcedure)
    ensures
        match (procedure, procedure.spec_operation()) {
            (
                CallProcedure::RollbackToSnapshot { snapshot_id, .. },
                TableFormatProcedureOperation::RollbackToSnapshot { snapshot_id: id },
            ) => id == snapshot_id,
            (
                CallProcedure::SetCurrentSnapshot { target_id, ref_name, .. },
                TableFormatProcedureOperation::SetCurrentSnapshot { target_id: id, ref_name: name },
            ) => id == target_id && name == ref_name,
            (
                CallProcedure::ExpireSnapshots { older_than_ms, retain_last, .. },
                TableFormatProcedureOperation::ExpireSnapshots {
                    older_than_ms: moment,
                    retain_last: count,
                },
            ) => moment == older_than_ms && count == retain_last,
            _ => false,
        },
{
}

/// A call succeeds exactly where the catalog has committed it, and otherwise fails with what the
/// catalog has answered.
pub proof fn law_calls_end_as_answered(answer: CatalogAnswer, outcome: Result<(), CallFailure>)
    requires
        call_ensures(call_outcome, (answer,), outcome),
    ensures
        outcome is Ok <==> answer == CatalogAnswer::Committed,
        answer == CatalogAnswer::Conflict ==> outcome == Err::<(), _>(CallFailure::Conflict),
        answer == CatalogAnswer::NotSupported ==> outcome == Err::<(), _>(
            CallFailure::NotSupported,
        ),
{
}

/// A procedure whose requirements do not hold fails with what is wrong with the first of them and
/// changes nothing; one whose requirements hold makes its updates.
pub proof fn law_required_procedures_are_committed(
    before: TableMetadata,
    after: TableMetadata,
    requirements: Seq<TableRequirement>,
    updates: Seq<TableUpdate>,
    outcome: Result<(), ProcedureFault>,
)
    requires
        procedure_committed(before, after, requirements, updates, outcome),
    ensures
        first_procedure_fault(before, requirements, true) matches Some(fault) ==> outcome == Err::<
            (),
            _,
        >(fault) && after == before,
        first_procedure_fault(before, requirements, true) is None ==> procedure_applied(
            before,
            after,
            updates,
            outcome,
            false,
        ),
{
}

} // verus!
