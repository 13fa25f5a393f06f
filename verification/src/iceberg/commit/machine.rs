//! The course of a commit: what to do next, given what has come of the last thing done.

use vstd::prelude::*;

use crate::iceberg::table::Operation;

verus! {

/// How often a commit is tried before it gives up.
pub const MAX_COMMIT_RETRIES: u32 = 5;

/// Who decides which metadata is current.
#[derive(Debug, Clone, Copy, PartialEq, Eq, Structural)]
pub enum IcebergCatalogCommitMode {
    /// The files in the metadata directory.
    Filesystem,
    /// A catalog that commits itself.
    CatalogCommit,
    /// A catalog that commits itself where it can, and that otherwise takes the location of
    /// the metadata.
    CompatibilityCatalogCommit,
    /// A catalog that takes the location of the metadata.
    MetadataLocationCas,
}

impl IcebergCatalogCommitMode {
    pub open spec fn spec_uses_catalog_metadata(self) -> bool {
        self != IcebergCatalogCommitMode::Filesystem
    }

    pub open spec fn spec_uses_catalog_commit(self) -> bool {
        self == IcebergCatalogCommitMode::CatalogCommit || self
            == IcebergCatalogCommitMode::CompatibilityCatalogCommit
    }

    pub open spec fn spec_uses_metadata_location_update(self) -> bool {
        self == IcebergCatalogCommitMode::MetadataLocationCas
    }

    /// Whether the catalog says which metadata is current.
    pub fn uses_catalog_metadata(self) -> (uses: bool)
        ensures
            uses == self.spec_uses_catalog_metadata(),
    {
        !matches!(self, IcebergCatalogCommitMode::Filesystem)
    }

    /// Whether the catalog commits.
    pub fn uses_catalog_commit(self) -> (uses: bool)
        ensures
            uses == self.spec_uses_catalog_commit(),
    {
        matches!(
            self,
            IcebergCatalogCommitMode::CatalogCommit
                | IcebergCatalogCommitMode::CompatibilityCatalogCommit
        )
    }

    /// Whether the catalog is told the location of new metadata.
    pub fn uses_metadata_location_update(self) -> (uses: bool)
        ensures
            uses == self.spec_uses_metadata_location_update(),
    {
        matches!(self, IcebergCatalogCommitMode::MetadataLocationCas)
    }
}

/// The location of the metadata as the catalog knows it: what the table properties say, or
/// else what the catalog says.
pub fn recorded_location(property: Option<String>, catalog: Option<String>) -> (location: Option<
    String,
>)
    ensures
        location == (match property {
            Some(l) => Some(l),
            None => catalog,
        }),
{
    match property {
        Some(location) => Some(location),
        None => catalog,
    }
}

/// The location of the metadata that a commit starts from, where the catalog says which
/// metadata is current.
pub fn authoritative_location(
    mode: IcebergCatalogCommitMode,
    recorded: &Option<String>,
) -> (location: Option<String>)
    ensures
        location == (if mode.spec_uses_catalog_metadata() {
            *recorded
        } else {
            None
        }),
{
    if mode.uses_catalog_metadata() {
        match recorded {
            Some(location) => Some(location.clone()),
            None => None,
        }
    } else {
        None
    }
}

/// What does not change in the course of a commit.
#[derive(Debug, Clone, Copy, PartialEq, Eq, Structural)]
pub struct CommitContext {
    pub mode: IcebergCatalogCommitMode,
    /// Whether the table is known to a catalog.
    pub in_catalog: bool,
    pub operation: Operation,
    /// The rows to report once the commit has gone through.
    pub reported_count: u64,
}

impl CommitContext {
    /// Whether the catalog is asked where the current metadata is.
    pub open spec fn asks_catalog(self) -> bool {
        self.in_catalog && self.mode.spec_uses_catalog_metadata()
    }

    /// Whether the catalog is asked to commit.
    pub open spec fn commits_to_catalog(self) -> bool {
        self.in_catalog && self.mode.spec_uses_catalog_commit()
    }

    /// Whether the catalog is told the location of new metadata.
    pub open spec fn updates_catalog(self) -> bool {
        self.in_catalog && self.mode.spec_uses_metadata_location_update()
    }

    /// Whether the table is merely listed in the catalog.
    pub open spec fn listed_in_catalog(self) -> bool {
        self.in_catalog && self.mode == IcebergCatalogCommitMode::Filesystem
    }

    /// Whether the operation can write the first snapshot of a table.
    pub open spec fn can_bootstrap(self) -> bool {
        self.operation == Operation::Overwrite || self.operation == Operation::Append
    }

    fn ask_catalog(self) -> (asks: bool)
        ensures
            asks == self.asks_catalog(),
    {
        self.in_catalog && self.mode.uses_catalog_metadata()
    }

    fn commit_to_catalog(self) -> (commits: bool)
        ensures
            commits == self.commits_to_catalog(),
    {
        self.in_catalog && self.mode.uses_catalog_commit()
    }

    fn update_catalog(self) -> (updates: bool)
        ensures
            updates == self.updates_catalog(),
    {
        self.in_catalog && self.mode.uses_metadata_location_update()
    }

    fn is_listed(self) -> (listed: bool)
        ensures
            listed == self.listed_in_catalog(),
    {
        self.in_catalog && matches!(self.mode, IcebergCatalogCommitMode::Filesystem)
    }

    fn may_bootstrap(self) -> (may: bool)
        ensures
            may == self.can_bootstrap(),
    {
        matches!(self.operation, Operation::Overwrite | Operation::Append)
    }
}

/// How the files of a new table are named.
#[derive(Debug, Clone, Copy, PartialEq, Eq, Structural)]
pub enum NewTableMetadataStyle {
    /// By version and identifier.
    Uuid,
    /// By version alone.
    Hadoop,
}

/// How the file of the first snapshot is named.
#[derive(Debug, Clone, Copy, PartialEq, Eq, Structural)]
pub enum PersistStrategy {
    NewVersion,
    NewUuidVersion,
}

/// Where the metadata of an attempt is loaded from.
#[derive(Debug, Clone, Copy, PartialEq, Eq, Structural)]
pub enum MetadataSource {
    /// The file that was found before the first attempt.
    Found,
    /// The location that the catalog gives when asked again, or the latest file where it
    /// gives none.
    AskCatalog,
    /// The location that the catalog gave before the first attempt, or the latest file where
    /// it gave none.
    Rescan,
}

/// The former location of the metadata that the catalog is told.
#[derive(Debug, Clone, Copy, PartialEq, Eq, Structural)]
pub enum PreviousLocation {
    Absent,
    /// The one that the catalog has on record.
    Recorded,
    /// The one that the attempt started from.
    Current,
}

/// What to do next.
#[derive(Debug, Clone, Copy, PartialEq, Eq, Structural)]
pub enum CommitAction {
    /// Check the requirements against a table that is not there.
    CheckRequirements,
    /// Create the table with its first snapshot.
    BootstrapTable { style: NewTableMetadataStyle },
    /// Load the metadata, check the requirements, and bring the new schema and partition
    /// spec into it.
    LoadMetadata { source: MetadataSource },
    /// Write the first snapshot of a table that has metadata but no snapshot. The former
    /// metadata file is logged where the catalog is told of the new one.
    BootstrapSnapshot { strategy: PersistStrategy, log_previous: bool },
    /// Write the manifests of the first snapshot, for the catalog to commit.
    ProduceFirstSnapshot,
    /// Check what the snapshot that was produced requires of the table, as
    /// `IcebergCommitExec::check_action` does.
    CheckProduced,
    /// Ask the catalog to commit the first snapshot.
    CommitFirstSnapshot,
    /// Look for files of the next version that were written in the meantime.
    CheckNextVersion,
    /// Write the manifests of the new snapshot.
    ProduceSnapshot,
    /// Ask the catalog to commit the new snapshot.
    CommitSnapshot,
    /// Write the file of the next version, unless it is there already.
    WriteMetadata { with_identifier: bool },
    /// Look for other files of the version that was written.
    VerifyVersion,
    /// Delete the file that was written.
    DeleteWritten,
    /// Write the version hint.
    WriteHint { with_identifier: bool },
    /// Tell the catalog the location of the new metadata.
    UpdateCatalog { previous: PreviousLocation },
    /// The commit has gone through: report the rows.
    Report { count: u64 },
    /// The commit has failed.
    Fail { failure: CommitFailure },
}

/// Why a commit fails.
#[derive(Debug, Clone, Copy, PartialEq, Eq, Structural)]
pub enum CommitFailure {
    /// What was done last has failed, with an error of its own.
    Step,
    /// There is no metadata, and the catalog does not let it be created.
    MissingMetadata,
    /// The table has no current snapshot.
    NoCurrentSnapshot,
    /// The catalog does not commit.
    NotSupported,
    /// Others kept committing at the same time.
    Conflict,
}

impl CommitFailure {
    pub open spec fn spec_message(self) -> Seq<char> {
        match self {
            CommitFailure::Step => ""@,
            CommitFailure::MissingMetadata => {
                "missing Iceberg metadata for catalog-authoritative table"@
            },
            CommitFailure::NoCurrentSnapshot => "No current snapshot in table metadata"@,
            CommitFailure::NotSupported => {
                "Iceberg catalog commit is not supported by the resolved catalog authority"@
            },
            CommitFailure::Conflict => {
                "Iceberg commit failed after 5 retries due to concurrent metadata updates"@
            },
        }
    }

    /// The message of the failure. The failure of a step has a message of its own.
    pub fn message(&self) -> (text: String)
        ensures
            text@ == self.spec_message(),
    {
        match self {
            CommitFailure::Step => "".to_owned(),
            CommitFailure::MissingMetadata => {
                "missing Iceberg metadata for catalog-authoritative table".to_owned()
            },
            CommitFailure::NoCurrentSnapshot => "No current snapshot in table metadata".to_owned(),
            CommitFailure::NotSupported => {
                "Iceberg catalog commit is not supported by the resolved catalog authority".to_owned()
            },
            CommitFailure::Conflict => {
                "Iceberg commit failed after 5 retries due to concurrent metadata updates".to_owned()
            },
        }
    }
}

/// What a catalog answers when asked to commit.
#[derive(Debug, Clone, Copy, PartialEq, Eq, Structural)]
pub enum CatalogAnswer {
    Committed,
    NotSupported,
    Conflict,
}

/// What has come of the last thing done.
#[derive(Debug, Clone, Copy, PartialEq, Eq, Structural)]
pub enum CommitEvent {
    /// It failed.
    Failed,
    /// It was done, and there is nothing to say of it.
    Done,
    /// Metadata was looked for, and was found or not.
    Located { found: bool },
    /// Metadata was loaded; the table has a current snapshot or not, and the location of
    /// the metadata is known from the catalog or not.
    Loaded { has_snapshot: bool, located_by_catalog: bool },
    /// The catalog has answered.
    Answered { answer: CatalogAnswer },
    /// Other writers were looked for, and were found or not. A file that is there already is
    /// one of another writer.
    Checked { conflict: bool },
}

/// How far an attempt is.
#[derive(Debug, Clone, Copy, PartialEq, Eq, Structural)]
pub enum CommitPhase {
    Locating,
    CheckingRequirements,
    BootstrappingTable,
    Loading,
    ProducingFirst { located_by_catalog: bool },
    CheckingFirst { located_by_catalog: bool },
    CommittingFirst { located_by_catalog: bool },
    BootstrappingSnapshot { fallback: bool, located_by_catalog: bool },
    CheckingNext,
    Producing,
    CheckingProduced,
    CommittingSnapshot,
    WritingMetadata,
    Verifying,
    Deleting,
    WritingHint,
    UpdatingCatalog,
    Ended,
}

/// How far a commit is.
#[derive(Debug, Clone, Copy, PartialEq, Eq, Structural)]
pub struct CommitState {
    pub attempt: u32,
    pub phase: CommitPhase,
}

/// A commit that has failed.
pub open spec fn failed(state: CommitState, failure: CommitFailure) -> (CommitState, CommitAction) {
    (CommitState { phase: CommitPhase::Ended, ..state }, CommitAction::Fail { failure })
}

/// A commit that has gone through.
pub open spec fn reported(context: CommitContext, state: CommitState) -> (
    CommitState,
    CommitAction,
) {
    (
        CommitState { phase: CommitPhase::Ended, ..state },
        CommitAction::Report { count: context.reported_count },
    )
}

/// A commit in its next phase.
pub open spec fn entered(state: CommitState, phase: CommitPhase, action: CommitAction) -> (
    CommitState,
    CommitAction,
) {
    (CommitState { phase, ..state }, action)
}

/// A commit that met other writers: it is tried again, unless it was tried often enough.
pub open spec fn retried(context: CommitContext, state: CommitState) -> (
    CommitState,
    CommitAction,
) {
    if state.attempt >= MAX_COMMIT_RETRIES {
        failed(state, CommitFailure::Conflict)
    } else {
        (
            CommitState { attempt: (state.attempt + 1) as u32, phase: CommitPhase::Loading },
            CommitAction::LoadMetadata {
                source: if context.asks_catalog() {
                    MetadataSource::AskCatalog
                } else {
                    MetadataSource::Rescan
                },
            },
        )
    }
}

/// A commit that tells the catalog of new metadata.
pub open spec fn telling_catalog(state: CommitState, previous: PreviousLocation) -> (
    CommitState,
    CommitAction,
) {
    entered(state, CommitPhase::UpdatingCatalog, CommitAction::UpdateCatalog { previous })
}

/// A commit that writes the first snapshot itself. The catalog is told of it where it takes
/// locations, or where it could not commit the snapshot.
pub open spec fn bootstrapping(state: CommitState, fallback: bool, located_by_catalog: bool) -> (
    CommitState,
    CommitAction,
) {
    entered(
        state,
        CommitPhase::BootstrappingSnapshot { fallback, located_by_catalog },
        CommitAction::BootstrapSnapshot {
            strategy: if fallback {
                PersistStrategy::NewUuidVersion
            } else {
                PersistStrategy::NewVersion
            },
            log_previous: fallback && located_by_catalog,
        },
    )
}

/// A commit that writes the file of the next version.
pub open spec fn writing(context: CommitContext, state: CommitState) -> (
    CommitState,
    CommitAction,
) {
    entered(
        state,
        CommitPhase::WritingMetadata,
        CommitAction::WriteMetadata { with_identifier: context.updates_catalog() },
    )
}

/// What a commit does next, given how far it is and what has come of the last thing done.
/// An event that does not belong to the phase ends the commit.
pub open spec fn commit_step(context: CommitContext, state: CommitState, event: CommitEvent) -> (
    CommitState,
    CommitAction,
) {
    match (state.phase, event) {
        (CommitPhase::Locating, CommitEvent::Located { found }) => if found {
            entered(
                state,
                CommitPhase::Loading,
                CommitAction::LoadMetadata { source: MetadataSource::Found },
            )
        } else if !context.can_bootstrap() {
            failed(state, CommitFailure::Step)
        } else {
            entered(state, CommitPhase::CheckingRequirements, CommitAction::CheckRequirements)
        },
        (CommitPhase::CheckingRequirements, CommitEvent::Done) => if context.updates_catalog() {
            entered(
                state,
                CommitPhase::BootstrappingTable,
                CommitAction::BootstrapTable { style: NewTableMetadataStyle::Uuid },
            )
        } else if context.mode.spec_uses_catalog_commit() {
            failed(state, CommitFailure::MissingMetadata)
        } else {
            entered(
                state,
                CommitPhase::BootstrappingTable,
                CommitAction::BootstrapTable { style: NewTableMetadataStyle::Hadoop },
            )
        },
        (CommitPhase::BootstrappingTable, CommitEvent::Done) => if context.updates_catalog() {
            telling_catalog(state, PreviousLocation::Absent)
        } else if context.listed_in_catalog() {
            telling_catalog(state, PreviousLocation::Recorded)
        } else {
            reported(context, state)
        },
        (CommitPhase::Loading, CommitEvent::Loaded { has_snapshot, located_by_catalog }) => {
            if has_snapshot {
                entered(state, CommitPhase::CheckingNext, CommitAction::CheckNextVersion)
            } else if !context.can_bootstrap() {
                failed(state, CommitFailure::NoCurrentSnapshot)
            } else if context.commits_to_catalog() {
                entered(
                    state,
                    CommitPhase::ProducingFirst { located_by_catalog },
                    CommitAction::ProduceFirstSnapshot,
                )
            } else {
                bootstrapping(state, context.updates_catalog(), located_by_catalog)
            }
        },
        (CommitPhase::ProducingFirst { located_by_catalog }, CommitEvent::Done) => entered(
            state,
            CommitPhase::CheckingFirst { located_by_catalog },
            CommitAction::CheckProduced,
        ),
        (CommitPhase::CheckingFirst { located_by_catalog }, CommitEvent::Done) => entered(
            state,
            CommitPhase::CommittingFirst { located_by_catalog },
            CommitAction::CommitFirstSnapshot,
        ),
        (
            CommitPhase::CommittingFirst { located_by_catalog },
            CommitEvent::Answered { answer },
        ) => match answer {
            CatalogAnswer::Committed => reported(context, state),
            CatalogAnswer::NotSupported => if context.mode
                == IcebergCatalogCommitMode::CompatibilityCatalogCommit {
                bootstrapping(state, true, located_by_catalog)
            } else {
                failed(state, CommitFailure::NotSupported)
            },
            CatalogAnswer::Conflict => retried(context, state),
        },
        (
            CommitPhase::BootstrappingSnapshot { fallback, located_by_catalog },
            CommitEvent::Done,
        ) => if fallback && located_by_catalog {
            telling_catalog(state, PreviousLocation::Current)
        } else if context.listed_in_catalog() {
            telling_catalog(state, PreviousLocation::Recorded)
        } else {
            reported(context, state)
        },
        (CommitPhase::CheckingNext, CommitEvent::Checked { conflict }) => if conflict {
            retried(context, state)
        } else {
            entered(state, CommitPhase::Producing, CommitAction::ProduceSnapshot)
        },
        (CommitPhase::Producing, CommitEvent::Done) => entered(
            state,
            CommitPhase::CheckingProduced,
            CommitAction::CheckProduced,
        ),
        (CommitPhase::CheckingProduced, CommitEvent::Done) => if context.commits_to_catalog() {
            entered(state, CommitPhase::CommittingSnapshot, CommitAction::CommitSnapshot)
        } else {
            writing(context, state)
        },
        (CommitPhase::CommittingSnapshot, CommitEvent::Answered { answer }) => match answer {
            CatalogAnswer::Committed => reported(context, state),
            CatalogAnswer::NotSupported => if context.mode
                == IcebergCatalogCommitMode::CompatibilityCatalogCommit {
                writing(context, state)
            } else {
                failed(state, CommitFailure::NotSupported)
            },
            CatalogAnswer::Conflict => retried(context, state),
        },
        (CommitPhase::WritingMetadata, CommitEvent::Checked { conflict }) => if conflict {
            retried(context, state)
        } else {
            entered(state, CommitPhase::Verifying, CommitAction::VerifyVersion)
        },
        (CommitPhase::Verifying, CommitEvent::Checked { conflict }) => if conflict {
            entered(state, CommitPhase::Deleting, CommitAction::DeleteWritten)
        } else {
            entered(
                state,
                CommitPhase::WritingHint,
                CommitAction::WriteHint { with_identifier: context.updates_catalog() },
            )
        },
        // A file that could not be deleted is left behind.
        (CommitPhase::Deleting, CommitEvent::Done) => retried(context, state),
        (CommitPhase::Deleting, CommitEvent::Failed) => retried(context, state),
        (CommitPhase::WritingHint, CommitEvent::Done) => if context.updates_catalog() {
            telling_catalog(state, PreviousLocation::Current)
        } else if context.listed_in_catalog() {
            telling_catalog(state, PreviousLocation::Recorded)
        } else {
            reported(context, state)
        },
        (CommitPhase::UpdatingCatalog, CommitEvent::Done) => reported(context, state),
        _ => failed(state, CommitFailure::Step),
    }
}

/// How a commit begins: with the first attempt, once metadata has been looked for.
pub fn start_commit() -> (state: CommitState)
    ensures
        state == (CommitState { attempt: 1, phase: CommitPhase::Locating }),
{
    CommitState { attempt: 1, phase: CommitPhase::Locating }
}

fn fail(state: CommitState, failure: CommitFailure) -> (next: (CommitState, CommitAction))
    ensures
        next == failed(state, failure),
{
    (
        CommitState { attempt: state.attempt, phase: CommitPhase::Ended },
        CommitAction::Fail { failure },
    )
}

fn report(context: CommitContext, state: CommitState) -> (next: (CommitState, CommitAction))
    ensures
        next == reported(context, state),
{
    (
        CommitState { attempt: state.attempt, phase: CommitPhase::Ended },
        CommitAction::Report { count: context.reported_count },
    )
}

fn enter(state: CommitState, phase: CommitPhase, action: CommitAction) -> (next: (
    CommitState,
    CommitAction,
))
    ensures
        next == entered(state, phase, action),
{
    (CommitState { attempt: state.attempt, phase }, action)
}

fn retry(context: CommitContext, state: CommitState) -> (next: (CommitState, CommitAction))
    ensures
        next == retried(context, state),
{
    if state.attempt >= MAX_COMMIT_RETRIES {
        fail(state, CommitFailure::Conflict)
    } else {
        let source = if context.ask_catalog() {
            MetadataSource::AskCatalog
        } else {
            MetadataSource::Rescan
        };
        (
            CommitState { attempt: state.attempt + 1, phase: CommitPhase::Loading },
            CommitAction::LoadMetadata { source },
        )
    }
}

fn tell_catalog(state: CommitState, previous: PreviousLocation) -> (next: (
    CommitState,
    CommitAction,
))
    ensures
        next == telling_catalog(state, previous),
{
    enter(state, CommitPhase::UpdatingCatalog, CommitAction::UpdateCatalog { previous })
}

fn bootstrap(state: CommitState, fallback: bool, located_by_catalog: bool) -> (next: (
    CommitState,
    CommitAction,
))
    ensures
        next == bootstrapping(state, fallback, located_by_catalog),
{
    enter(
        state,
        CommitPhase::BootstrappingSnapshot { fallback, located_by_catalog },
        CommitAction::BootstrapSnapshot {
            strategy: if fallback {
                PersistStrategy::NewUuidVersion
            } else {
                PersistStrategy::NewVersion
            },
            log_previous: fallback && located_by_catalog,
        },
    )
}

fn write(context: CommitContext, state: CommitState) -> (next: (CommitState, CommitAction))
    ensures
        next == writing(context, state),
{
    enter(
        state,
        CommitPhase::WritingMetadata,
        CommitAction::WriteMetadata { with_identifier: context.update_catalog() },
    )
}

fn tell_or_report(context: CommitContext, state: CommitState, previous: PreviousLocation) -> (next:
    (CommitState, CommitAction))
    ensures
        next == (if context.updates_catalog() {
            telling_catalog(state, previous)
        } else if context.listed_in_catalog() {
            telling_catalog(state, PreviousLocation::Recorded)
        } else {
            reported(context, state)
        }),
{
    if context.update_catalog() {
        tell_catalog(state, previous)
    } else if context.is_listed() {
        tell_catalog(state, PreviousLocation::Recorded)
    } else {
        report(context, state)
    }
}

/// What a commit does next, given how far it is and what has come of the last thing done.
pub fn next_commit_step(context: CommitContext, state: CommitState, event: CommitEvent) -> (next: (
    CommitState,
    CommitAction,
))
    ensures
        next == commit_step(context, state, event),
{
    match (state.phase, event) {
        (CommitPhase::Locating, CommitEvent::Located { found }) => if found {
            enter(
                state,
                CommitPhase::Loading,
                CommitAction::LoadMetadata { source: MetadataSource::Found },
            )
        } else if !context.may_bootstrap() {
            fail(state, CommitFailure::Step)
        } else {
            enter(state, CommitPhase::CheckingRequirements, CommitAction::CheckRequirements)
        },
        (CommitPhase::CheckingRequirements, CommitEvent::Done) => if context.update_catalog() {
            enter(
                state,
                CommitPhase::BootstrappingTable,
                CommitAction::BootstrapTable { style: NewTableMetadataStyle::Uuid },
            )
        } else if context.mode.uses_catalog_commit() {
            fail(state, CommitFailure::MissingMetadata)
        } else {
            enter(
                state,
                CommitPhase::BootstrappingTable,
                CommitAction::BootstrapTable { style: NewTableMetadataStyle::Hadoop },
            )
        },
        (CommitPhase::BootstrappingTable, CommitEvent::Done) => tell_or_report(
            context,
            state,
            PreviousLocation::Absent,
        ),
        (CommitPhase::Loading, CommitEvent::Loaded { has_snapshot, located_by_catalog }) => {
            if has_snapshot {
                enter(state, CommitPhase::CheckingNext, CommitAction::CheckNextVersion)
            } else if !context.may_bootstrap() {
                fail(state, CommitFailure::NoCurrentSnapshot)
            } else if context.commit_to_catalog() {
                enter(
                    state,
                    CommitPhase::ProducingFirst { located_by_catalog },
                    CommitAction::ProduceFirstSnapshot,
                )
            } else {
                bootstrap(state, context.update_catalog(), located_by_catalog)
            }
        },
        (CommitPhase::ProducingFirst { located_by_catalog }, CommitEvent::Done) => enter(
            state,
            CommitPhase::CheckingFirst { located_by_catalog },
            CommitAction::CheckProduced,
        ),
        (CommitPhase::CheckingFirst { located_by_catalog }, CommitEvent::Done) => enter(
            state,
            CommitPhase::CommittingFirst { located_by_catalog },
            CommitAction::CommitFirstSnapshot,
        ),
        (
            CommitPhase::CommittingFirst { located_by_catalog },
            CommitEvent::Answered { answer },
        ) => match answer {
            CatalogAnswer::Committed => report(context, state),
            CatalogAnswer::NotSupported => if matches!(
                context.mode,
                IcebergCatalogCommitMode::CompatibilityCatalogCommit
            ) {
                bootstrap(state, true, located_by_catalog)
            } else {
                fail(state, CommitFailure::NotSupported)
            },
            CatalogAnswer::Conflict => retry(context, state),
        },
        (
            CommitPhase::BootstrappingSnapshot { fallback, located_by_catalog },
            CommitEvent::Done,
        ) => if fallback && located_by_catalog {
            tell_catalog(state, PreviousLocation::Current)
        } else if context.is_listed() {
            tell_catalog(state, PreviousLocation::Recorded)
        } else {
            report(context, state)
        },
        (CommitPhase::CheckingNext, CommitEvent::Checked { conflict }) => if conflict {
            retry(context, state)
        } else {
            enter(state, CommitPhase::Producing, CommitAction::ProduceSnapshot)
        },
        (CommitPhase::Producing, CommitEvent::Done) => enter(
            state,
            CommitPhase::CheckingProduced,
            CommitAction::CheckProduced,
        ),
        (CommitPhase::CheckingProduced, CommitEvent::Done) => if context.commit_to_catalog() {
            enter(state, CommitPhase::CommittingSnapshot, CommitAction::CommitSnapshot)
        } else {
            write(context, state)
        },
        (CommitPhase::CommittingSnapshot, CommitEvent::Answered { answer }) => match answer {
            CatalogAnswer::Committed => report(context, state),
            CatalogAnswer::NotSupported => if matches!(
                context.mode,
                IcebergCatalogCommitMode::CompatibilityCatalogCommit
            ) {
                write(context, state)
            } else {
                fail(state, CommitFailure::NotSupported)
            },
            CatalogAnswer::Conflict => retry(context, state),
        },
        (CommitPhase::WritingMetadata, CommitEvent::Checked { conflict }) => if conflict {
            retry(context, state)
        } else {
            enter(state, CommitPhase::Verifying, CommitAction::VerifyVersion)
        },
        (CommitPhase::Verifying, CommitEvent::Checked { conflict }) => if conflict {
            enter(state, CommitPhase::Deleting, CommitAction::DeleteWritten)
        } else {
            enter(
                state,
                CommitPhase::WritingHint,
                CommitAction::WriteHint { with_identifier: context.update_catalog() },
            )
        },
        (CommitPhase::Deleting, CommitEvent::Done) => retry(context, state),
        (CommitPhase::Deleting, CommitEvent::Failed) => retry(context, state),
        (CommitPhase::WritingHint, CommitEvent::Done) => tell_or_report(
            context,
            state,
            PreviousLocation::Current,
        ),
        (CommitPhase::UpdatingCatalog, CommitEvent::Done) => report(context, state),
        _ => fail(state, CommitFailure::Step),
    }
}

/// How far a phase is from the end of its attempt.
pub open spec fn phase_rank(phase: CommitPhase) -> nat {
    match phase {
        CommitPhase::Locating => 14,
        CommitPhase::CheckingRequirements => 13,
        CommitPhase::BootstrappingTable => 12,
        CommitPhase::Loading => 11,
        CommitPhase::ProducingFirst { .. } => 10,
        CommitPhase::CheckingFirst { .. } => 9,
        CommitPhase::CommittingFirst { .. } => 8,
        CommitPhase::BootstrappingSnapshot { .. } => 7,
        CommitPhase::CheckingNext => 9,
        CommitPhase::Producing => 8,
        CommitPhase::CheckingProduced => 7,
        CommitPhase::CommittingSnapshot => 6,
        CommitPhase::WritingMetadata => 5,
        CommitPhase::Verifying => 4,
        CommitPhase::Deleting => 3,
        CommitPhase::WritingHint => 2,
        CommitPhase::UpdatingCatalog => 1,
        CommitPhase::Ended => 0,
    }
}

/// A bound on how many steps are left of a commit.
pub open spec fn steps_left(state: CommitState) -> int {
    12 * (MAX_COMMIT_RETRIES - state.attempt) + phase_rank(state.phase)
}

/// Every commit ends: whatever comes of what it does, each step brings it closer to its end,
/// and it is never tried more often than it may be.
pub proof fn law_commits_end(context: CommitContext, state: CommitState, event: CommitEvent)
    requires
        1 <= state.attempt <= MAX_COMMIT_RETRIES,
        state.phase != CommitPhase::Ended,
    ensures
        ({
            let next = commit_step(context, state, event).0;
            &&& state.attempt <= next.attempt <= MAX_COMMIT_RETRIES
            &&& 0 <= steps_left(next) < steps_left(state)
            &&& next.phase == CommitPhase::Ended <==> (commit_step(context, state, event).1 is Report
                || commit_step(context, state, event).1 is Fail)
        }),
{
}

/// A commit is reported only once it has gone through: the catalog has committed it, or a
/// new table, a first snapshot or the version hint has been written and the catalog, where
/// it is to be told, has been told.
pub proof fn law_reported_commits_went_through(
    context: CommitContext,
    state: CommitState,
    event: CommitEvent,
)
    requires
        commit_step(context, state, event).1 is Report,
    ensures
        commit_step(context, state, event).1 == (CommitAction::Report {
            count: context.reported_count,
        }),
        event == (CommitEvent::Answered { answer: CatalogAnswer::Committed }) || event
            == CommitEvent::Done,
        event == CommitEvent::Done ==> match state.phase {
            CommitPhase::UpdatingCatalog => true,
            CommitPhase::WritingHint
            | CommitPhase::BootstrappingTable => !context.updates_catalog()
                && !context.listed_in_catalog(),
            CommitPhase::BootstrappingSnapshot { fallback, located_by_catalog } => !(fallback
                && located_by_catalog) && !context.listed_in_catalog(),
            _ => false,
        },
        event != CommitEvent::Done ==> state.phase is CommittingFirst || state.phase
            == CommitPhase::CommittingSnapshot,
{
}

/// A commit is tried again only after it met other writers, and never after its metadata was
/// written and found to be the only one of its version.
pub proof fn law_only_conflicts_are_retried(
    context: CommitContext,
    state: CommitState,
    event: CommitEvent,
)
    requires
        commit_step(context, state, event).0.attempt != state.attempt,
    ensures
        commit_step(context, state, event).0.attempt == state.attempt + 1,
        event == (CommitEvent::Answered { answer: CatalogAnswer::Conflict }) || event == (
        CommitEvent::Checked { conflict: true }) || state.phase == CommitPhase::Deleting,
        state.phase != CommitPhase::Verifying,
        state.phase != CommitPhase::WritingHint,
        state.phase != CommitPhase::UpdatingCatalog,
{
}

/// A commit that met other writers in its last attempt fails and says so; in an earlier
/// attempt it loads the metadata anew.
pub proof fn law_conflicts_fail_in_the_last_attempt(
    context: CommitContext,
    state: CommitState,
    event: CommitEvent,
)
    requires
        (event == (CommitEvent::Checked { conflict: true }) && (state.phase
            == CommitPhase::CheckingNext || state.phase == CommitPhase::WritingMetadata)) || (event
            == (CommitEvent::Answered { answer: CatalogAnswer::Conflict }) && (
        state.phase is CommittingFirst || state.phase == CommitPhase::CommittingSnapshot)),
    ensures
        state.attempt >= MAX_COMMIT_RETRIES ==> commit_step(context, state, event).1 == (
        CommitAction::Fail { failure: CommitFailure::Conflict }),
        state.attempt < MAX_COMMIT_RETRIES ==> commit_step(
            context,
            state,
            event,
        ).1 is LoadMetadata,
{
}

/// A file of metadata that turned out not to be the only one of its version is deleted
/// before anything else is done.
pub proof fn law_conflicting_files_are_deleted(context: CommitContext, state: CommitState)
    requires
        state.phase == CommitPhase::Verifying,
    ensures
        commit_step(context, state, CommitEvent::Checked { conflict: true }).1
            == CommitAction::DeleteWritten,
{
}

/// A table is created only after its requirements were checked, and a catalog that does not let
/// it be created is named only after that: a requirement that does not hold fails first.
pub proof fn law_requirements_come_first(
    context: CommitContext,
    state: CommitState,
    event: CommitEvent,
)
    ensures
        commit_step(context, state, event).1 is BootstrapTable || commit_step(
            context,
            state,
            event,
        ).1 == (CommitAction::Fail { failure: CommitFailure::MissingMetadata }) ==> state.phase
            == CommitPhase::CheckingRequirements && event == CommitEvent::Done,
        state.phase == CommitPhase::CheckingRequirements && event == CommitEvent::Failed
            ==> commit_step(context, state, event).1 == (CommitAction::Fail {
            failure: CommitFailure::Step,
        }),
{
}

/// Nothing is committed or written of a snapshot whose requirements were not checked, and one
/// whose requirements do not hold fails the commit.
pub proof fn law_produced_snapshots_are_checked(
    context: CommitContext,
    state: CommitState,
    event: CommitEvent,
)
    ensures
        commit_step(context, state, event).1 is CommitSnapshot ==> state.phase
            == CommitPhase::CheckingProduced && event == CommitEvent::Done,
        commit_step(context, state, event).1 is CommitFirstSnapshot ==> state.phase is CheckingFirst
            && event == CommitEvent::Done,
        commit_step(context, state, event).1 is WriteMetadata ==> (state.phase
            == CommitPhase::CheckingProduced && event == CommitEvent::Done) || (state.phase
            == CommitPhase::CommittingSnapshot && event == (CommitEvent::Answered {
            answer: CatalogAnswer::NotSupported,
        })),
        event == CommitEvent::Failed && (state.phase == CommitPhase::CheckingProduced
            || state.phase is CheckingFirst) ==> commit_step(context, state, event).1 == (
        CommitAction::Fail { failure: CommitFailure::Step }),
{
}

/// What comes of an action that succeeds and meets no other writer.
pub open spec fn smooth_event(action: CommitAction, loaded: CommitEvent) -> CommitEvent {
    match action {
        CommitAction::LoadMetadata { .. } => loaded,
        CommitAction::CheckNextVersion
        | CommitAction::WriteMetadata { .. }
        | CommitAction::VerifyVersion => CommitEvent::Checked { conflict: false },
        CommitAction::CommitFirstSnapshot | CommitAction::CommitSnapshot => CommitEvent::Answered {
            answer: CatalogAnswer::Committed,
        },
        _ => CommitEvent::Done,
    }
}

/// The actions of a commit from the given one on, where everything succeeds and no other writer
/// is met. At most so many are followed.
pub open spec fn smooth_course(
    context: CommitContext,
    step: (CommitState, CommitAction),
    loaded: CommitEvent,
    count: nat,
) -> Seq<CommitAction>
    decreases count,
{
    if count == 0 || step.1 is Report || step.1 is Fail {
        seq![step.1]
    } else {
        seq![step.1] + smooth_course(
            context,
            commit_step(context, step.0, smooth_event(step.1, loaded)),
            loaded,
            (count - 1) as nat,
        )
    }
}

/// The actions of a commit once metadata was looked for, where everything succeeds and no other
/// writer is met.
pub open spec fn undisturbed(context: CommitContext, found: bool, loaded: CommitEvent) -> Seq<
    CommitAction,
> {
    smooth_course(
        context,
        commit_step(
            context,
            CommitState { attempt: 1, phase: CommitPhase::Locating },
            CommitEvent::Located { found },
        ),
        loaded,
        12,
    )
}

/// A commit to a table that has a snapshot, which nothing disturbs, goes through, step by step.
/// Where a catalog commits, it alone is asked. Otherwise the next version is written, found to be
/// the only one and hinted at, and the catalog is told where it takes locations or lists the
/// table.
pub proof fn law_undisturbed_commits_go_through(context: CommitContext, located_by_catalog: bool)
    ensures
        ({
            let loaded = CommitEvent::Loaded { has_snapshot: true, located_by_catalog };
            let report = CommitAction::Report { count: context.reported_count };
            let catalog_commits = context.in_catalog && (context.mode
                == IcebergCatalogCommitMode::CatalogCommit || context.mode
                == IcebergCatalogCommitMode::CompatibilityCatalogCommit);
            let takes_location = context.in_catalog && context.mode
                == IcebergCatalogCommitMode::MetadataLocationCas;
            let lists = context.in_catalog && context.mode == IcebergCatalogCommitMode::Filesystem;
            let produced = seq![
                CommitAction::LoadMetadata { source: MetadataSource::Found },
                CommitAction::CheckNextVersion,
                CommitAction::ProduceSnapshot,
                CommitAction::CheckProduced,
            ];
            let written = seq![
                CommitAction::WriteMetadata { with_identifier: takes_location },
                CommitAction::VerifyVersion,
                CommitAction::WriteHint { with_identifier: takes_location },
            ];
            undisturbed(context, true, loaded) =~= (if catalog_commits {
                produced + seq![CommitAction::CommitSnapshot, report]
            } else if takes_location {
                produced + written + seq![
                    CommitAction::UpdateCatalog { previous: PreviousLocation::Current },
                    report,
                ]
            } else if lists {
                produced + written + seq![
                    CommitAction::UpdateCatalog { previous: PreviousLocation::Recorded },
                    report,
                ]
            } else {
                produced + written + seq![report]
            })
        }),
{
    reveal_with_fuel(smooth_course, 13);
}

/// The first write to a table that has metadata but no snapshot yet, which nothing disturbs, goes
/// through, step by step, whichever of appending and overwriting it does; no other operation can
/// make a first snapshot.
pub proof fn law_first_snapshots_are_written(context: CommitContext, located_by_catalog: bool)
    ensures
        ({
            let loaded = CommitEvent::Loaded { has_snapshot: false, located_by_catalog };
            let report = CommitAction::Report { count: context.reported_count };
            let catalog_commits = context.in_catalog && (context.mode
                == IcebergCatalogCommitMode::CatalogCommit || context.mode
                == IcebergCatalogCommitMode::CompatibilityCatalogCommit);
            let takes_location = context.in_catalog && context.mode
                == IcebergCatalogCommitMode::MetadataLocationCas;
            let lists = context.in_catalog && context.mode == IcebergCatalogCommitMode::Filesystem;
            let load = CommitAction::LoadMetadata { source: MetadataSource::Found };
            let named_by_version = CommitAction::BootstrapSnapshot {
                strategy: PersistStrategy::NewVersion,
                log_previous: false,
            };
            undisturbed(context, true, loaded) =~= (if context.operation != Operation::Append
                && context.operation != Operation::Overwrite {
                seq![load, CommitAction::Fail { failure: CommitFailure::NoCurrentSnapshot }]
            } else if catalog_commits {
                seq![
                    load,
                    CommitAction::ProduceFirstSnapshot,
                    CommitAction::CheckProduced,
                    CommitAction::CommitFirstSnapshot,
                    report,
                ]
            } else if takes_location && located_by_catalog {
                seq![
                    load,
                    CommitAction::BootstrapSnapshot {
                        strategy: PersistStrategy::NewUuidVersion,
                        log_previous: true,
                    },
                    CommitAction::UpdateCatalog { previous: PreviousLocation::Current },
                    report,
                ]
            } else if takes_location {
                seq![
                    load,
                    CommitAction::BootstrapSnapshot {
                        strategy: PersistStrategy::NewUuidVersion,
                        log_previous: false,
                    },
                    report,
                ]
            } else if lists {
                seq![
                    load,
                    named_by_version,
                    CommitAction::UpdateCatalog { previous: PreviousLocation::Recorded },
                    report,
                ]
            } else {
                seq![load, named_by_version, report]
            })
        }),
{
    reveal_with_fuel(smooth_course, 13);
}

/// The first write to a table that has no metadata, which nothing disturbs, creates the table,
/// step by step, unless a catalog that commits itself is to have it; only an append and an
/// overwrite create tables.
pub proof fn law_new_tables_are_created(context: CommitContext, loaded: CommitEvent)
    ensures
        ({
            let report = CommitAction::Report { count: context.reported_count };
            let takes_location = context.in_catalog && context.mode
                == IcebergCatalogCommitMode::MetadataLocationCas;
            let lists = context.in_catalog && context.mode == IcebergCatalogCommitMode::Filesystem;
            let named_by_version = CommitAction::BootstrapTable {
                style: NewTableMetadataStyle::Hadoop,
            };
            undisturbed(context, false, loaded) =~= (if context.operation != Operation::Append
                && context.operation != Operation::Overwrite {
                seq![CommitAction::Fail { failure: CommitFailure::Step }]
            } else if context.mode == IcebergCatalogCommitMode::CatalogCommit || context.mode
                == IcebergCatalogCommitMode::CompatibilityCatalogCommit {
                seq![
                    CommitAction::CheckRequirements,
                    CommitAction::Fail { failure: CommitFailure::MissingMetadata },
                ]
            } else if takes_location {
                seq![
                    CommitAction::CheckRequirements,
                    CommitAction::BootstrapTable { style: NewTableMetadataStyle::Uuid },
                    CommitAction::UpdateCatalog { previous: PreviousLocation::Absent },
                    report,
                ]
            } else if lists {
                seq![
                    CommitAction::CheckRequirements,
                    named_by_version,
                    CommitAction::UpdateCatalog { previous: PreviousLocation::Recorded },
                    report,
                ]
            } else {
                seq![CommitAction::CheckRequirements, named_by_version, report]
            })
        }),
{
    reveal_with_fuel(smooth_course, 13);
}

/// Whatever fails, fails the commit with the error of what failed, in any attempt, but for a file
/// that could not be deleted: that is left behind, as if it had been deleted.
pub proof fn law_failed_steps_fail_the_commit(context: CommitContext, state: CommitState)
    requires
        state.phase != CommitPhase::Ended,
    ensures
        state.phase != CommitPhase::Deleting ==> commit_step(context, state, CommitEvent::Failed) == (
            CommitState { attempt: state.attempt, phase: CommitPhase::Ended },
            CommitAction::Fail { failure: CommitFailure::Step },
        ),
        state.phase == CommitPhase::Deleting ==> commit_step(context, state, CommitEvent::Failed)
            == commit_step(context, state, CommitEvent::Done),
{
}

/// A commit that met other writers before its last attempt starts over with metadata that is
/// looked for again: at the catalog, where the table is in one that says which metadata is
/// current.
pub proof fn law_retries_look_for_metadata_again(
    context: CommitContext,
    state: CommitState,
    event: CommitEvent,
)
    requires
        1 <= state.attempt < MAX_COMMIT_RETRIES,
        (event == (CommitEvent::Checked { conflict: true }) && (state.phase
            == CommitPhase::CheckingNext || state.phase == CommitPhase::WritingMetadata)) || (event
            == (CommitEvent::Answered { answer: CatalogAnswer::Conflict }) && (
        state.phase is CommittingFirst || state.phase == CommitPhase::CommittingSnapshot)) || (
        state.phase == CommitPhase::Deleting && (event == CommitEvent::Done || event
            == CommitEvent::Failed)),
    ensures
        commit_step(context, state, event) == (
            CommitState { attempt: (state.attempt + 1) as u32, phase: CommitPhase::Loading },
            CommitAction::LoadMetadata {
                source: if context.in_catalog && context.mode
                    != IcebergCatalogCommitMode::Filesystem {
                    MetadataSource::AskCatalog
                } else {
                    MetadataSource::Rescan
                },
            },
        ),
{
}

/// A catalog that does not commit fails the commit, unless it takes the location of the metadata
/// instead: then the metadata is written after all, and the snapshot is not produced again.
pub proof fn law_refusing_catalogs_are_told_of_metadata(
    context: CommitContext,
    state: CommitState,
    located_by_catalog: bool,
)
    ensures
        ({
            let refused = CommitEvent::Answered { answer: CatalogAnswer::NotSupported };
            let lenient = context.mode == IcebergCatalogCommitMode::CompatibilityCatalogCommit;
            let fail = CommitAction::Fail { failure: CommitFailure::NotSupported };
            let snapshot = commit_step(
                context,
                CommitState { phase: CommitPhase::CommittingSnapshot, ..state },
                refused,
            );
            let first = commit_step(
                context,
                CommitState {
                    phase: CommitPhase::CommittingFirst { located_by_catalog },
                    ..state
                },
                refused,
            );
            &&& snapshot.1 == (if lenient {
                CommitAction::WriteMetadata { with_identifier: false }
            } else {
                fail
            })
            &&& first.1 == (if lenient {
                CommitAction::BootstrapSnapshot {
                    strategy: PersistStrategy::NewUuidVersion,
                    log_previous: located_by_catalog,
                }
            } else {
                fail
            })
            &&& lenient && located_by_catalog ==> commit_step(
                context,
                first.0,
                CommitEvent::Done,
            ).1 == (CommitAction::UpdateCatalog { previous: PreviousLocation::Current })
        }),
{
}

/// A retried commit that nothing disturbs any more goes through as the first attempt would.
pub proof fn law_retried_commits_go_through(
    context: CommitContext,
    attempt: u32,
    has_snapshot: bool,
    located_by_catalog: bool,
)
    requires
        1 <= attempt <= MAX_COMMIT_RETRIES,
        has_snapshot || context.operation == Operation::Append || context.operation
            == Operation::Overwrite,
    ensures
        ({
            let loaded = CommitEvent::Loaded { has_snapshot, located_by_catalog };
            let course = smooth_course(
                context,
                commit_step(context, CommitState { attempt, phase: CommitPhase::Loading }, loaded),
                loaded,
                12,
            );
            &&& course.last() == (CommitAction::Report { count: context.reported_count })
            &&& course =~= undisturbed(context, true, loaded).skip(1)
        }),
{
    reveal_with_fuel(smooth_course, 13);
}

/// The location on record is what the table properties say, and what the catalog says only where
/// they say nothing. A commit starts from it unless the files decide which metadata is current.
pub proof fn law_recorded_locations(
    property: Option<String>,
    catalog: Option<String>,
    recorded: Option<String>,
    mode: IcebergCatalogCommitMode,
    location: Option<String>,
)
    requires
        call_ensures(recorded_location, (property, catalog), recorded),
        call_ensures(authoritative_location, (mode, &recorded), location),
    ensures
        property is Some ==> recorded == property,
        property is None ==> recorded == catalog,
        mode == IcebergCatalogCommitMode::Filesystem ==> location is None,
        mode != IcebergCatalogCommitMode::Filesystem ==> location == recorded,
{
}

} // verus!
