//! The course of an operation that rewrites files of a table and commits the outcome.

use vstd::prelude::*;
use vstd::string::*;

use crate::iceberg::commit::parents::ParentManifests;
use crate::iceberg::data_files::snapshot_files;
use crate::iceberg::metadata_files::{any_concurrent, FileTimestamp, ListedFile};
use crate::iceberg::overwrite::{ManifestMetadata, SnapshotProduction, StoreContext};
use crate::iceberg::table::{DataFile, Operation, TableMetadata};
use crate::retry::jittered_wait_ms;

verus! {

use crate::iceberg::commit::parents::CarriedManifests;
use crate::iceberg::metadata_files::earlier;
use crate::iceberg::table::law_current_snapshots;
use crate::retry::longest_wait;

/// What rewrites the files.
#[derive(Debug, Clone, Copy, PartialEq, Eq, Structural)]
pub enum RewriteKind {
    Merge,
    Delete,
    Compact,
}

/// How far beyond the current version a merge looks for a free one, past the attempts that
/// it makes.
pub const MERGE_EXTRA_VERSIONS: u32 = 5;

impl RewriteKind {
    /// How often the commit is tried.
    pub open spec fn spec_max_attempts(self) -> int {
        match self {
            RewriteKind::Merge => 3,
            RewriteKind::Delete => 5,
            RewriteKind::Compact => 5,
        }
    }

    /// How often the commit is tried.
    pub fn max_attempts(self) -> (count: u32)
        ensures
            count == self.spec_max_attempts(),
    {
        match self {
            RewriteKind::Merge => 3,
            RewriteKind::Delete => 5,
            RewriteKind::Compact => 5,
        }
    }

    /// How many versions from the current one on are looked at for a free one.
    pub open spec fn spec_last_offset(self) -> int {
        match self {
            RewriteKind::Merge => self.spec_max_attempts() + MERGE_EXTRA_VERSIONS,
            _ => 1,
        }
    }

    fn last_offset(self) -> (offset: u32)
        ensures
            offset == self.spec_last_offset(),
    {
        match self {
            RewriteKind::Merge => self.max_attempts() + MERGE_EXTRA_VERSIONS,
            _ => 1,
        }
    }

    /// The operation that the new snapshot records.
    pub open spec fn spec_operation(self) -> Operation {
        match self {
            RewriteKind::Merge => Operation::Overwrite,
            RewriteKind::Delete => Operation::Delete,
            RewriteKind::Compact => Operation::Replace,
        }
    }

    /// The operation that the new snapshot records.
    pub fn operation(self) -> (operation: Operation)
        ensures
            operation == self.spec_operation(),
    {
        match self {
            RewriteKind::Merge => Operation::Overwrite,
            RewriteKind::Delete => Operation::Delete,
            RewriteKind::Compact => Operation::Replace,
        }
    }

    /// What is said of the manifests of the parent: a merge and a delete discard them all. A
    /// compaction leaves it unsaid, though its files are all files of the table.
    pub open spec fn spec_parents(self) -> CarriedManifests {
        match self {
            RewriteKind::Compact => CarriedManifests::Unsaid,
            _ => CarriedManifests::Only { entries: Seq::empty() },
        }
    }
}

/// Why an operation does not start.
#[derive(Debug, Clone, Copy, PartialEq, Eq, Structural)]
pub enum RewriteBaseError {
    NoSnapshot,
    NoSchema,
}

impl RewriteBaseError {
    pub open spec fn spec_message(self) -> Seq<char> {
        match self {
            RewriteBaseError::NoSnapshot => "No current snapshot found"@,
            RewriteBaseError::NoSchema => "No current schema"@,
        }
    }

    /// The message of the error.
    pub fn message(&self) -> (text: String)
        ensures
            text@ == self.spec_message(),
    {
        match self {
            RewriteBaseError::NoSnapshot => "No current snapshot found".to_owned(),
            RewriteBaseError::NoSchema => "No current schema".to_owned(),
        }
    }
}

/// The snapshot whose files an operation rewrites: the current one. A table without a snapshot
/// or without a schema is refused.
pub fn rewrite_base(metadata: &TableMetadata) -> (base: Result<i64, RewriteBaseError>)
    ensures
        base == (match metadata.current_position() {
            None => Err(RewriteBaseError::NoSnapshot),
            Some(at) => if metadata.current_schema_position() is None {
                Err(RewriteBaseError::NoSchema)
            } else {
                Ok(metadata.snapshots@[at].snapshot_id)
            },
        }),
{
    match metadata.current_snapshot() {
        None => Err(RewriteBaseError::NoSnapshot),
        Some(snapshot) => if metadata.current_schema_index().is_none() {
            Err(RewriteBaseError::NoSchema)
        } else {
            Ok(snapshot.snapshot_id)
        },
    }
}

/// Whether a version is taken, given the files that were found of it. A delete passes over files
/// that were written before the current metadata; a merge and a compaction do not.
pub fn version_taken(kind: RewriteKind, files: &Vec<ListedFile>, current: FileTimestamp) -> (taken:
    bool)
    ensures
        taken <==> match kind {
            RewriteKind::Delete => exists|i: int|
                0 <= i < files@.len() && !earlier((#[trigger] files@[i]).modified, current),
            _ => files@.len() > 0,
        },
{
    match kind {
        RewriteKind::Delete => any_concurrent(files, current),
        _ => files.len() > 0,
    }
}

/// What the new snapshot is made of: the files that were kept, followed by those that were
/// written.
pub fn rewrite_production(
    kind: RewriteKind,
    kept: Vec<DataFile>,
    written: Vec<DataFile>,
    store_ctx: StoreContext,
    manifest_metadata: ManifestMetadata,
) -> (production: SnapshotProduction)
    ensures
        production.operation == kind.spec_operation(),
        production.added_data_files@ == kept@ + written@,
        production.parents@ == kind.spec_parents(),
        production.row_lineage_start_row_id is None,
        production.store_ctx == Some(store_ctx),
        production.manifest_metadata == Some(manifest_metadata),
{
    let parents = match kind {
        RewriteKind::Compact => ParentManifests::Unsaid,
        _ => ParentManifests::Only { entries: Vec::new() },
    };
    SnapshotProduction {
        operation: kind.operation(),
        added_data_files: snapshot_files(kept, written),
        store_ctx: Some(store_ctx),
        manifest_metadata: Some(manifest_metadata),
        row_lineage_start_row_id: None,
        parents,
    }
}

/// The base of the pauses between the attempts of a merge.
pub const RETRY_PAUSE_MS: u64 = 5;

/// A pause of random length before a retry, the first of which is numbered zero.
pub fn retry_pause_ms(retry: u32) -> (wait: u64)
    requires
        retry < 32,
    ensures
        wait <= longest_wait(RETRY_PAUSE_MS as nat, retry as nat),
{
    proof {
        vstd::arithmetic::power2::lemma2_to64();
        vstd::arithmetic::power2::lemma_pow2_strictly_increases(retry as nat, 32);
    }
    jittered_wait_ms(RETRY_PAUSE_MS, retry as usize)
}

/// What does not change in the course of the operation.
#[derive(Debug, Clone, Copy, PartialEq, Eq, Structural)]
pub struct RewriteContext {
    pub kind: RewriteKind,
    /// The snapshot whose files were rewritten.
    pub snapshot_id: i64,
    /// The rows to report once the commit has gone through.
    pub reported_count: u64,
}

/// How far an attempt is.
#[derive(Debug, Clone, Copy, PartialEq, Eq, Structural)]
pub enum RewritePhase {
    Loading,
    Checking { offset: u32 },
    Committing,
    Ended,
}

#[derive(Debug, Clone, Copy, PartialEq, Eq, Structural)]
pub struct RewriteState {
    pub attempt: u32,
    pub phase: RewritePhase,
}

/// What to do next.
#[derive(Debug, Clone, Copy, PartialEq, Eq, Structural)]
pub enum RewriteAction {
    /// Load the metadata: that of the file which was found first, or of the latest file. A
    /// pause of random length comes before that where one is due; its number is the one of
    /// the retry.
    LoadMetadata { rescan: bool, pause: Option<u32> },
    /// Look for files of the version that comes so many after the current one.
    CheckVersion { offset: u32 },
    /// Write the manifests of the new snapshot and commit it.
    Commit,
    /// The commit has gone through: report the rows.
    Report { count: u64 },
    /// The operation has failed.
    Fail { failure: RewriteFailure },
}

/// Why the operation fails.
#[derive(Debug, Clone, Copy, PartialEq, Eq, Structural)]
pub enum RewriteFailure {
    /// What was done last has failed, with an error of its own.
    Step,
    /// Another writer has changed the table.
    ConcurrentModification,
    /// Other writers have written the versions that come next.
    VersionsTaken,
}

impl RewriteFailure {
    pub open spec fn spec_message(self, kind: RewriteKind) -> Seq<char> {
        match self {
            RewriteFailure::Step => ""@,
            RewriteFailure::ConcurrentModification => match kind {
                RewriteKind::Merge => "Iceberg MERGE failed: concurrent modification"@,
                RewriteKind::Delete => "Iceberg DELETE failed: concurrent modification"@,
                RewriteKind::Compact => "Compaction failed: concurrent modification"@,
            },
            RewriteFailure::VersionsTaken => match kind {
                RewriteKind::Merge => "Iceberg MERGE commit conflict: too many occupied versions"@,
                RewriteKind::Delete => "Iceberg DELETE commit conflict"@,
                RewriteKind::Compact => "Compaction commit conflict"@,
            },
        }
    }

    /// The message of the failure. The failure of a step has a message of its own.
    pub fn message(&self, kind: RewriteKind) -> (text: String)
        ensures
            text@ == self.spec_message(kind),
    {
        match self {
            RewriteFailure::Step => "".to_owned(),
            RewriteFailure::ConcurrentModification => match kind {
                RewriteKind::Merge => "Iceberg MERGE failed: concurrent modification".to_owned(),
                RewriteKind::Delete => "Iceberg DELETE failed: concurrent modification".to_owned(),
                RewriteKind::Compact => "Compaction failed: concurrent modification".to_owned(),
            },
            RewriteFailure::VersionsTaken => match kind {
                RewriteKind::Merge => {
                    "Iceberg MERGE commit conflict: too many occupied versions".to_owned()
                },
                RewriteKind::Delete => "Iceberg DELETE commit conflict".to_owned(),
                RewriteKind::Compact => "Compaction commit conflict".to_owned(),
            },
        }
    }
}

/// What has come of the last thing done.
#[derive(Debug, Clone, Copy, PartialEq, Eq, Structural)]
pub enum RewriteEvent {
    /// It failed in a way that trying again does not mend.
    Failed,
    /// The metadata was loaded; the table has the given current snapshot.
    Loaded { snapshot_id: Option<i64> },
    /// Files of the version were looked for. Whether it is taken is for [`version_taken`] to
    /// say.
    Checked { taken: bool },
    /// The commit has gone through.
    Committed,
    /// The commit was refused.
    Refused,
}

/// An operation that has failed.
pub open spec fn rewrite_failed(state: RewriteState, failure: RewriteFailure) -> (
    RewriteState,
    RewriteAction,
) {
    (RewriteState { phase: RewritePhase::Ended, ..state }, RewriteAction::Fail { failure })
}

/// An operation that met another writer: the commit is tried again, unless it was tried often
/// enough. A merge pauses first.
pub open spec fn rewrite_retried(
    context: RewriteContext,
    state: RewriteState,
    failure: RewriteFailure,
) -> (RewriteState, RewriteAction) {
    if state.attempt >= context.kind.spec_max_attempts() {
        rewrite_failed(state, failure)
    } else {
        (
            RewriteState { attempt: (state.attempt + 1) as u32, phase: RewritePhase::Loading },
            RewriteAction::LoadMetadata {
                rescan: true,
                pause: if context.kind is Merge {
                    Some((state.attempt - 1) as u32)
                } else {
                    None
                },
            },
        )
    }
}

/// Where the operation starts.
pub open spec fn rewrite_start() -> (RewriteState, RewriteAction) {
    (
        RewriteState { attempt: 1, phase: RewritePhase::Loading },
        RewriteAction::LoadMetadata { rescan: false, pause: None },
    )
}

/// What comes next. From the second attempt on, the table must still have the snapshot whose
/// files were rewritten. A delete and a compaction give way to a file of the next version; a
/// merge passes over such files, as long as there are not too many.
pub open spec fn rewrite_step(context: RewriteContext, state: RewriteState, event: RewriteEvent) -> (
    RewriteState,
    RewriteAction,
) {
    match (state.phase, event) {
        (RewritePhase::Loading, RewriteEvent::Loaded { snapshot_id }) => if state.attempt > 1
            && snapshot_id != Some(context.snapshot_id) {
            rewrite_retried(context, state, RewriteFailure::ConcurrentModification)
        } else {
            (
                RewriteState { phase: RewritePhase::Checking { offset: 1 }, ..state },
                RewriteAction::CheckVersion { offset: 1 },
            )
        },
        (RewritePhase::Checking { offset }, RewriteEvent::Checked { taken }) => if !taken {
            (RewriteState { phase: RewritePhase::Committing, ..state }, RewriteAction::Commit)
        } else if !(context.kind is Merge) {
            rewrite_retried(context, state, RewriteFailure::VersionsTaken)
        } else if offset >= context.kind.spec_last_offset() {
            rewrite_failed(state, RewriteFailure::VersionsTaken)
        } else {
            (
                RewriteState {
                    phase: RewritePhase::Checking { offset: (offset + 1) as u32 },
                    ..state
                },
                RewriteAction::CheckVersion { offset: (offset + 1) as u32 },
            )
        },
        (RewritePhase::Committing, RewriteEvent::Committed) => (
            RewriteState { phase: RewritePhase::Ended, ..state },
            RewriteAction::Report { count: context.reported_count },
        ),
        (RewritePhase::Committing, RewriteEvent::Refused) => rewrite_retried(
            context,
            state,
            RewriteFailure::Step,
        ),
        _ => rewrite_failed(state, RewriteFailure::Step),
    }
}

fn retry(context: RewriteContext, state: RewriteState, failure: RewriteFailure) -> (next: (
    RewriteState,
    RewriteAction,
))
    requires
        1 <= state.attempt,
    ensures
        next == rewrite_retried(context, state, failure),
{
    if state.attempt >= context.kind.max_attempts() {
        (
            RewriteState { phase: RewritePhase::Ended, ..state },
            RewriteAction::Fail { failure },
        )
    } else {
        let pause = match context.kind {
            RewriteKind::Merge => Some(state.attempt - 1),
            _ => None,
        };
        (
            RewriteState { attempt: state.attempt + 1, phase: RewritePhase::Loading },
            RewriteAction::LoadMetadata { rescan: true, pause },
        )
    }
}

/// Where the operation starts.
pub fn start_rewrite() -> (next: (RewriteState, RewriteAction))
    ensures
        next == rewrite_start(),
{
    (
        RewriteState { attempt: 1, phase: RewritePhase::Loading },
        RewriteAction::LoadMetadata { rescan: false, pause: None },
    )
}

/// What to do next, given how far the operation is and what has come of the last thing done.
pub fn next_rewrite_step(context: RewriteContext, state: RewriteState, event: RewriteEvent) -> (next:
    (RewriteState, RewriteAction))
    requires
        1 <= state.attempt,
    ensures
        next == rewrite_step(context, state, event),
        1 <= next.0.attempt,
{
    match (state.phase, event) {
        (RewritePhase::Loading, RewriteEvent::Loaded { snapshot_id }) => {
            let same = match snapshot_id {
                Some(id) => id == context.snapshot_id,
                None => false,
            };
            if state.attempt > 1 && !same {
                retry(context, state, RewriteFailure::ConcurrentModification)
            } else {
                (
                    RewriteState { phase: RewritePhase::Checking { offset: 1 }, ..state },
                    RewriteAction::CheckVersion { offset: 1 },
                )
            }
        },
        (RewritePhase::Checking { offset }, RewriteEvent::Checked { taken }) => {
            if !taken {
                (
                    RewriteState { phase: RewritePhase::Committing, ..state },
                    RewriteAction::Commit,
                )
            } else if !matches!(context.kind, RewriteKind::Merge) {
                retry(context, state, RewriteFailure::VersionsTaken)
            } else if offset >= context.kind.last_offset() {
                (
                    RewriteState { phase: RewritePhase::Ended, ..state },
                    RewriteAction::Fail { failure: RewriteFailure::VersionsTaken },
                )
            } else {
                (
                    RewriteState { phase: RewritePhase::Checking { offset: offset + 1 }, ..state },
                    RewriteAction::CheckVersion { offset: offset + 1 },
                )
            }
        },
        (RewritePhase::Committing, RewriteEvent::Committed) => (
            RewriteState { phase: RewritePhase::Ended, ..state },
            RewriteAction::Report { count: context.reported_count },
        ),
        (RewritePhase::Committing, RewriteEvent::Refused) => retry(
            context,
            state,
            RewriteFailure::Step,
        ),
        _ => (
            RewriteState { phase: RewritePhase::Ended, ..state },
            RewriteAction::Fail { failure: RewriteFailure::Step },
        ),
    }
}

/// Whether an operation can be in the given state.
pub open spec fn rewrite_reachable(context: RewriteContext, state: RewriteState) -> bool {
    &&& 1 <= state.attempt <= context.kind.spec_max_attempts()
    &&& state.phase matches RewritePhase::Checking { offset } ==> 1 <= offset
        <= context.kind.spec_last_offset()
}

/// How many steps an operation can take at most from the given state.
pub open spec fn rewrite_rank(context: RewriteContext, state: RewriteState) -> int {
    match state.phase {
        RewritePhase::Ended => 0,
        RewritePhase::Committing => (context.kind.spec_max_attempts() - state.attempt) * 20 + 1,
        RewritePhase::Checking { offset } => (context.kind.spec_max_attempts() - state.attempt) * 20
            + 10 - offset,
        RewritePhase::Loading => (context.kind.spec_max_attempts() - state.attempt) * 20 + 10,
    }
}

/// An operation ends: every step from a state that it can be in leads to such a state, nearer
/// to the end, and it ends with a report or a failure.
pub proof fn law_rewrites_end(context: RewriteContext, state: RewriteState, event: RewriteEvent)
    requires
        rewrite_reachable(context, state),
        !(state.phase is Ended),
    ensures
        ({
            let next = rewrite_step(context, state, event);
            &&& rewrite_reachable(context, next.0)
            &&& 0 <= rewrite_rank(context, next.0) < rewrite_rank(context, state)
            &&& next.0.phase is Ended <==> (next.1 is Report || next.1 is Fail)
        }),
        rewrite_reachable(context, rewrite_start().0),
{
}

/// Rows are reported only after the commit went through.
pub proof fn law_reported_rewrites_went_through(
    context: RewriteContext,
    state: RewriteState,
    event: RewriteEvent,
)
    requires
        rewrite_step(context, state, event).1 is Report,
    ensures
        state.phase is Committing,
        event is Committed,
        rewrite_step(context, state, event).1->count == context.reported_count,
{
}

/// A commit is made only for a version that no other file was found for.
pub proof fn law_commits_take_free_versions(
    context: RewriteContext,
    state: RewriteState,
    event: RewriteEvent,
)
    requires
        rewrite_step(context, state, event).1 is Commit,
    ensures
        state.phase is Checking,
        event == (RewriteEvent::Checked { taken: false }),
{
}

/// After the first attempt, an operation goes on only while the table has the snapshot whose
/// files were rewritten.
pub proof fn law_later_attempts_need_the_snapshot(
    context: RewriteContext,
    state: RewriteState,
    snapshot_id: Option<i64>,
)
    requires
        state.attempt > 1,
        state.phase is Loading,
        snapshot_id != Some(context.snapshot_id),
    ensures
        ({
            let next = rewrite_step(context, state, RewriteEvent::Loaded { snapshot_id });
            next.1 is LoadMetadata || next.1 == (RewriteAction::Fail {
                failure: RewriteFailure::ConcurrentModification,
            })
        }),
{
}

/// An operation that nothing disturbs goes through: the metadata that was found is loaded, the
/// next version is looked at, and the commit is made and reported.
pub proof fn law_undisturbed_rewrites_go_through(context: RewriteContext, snapshot_id: Option<i64>)
    ensures
        ({
            let first = rewrite_start();
            let second = rewrite_step(context, first.0, RewriteEvent::Loaded { snapshot_id });
            let third = rewrite_step(context, second.0, RewriteEvent::Checked { taken: false });
            let last = rewrite_step(context, third.0, RewriteEvent::Committed);
            &&& first.1 == (RewriteAction::LoadMetadata { rescan: false, pause: None })
            &&& second.1 == (RewriteAction::CheckVersion { offset: 1 })
            &&& third.1 is Commit
            &&& last.1 == (RewriteAction::Report { count: context.reported_count })
        }),
{
}

/// A commit that was refused is tried again on fresh metadata, a merge three times in all and
/// other operations five times; a merge pauses first, each time by one step more. The last
/// refusal fails the operation. An operation that is tried again goes through where the table
/// still has its snapshot.
pub proof fn law_refused_rewrites_are_tried_again(context: RewriteContext, state: RewriteState)
    requires
        state.phase is Committing,
        1 <= state.attempt,
    ensures
        ({
            let next = rewrite_step(context, state, RewriteEvent::Refused);
            let last: u32 = if context.kind is Merge {
                3
            } else {
                5
            };
            if state.attempt < last {
                let found = rewrite_step(
                    context,
                    next.0,
                    RewriteEvent::Loaded { snapshot_id: Some(context.snapshot_id) },
                );
                let free = rewrite_step(context, found.0, RewriteEvent::Checked { taken: false });
                let end = rewrite_step(context, free.0, RewriteEvent::Committed);
                &&& next.0.attempt == state.attempt + 1
                &&& next.1 == (RewriteAction::LoadMetadata {
                    rescan: true,
                    pause: if context.kind is Merge {
                        Some((state.attempt - 1) as u32)
                    } else {
                        None
                    },
                })
                &&& found.1 == (RewriteAction::CheckVersion { offset: 1 })
                &&& free.1 is Commit
                &&& end.1 == (RewriteAction::Report { count: context.reported_count })
            } else {
                next.1 == (RewriteAction::Fail { failure: RewriteFailure::Step })
            }
        }),
{
}

/// A version that is taken makes a merge look at the one behind it, up to the eighth behind the
/// current one, and then fail. It makes another operation start over, and fail in its fifth
/// attempt.
pub proof fn law_taken_versions(context: RewriteContext, state: RewriteState, offset: u32)
    requires
        state.phase == (RewritePhase::Checking { offset }),
        1 <= state.attempt,
    ensures
        ({
            let next = rewrite_step(context, state, RewriteEvent::Checked { taken: true });
            let taken = RewriteAction::Fail { failure: RewriteFailure::VersionsTaken };
            &&& context.kind is Merge && offset < 8 ==> next.1 == (RewriteAction::CheckVersion {
                offset: (offset + 1) as u32,
            }) && next.0.attempt == state.attempt
            &&& context.kind is Merge && offset >= 8 ==> next.1 == taken
            &&& !(context.kind is Merge) && state.attempt < 5 ==> next.1 == (
            RewriteAction::LoadMetadata { rescan: true, pause: None }) && next.0.attempt
                == state.attempt + 1
            &&& !(context.kind is Merge) && state.attempt >= 5 ==> next.1 == taken
        }),
{
}

/// Whatever fails beyond mending fails the operation, and so does an event out of place.
pub proof fn law_failed_rewrites(
    context: RewriteContext,
    state: RewriteState,
    event: RewriteEvent,
    snapshot_id: Option<i64>,
)
    ensures
        rewrite_step(context, state, RewriteEvent::Failed).1 == (RewriteAction::Fail {
            failure: RewriteFailure::Step,
        }),
        state.phase is Ended ==> rewrite_step(context, state, event).1 is Fail,
        state.phase is Loading && state.attempt == 1 ==> rewrite_step(
            context,
            state,
            RewriteEvent::Loaded { snapshot_id },
        ).1 is CheckVersion,
{
}

/// A merge records an overwrite, a delete a delete and a compaction a replacement. Only a
/// compaction says nothing of the manifests of the parent; the others discard them.
pub proof fn law_rewrites_record_operations(kind: RewriteKind)
    ensures
        kind.spec_operation() == (match kind {
            RewriteKind::Merge => Operation::Overwrite,
            RewriteKind::Delete => Operation::Delete,
            RewriteKind::Compact => Operation::Replace,
        }),
        kind is Compact <==> kind.spec_parents() is Unsaid,
        kind.spec_parents() matches CarriedManifests::Only { entries } ==> entries.len() == 0,
        !(kind is Compact) ==> kind.spec_parents() is Only,
{
}

/// A version is taken as soon as there is a file of it; but a delete passes over files from
/// before the current metadata.
pub proof fn law_versions_are_taken(
    kind: RewriteKind,
    files: Vec<ListedFile>,
    current: FileTimestamp,
    taken: bool,
)
    requires
        call_ensures(version_taken, (kind, &files, current), taken),
    ensures
        files@.len() == 0 ==> !taken,
        !(kind is Delete) && files@.len() > 0 ==> taken,
        kind is Delete && taken ==> exists|i: int|
            0 <= i < files@.len() && !((#[trigger] files@[i]).modified.seconds < current.seconds || (
            files@[i].modified.seconds == current.seconds && files@[i].modified.nanos
                < current.nanos)),
        kind is Delete && !taken ==> forall|i: int|
            0 <= i < files@.len() ==> (#[trigger] files@[i]).modified.seconds < current.seconds || (
            files@[i].modified.seconds == current.seconds && files@[i].modified.nanos
                < current.nanos),
{
    if kind is Delete && taken {
        let i = choose|i: int|
            0 <= i < files@.len() && !earlier((#[trigger] files@[i]).modified, current);
        assert(!earlier(files@[i].modified, current));
    }
    if kind is Delete && !taken {
        assert forall|i: int| 0 <= i < files@.len() implies (
        #[trigger] files@[i]).modified.seconds < current.seconds || (
        files@[i].modified.seconds == current.seconds && files@[i].modified.nanos
            < current.nanos) by {
            assert(earlier(files@[i].modified, current));
        }
    }
}

/// What is rewritten are the files of the current snapshot of a table that has one and a schema.
pub proof fn law_rewrite_bases(metadata: TableMetadata, base: Result<i64, RewriteBaseError>)
    requires
        call_ensures(rewrite_base, (&metadata,), base),
    ensures
        base matches Ok(id) ==> metadata.current_snapshot_id == Some(id),
        base is Ok <==> metadata.current_position() is Some && metadata.current_schema_position()
            is Some,
        base == Err::<i64, _>(RewriteBaseError::NoSnapshot) <==> metadata.current_position() is None,
{
    law_current_snapshots(metadata);
}

/// A rewrite adds the files that it has kept and then those that it has written, and numbers no
/// rows.
pub proof fn law_rewrites_hold_kept_and_written_files(
    kind: RewriteKind,
    kept: Vec<DataFile>,
    written: Vec<DataFile>,
    store_ctx: StoreContext,
    manifest_metadata: ManifestMetadata,
    production: SnapshotProduction,
)
    requires
        call_ensures(
            rewrite_production,
            (kind, kept, written, store_ctx, manifest_metadata),
            production,
        ),
    ensures
        production.added_data_files@ == kept@ + written@,
        production.operation == kind.spec_operation(),
        production.parents@ == kind.spec_parents(),
        production.row_lineage_start_row_id is None,
        production.store_ctx == Some(store_ctx),
        production.manifest_metadata == Some(manifest_metadata),
{
}

/// A rewrite starts with its first attempt, which loads the metadata at once and where it is known
/// to be.
pub proof fn law_rewrites_start(next: (RewriteState, RewriteAction))
    requires
        call_ensures(start_rewrite, (), next),
    ensures
        next.0.attempt == 1,
        next.0.phase == RewritePhase::Loading,
        next.1 == (RewriteAction::LoadMetadata { rescan: false, pause: None }),
{
}

} // verus!
