//! The files that go with expired snapshots.

use std::collections::HashSet;

use vstd::prelude::*;
use vstd::string::*;

use crate::iceberg::manifest::{ManifestEntry, ManifestFile, ManifestStatus};
use crate::iceberg::table::{DataContentType, Snapshot, TableMetadata};

verus! {

use crate::iceberg::table::{
    lemma_snapshot_position, snapshot_position, PartitionStatisticsFile, StatisticsFile,
};

/// The kind of a file that expire-snapshot garbage collection deals with.
///
/// Mirrors the type tags used by the Iceberg Spark action's `DeleteSummary` so the anti-join
/// operates on the `(path, kind)` pair.
#[derive(Debug, Clone, Copy, PartialEq, Eq, Structural)]
pub enum FileKind {
    Data(DataContentType),
    Manifest,
    ManifestList,
    Statistics,
}

impl FileKind {
    pub open spec fn spec_tag(self) -> Seq<char> {
        match self {
            FileKind::Data(DataContentType::Data) => "DATA"@,
            FileKind::Data(DataContentType::PositionDeletes) => "POSITION_DELETES"@,
            FileKind::Data(DataContentType::EqualityDeletes) => "EQUALITY_DELETES"@,
            FileKind::Manifest => "Manifest"@,
            FileKind::ManifestList => "Manifest List"@,
            FileKind::Statistics => "Statistics Files"@,
        }
    }

    /// A stable string tag identifying the kind, matching the Iceberg type tags.
    pub fn tag(&self) -> (tag: &'static str)
        ensures
            tag@ == self.spec_tag(),
    {
        match self {
            FileKind::Data(DataContentType::Data) => "DATA",
            FileKind::Data(DataContentType::PositionDeletes) => "POSITION_DELETES",
            FileKind::Data(DataContentType::EqualityDeletes) => "EQUALITY_DELETES",
            FileKind::Manifest => "Manifest",
            FileKind::ManifestList => "Manifest List",
            FileKind::Statistics => "Statistics Files",
        }
    }
}

/// Different kinds have different tags, so it is the same to compare kinds or tags.
pub proof fn law_tags_tell_kinds_apart(a: FileKind, b: FileKind)
    ensures
        a.spec_tag() == b.spec_tag() <==> a == b,
{
    reveal_strlit("DATA");
    reveal_strlit("POSITION_DELETES");
    reveal_strlit("EQUALITY_DELETES");
    reveal_strlit("Manifest");
    reveal_strlit("Manifest List");
    reveal_strlit("Statistics Files");
    if a != b && a.spec_tag() == b.spec_tag() {
        assert(a.spec_tag().len() == b.spec_tag().len());
        assert(a.spec_tag()[0] == b.spec_tag()[0]);
    }
}

/// A file and its kind, by path.
pub open spec fn file_key() -> spec_fn((String, FileKind)) -> (Seq<char>, FileKind) {
    |file: (String, FileKind)| (file.0@, file.1)
}

/// Files and their kinds, by path.
pub open spec fn file_keys(files: Seq<(String, FileKind)>) -> Seq<(Seq<char>, FileKind)> {
    files.map_values(file_key())
}

/// A snapshot with the manifests that its manifest list names, each with its entries.
#[derive(Debug)]
pub struct LoadedSnapshot {
    pub snapshot_id: i64,
    pub manifest_list: String,
    pub manifests: Vec<(ManifestFile, Vec<ManifestEntry>)>,
}

/// Whether an entry stands for a file that the snapshot reads.
pub open spec fn is_reachable() -> spec_fn(ManifestEntry) -> bool {
    |entry: ManifestEntry| entry.status is Added || entry.status is Existing
}

/// The file of an entry.
pub open spec fn content_key() -> spec_fn(ManifestEntry) -> (Seq<char>, FileKind) {
    |entry: ManifestEntry| (entry.data_file.file_path@, FileKind::Data(entry.data_file.content))
}

/// The manifest itself, then the files that it lists and that the snapshot reads.
pub open spec fn manifest_keys(manifest: (ManifestFile, Vec<ManifestEntry>)) -> Seq<
    (Seq<char>, FileKind),
> {
    seq![(manifest.0.manifest_path@, FileKind::Manifest)] + manifest.1@.filter(
        is_reachable(),
    ).map_values(content_key())
}

/// The files of several manifests, in order.
pub open spec fn manifests_keys(manifests: Seq<(ManifestFile, Vec<ManifestEntry>)>) -> Seq<
    (Seq<char>, FileKind),
>
    decreases manifests.len(),
{
    if manifests.len() == 0 {
        Seq::empty()
    } else {
        manifests_keys(manifests.drop_last()) + manifest_keys(manifests.last())
    }
}

/// The files of several snapshots, in order: of each its manifests with their files, then its
/// manifest list.
pub open spec fn snapshots_keys(snapshots: Seq<LoadedSnapshot>) -> Seq<(Seq<char>, FileKind)>
    decreases snapshots.len(),
{
    if snapshots.len() == 0 {
        Seq::empty()
    } else {
        let last = snapshots.last();
        (snapshots_keys(snapshots.drop_last()) + manifests_keys(last.manifests@)).push(
            (last.manifest_list@, FileKind::ManifestList),
        )
    }
}

/// Whether one of the snapshots has the given id.
pub open spec fn has_snapshot(snapshots: Seq<LoadedSnapshot>, id: i64) -> bool {
    exists|i: int| 0 <= i < snapshots.len() && (#[trigger] snapshots[i]).snapshot_id == id
}

/// Whether statistics are of one of the snapshots.
pub open spec fn statistics_of(snapshots: Seq<LoadedSnapshot>) -> spec_fn(StatisticsFile) -> bool {
    |file: StatisticsFile| has_snapshot(snapshots, file.snapshot_id)
}

/// Whether statistics are of one of the snapshots.
pub open spec fn partition_statistics_of(snapshots: Seq<LoadedSnapshot>) -> spec_fn(
    PartitionStatisticsFile,
) -> bool {
    |file: PartitionStatisticsFile| has_snapshot(snapshots, file.snapshot_id)
}

/// A file of statistics.
pub open spec fn statistics_key() -> spec_fn(StatisticsFile) -> (Seq<char>, FileKind) {
    |file: StatisticsFile| (file.statistics_path@, FileKind::Statistics)
}

/// A file of statistics.
pub open spec fn partition_statistics_key() -> spec_fn(PartitionStatisticsFile) -> (
    Seq<char>,
    FileKind,
) {
    |file: PartitionStatisticsFile| (file.statistics_path@, FileKind::Statistics)
}

/// Every file that is reachable from snapshots of a table.
pub open spec fn reachable_keys(metadata: TableMetadata, snapshots: Seq<LoadedSnapshot>) -> Seq<
    (Seq<char>, FileKind),
> {
    snapshots_keys(snapshots) + metadata.statistics@.filter(statistics_of(snapshots)).map_values(
        statistics_key(),
    ) + metadata.partition_statistics@.filter(partition_statistics_of(snapshots)).map_values(
        partition_statistics_key(),
    )
}

fn push_file(files: &mut Vec<(String, FileKind)>, path: String, kind: FileKind)
    ensures
        file_keys(final(files)@) == file_keys(old(files)@).push((path@, kind)),
{
    let ghost before = file_keys(files@);
    files.push((path, kind));
    assert(file_keys(files@) =~= before.push((path@, kind)));
}

fn push_manifest(files: &mut Vec<(String, FileKind)>, manifest: &(ManifestFile, Vec<ManifestEntry>))
    ensures
        file_keys(final(files)@) == file_keys(old(files)@) + manifest_keys(*manifest),
{
    let ghost start = file_keys(files@);
    let ghost entries = manifest.1@;
    push_file(files, manifest.0.manifest_path.clone(), FileKind::Manifest);
    let ghost head = seq![(manifest.0.manifest_path@, FileKind::Manifest)];
    assert(file_keys(files@) =~= start + (head + entries.take(0).filter(is_reachable()).map_values(
        content_key(),
    ))) by {
        reveal(Seq::filter);
    }
    for i in 0..manifest.1.len()
        invariant
            entries == manifest.1@,
            file_keys(files@) == start + (head + entries.take(i as int).filter(
                is_reachable(),
            ).map_values(content_key())),
    {
        let ghost before = file_keys(files@);
        let ghost kept = entries.take(i as int).filter(is_reachable());
        let entry = &manifest.1[i];
        proof {
            reveal(Seq::filter);
            assert(entries.take(i + 1).drop_last() =~= entries.take(i as int));
            assert(entries.take(i + 1).last() == *entry);
        }
        if matches!(entry.status, ManifestStatus::Added | ManifestStatus::Existing) {
            push_file(
                files,
                entry.data_file.file_path.clone(),
                FileKind::Data(entry.data_file.content),
            );
            assert(kept.push(*entry).map_values(content_key()) =~= kept.map_values(
                content_key(),
            ).push(content_key()(*entry)));
            assert(file_keys(files@) =~= start + (head + kept.push(*entry).map_values(
                content_key(),
            )));
        }
    }
    assert(entries.take(entries.len() as int) =~= entries);
}

/// Collects every file reachable from the given snapshots, as `(path, kind)` keys.
///
/// For each snapshot this includes, per the Iceberg Spark action's `fileDS`:
/// - every content file (data / position deletes / equality deletes) with an
///   `Added`/`Existing` manifest entry;
/// - every manifest file in the snapshot's manifest list;
/// - the snapshot's manifest list itself;
/// - any table-level statistics / partition-statistics files produced by the snapshot.
pub fn collect_files(metadata: &TableMetadata, snapshots: &Vec<LoadedSnapshot>) -> (files: Vec<
    (String, FileKind),
>)
    ensures
        file_keys(files@) == reachable_keys(*metadata, snapshots@),
{
    broadcast use vstd::std_specs::hash::group_hash_axioms;

    let ghost all = snapshots@;
    let mut files: Vec<(String, FileKind)> = Vec::new();
    let mut snapshot_ids: HashSet<i64> = HashSet::new();
    assert(file_keys(files@) =~= snapshots_keys(all.take(0)));
    for s in 0..snapshots.len()
        invariant
            all == snapshots@,
            file_keys(files@) == snapshots_keys(all.take(s as int)),
            forall|id: i64| #[trigger]
                snapshot_ids@.contains(id) <==> has_snapshot(all.take(s as int), id),
    {
        broadcast use vstd::std_specs::hash::group_hash_axioms;

        let ghost ids_before = snapshot_ids@;
        let snapshot = &snapshots[s];
        let ghost manifests = snapshot.manifests@;
        let ghost start = file_keys(files@);
        proof {
            assert(all.take(s + 1).drop_last() =~= all.take(s as int));
            assert(all.take(s + 1).last() == *snapshot);
            assert(start + manifests_keys(manifests.take(0)) =~= start);
        }
        for m in 0..snapshot.manifests.len()
            invariant
                manifests == snapshot.manifests@,
                file_keys(files@) == start + manifests_keys(manifests.take(m as int)),
        {
            proof {
                assert(manifests.take(m + 1).drop_last() =~= manifests.take(m as int));
            }
            push_manifest(&mut files, &snapshot.manifests[m]);
            assert(file_keys(files@) =~= start + manifests_keys(manifests.take(m + 1)));
        }
        assert(manifests.take(manifests.len() as int) =~= manifests);
        push_file(&mut files, snapshot.manifest_list.clone(), FileKind::ManifestList);
        snapshot_ids.insert(snapshot.snapshot_id);
        assert forall|id: i64| #[trigger] snapshot_ids@.contains(id) <==> has_snapshot(
            all.take(s + 1),
            id,
        ) by {
            let shorter = all.take(s as int);
            let longer = all.take(s + 1);
            if has_snapshot(longer, id) {
                let i = choose|i: int|
                    0 <= i < longer.len() && (#[trigger] longer[i]).snapshot_id == id;
                if i < s {
                    assert(shorter[i].snapshot_id == id);
                    assert(ids_before.contains(id));
                }
            }
            if ids_before.contains(id) {
                let i = choose|i: int|
                    0 <= i < shorter.len() && (#[trigger] shorter[i]).snapshot_id == id;
                assert(longer[i].snapshot_id == id);
            }
            if id == snapshot.snapshot_id {
                assert(longer[s as int].snapshot_id == id);
            }
        }
    }
    assert(all.take(all.len() as int) =~= all);
    let ghost base = file_keys(files@);
    let ghost statistics = metadata.statistics@;
    assert(base =~= base + statistics.take(0).filter(statistics_of(all)).map_values(
        statistics_key(),
    )) by {
        reveal(Seq::filter);
    }
    for i in 0..metadata.statistics.len()
        invariant
            statistics == metadata.statistics@,
            forall|id: i64| #[trigger] snapshot_ids@.contains(id) <==> has_snapshot(all, id),
            file_keys(files@) == base + statistics.take(i as int).filter(
                statistics_of(all),
            ).map_values(statistics_key()),
    {
        broadcast use vstd::std_specs::hash::group_hash_axioms;

        let ghost kept = statistics.take(i as int).filter(statistics_of(all));
        let file = &metadata.statistics[i];
        proof {
            reveal(Seq::filter);
            assert(statistics.take(i + 1).drop_last() =~= statistics.take(i as int));
            assert(statistics.take(i + 1).last() == *file);
        }
        if snapshot_ids.contains(&file.snapshot_id) {
            push_file(&mut files, file.statistics_path.clone(), FileKind::Statistics);
            assert(kept.push(*file).map_values(statistics_key()) =~= kept.map_values(
                statistics_key(),
            ).push(statistics_key()(*file)));
            assert(file_keys(files@) =~= base + kept.push(*file).map_values(statistics_key()));
        }
    }
    assert(statistics.take(statistics.len() as int) =~= statistics);
    let ghost both = file_keys(files@);
    let ghost parts = metadata.partition_statistics@;
    assert(both =~= both + parts.take(0).filter(partition_statistics_of(all)).map_values(
        partition_statistics_key(),
    )) by {
        reveal(Seq::filter);
    }
    for i in 0..metadata.partition_statistics.len()
        invariant
            parts == metadata.partition_statistics@,
            forall|id: i64| #[trigger] snapshot_ids@.contains(id) <==> has_snapshot(all, id),
            file_keys(files@) == both + parts.take(i as int).filter(
                partition_statistics_of(all),
            ).map_values(partition_statistics_key()),
    {
        broadcast use vstd::std_specs::hash::group_hash_axioms;

        let ghost kept = parts.take(i as int).filter(partition_statistics_of(all));
        let file = &metadata.partition_statistics[i];
        proof {
            reveal(Seq::filter);
            assert(parts.take(i + 1).drop_last() =~= parts.take(i as int));
            assert(parts.take(i + 1).last() == *file);
        }
        if snapshot_ids.contains(&file.snapshot_id) {
            push_file(&mut files, file.statistics_path.clone(), FileKind::Statistics);
            assert(kept.push(*file).map_values(partition_statistics_key()) =~= kept.map_values(
                partition_statistics_key(),
            ).push(partition_statistics_key()(*file)));
            assert(file_keys(files@) =~= both + kept.push(*file).map_values(
                partition_statistics_key(),
            ));
        }
    }
    assert(parts.take(parts.len() as int) =~= parts);
    files
}

/// The candidates that are not valid, each once, in order.
pub open spec fn difference(
    candidates: Seq<(Seq<char>, FileKind)>,
    valid: Seq<(Seq<char>, FileKind)>,
) -> Seq<(Seq<char>, FileKind)>
    decreases candidates.len(),
{
    if candidates.len() == 0 {
        Seq::empty()
    } else {
        let before = difference(candidates.drop_last(), valid);
        if valid.contains(candidates.last()) || before.contains(candidates.last()) {
            before
        } else {
            before.push(candidates.last())
        }
    }
}

fn contains_file(files: &Vec<(String, FileKind)>, path: &String, kind: FileKind) -> (found: bool)
    ensures
        found == file_keys(files@).contains((path@, kind)),
{
    for i in 0..files.len()
        invariant
            forall|j: int| 0 <= j < i ==> file_keys(files@)[j] != (path@, kind),
    {
        assert(file_keys(files@)[i as int] == (files@[i as int].0@, files@[i as int].1));
        if files[i].1 == kind && files[i].0 == *path {
            return true;
        }
    }
    false
}

/// Computes `candidates ∖ valid` on the `(path, kind)` pair.
///
/// This is the expire anti-join: a file that is still reachable from a retained snapshot
/// (i.e. present in `valid`) is never returned.
pub fn diff_files(candidates: Vec<(String, FileKind)>, valid: Vec<(String, FileKind)>) -> (files:
    Vec<(String, FileKind)>)
    ensures
        file_keys(files@) == difference(file_keys(candidates@), file_keys(valid@)),
{
    let ghost all = candidates@;
    let ghost keys = file_keys(all);
    let mut files: Vec<(String, FileKind)> = Vec::new();
    assert(file_keys(files@) =~= difference(keys.take(0), file_keys(valid@)));
    for file in iter: candidates
        invariant
            iter.seq() == all,
            keys == file_keys(all),
            file_keys(files@) == difference(keys.take(iter.index()), file_keys(valid@)),
    {
        let ghost n = iter.index();
        let ghost before = file_keys(files@);
        proof {
            assert(keys.take(n + 1).drop_last() =~= keys.take(n));
            assert(keys.take(n + 1).last() == (file.0@, file.1));
        }
        if !contains_file(&valid, &file.0, file.1) && !contains_file(&files, &file.0, file.1) {
            files.push(file);
            assert(file_keys(files@) =~= before.push((file.0@, file.1)));
        }
    }
    assert(keys.take(keys.len() as int) =~= keys);
    files
}

/// The files to delete are the candidates that are not valid, and none of them occurs twice.
pub proof fn law_valid_files_are_never_deleted(
    candidates: Seq<(Seq<char>, FileKind)>,
    valid: Seq<(Seq<char>, FileKind)>,
)
    ensures
        forall|file: (Seq<char>, FileKind)| #[trigger]
            difference(candidates, valid).contains(file) <==> candidates.contains(file)
                && !valid.contains(file),
        difference(candidates, valid).no_duplicates(),
    decreases candidates.len(),
{
    if candidates.len() > 0 {
        let (init, last) = (candidates.drop_last(), candidates.last());
        law_valid_files_are_never_deleted(init, valid);
        let before = difference(init, valid);
        let after = difference(candidates, valid);
        assert forall|file: (Seq<char>, FileKind)| #[trigger]
            after.contains(file) <==> candidates.contains(file) && !valid.contains(file) by {
            if candidates.contains(file) {
                let i = choose|i: int| 0 <= i < candidates.len() && candidates[i] == file;
                if i < init.len() {
                    assert(init[i] == file);
                }
            }
            if init.contains(file) {
                let i = choose|i: int| 0 <= i < init.len() && init[i] == file;
                assert(candidates[i] == file);
            }
            assert(candidates[candidates.len() - 1] == last);
            if before.contains(file) {
                let i = choose|i: int| 0 <= i < before.len() && before[i] == file;
                assert(after[i] == file);
            }
            if after.contains(file) && !before.contains(file) {
                let i = choose|i: int| 0 <= i < after.len() && after[i] == file;
                if i < before.len() {
                    assert(before[i] == file);
                }
            }
            if !valid.contains(last) && !before.contains(last) {
                assert(after[after.len() - 1] == last);
            }
        }
    }
}

/// The files that a GC pass deletes, given the snapshots that a commit has expired and those that
/// it has retained: every file that is reachable from one that was removed and from none that is
/// left, once.
pub fn files_to_delete(
    pre_commit: &TableMetadata,
    post_commit: &TableMetadata,
    expired: &Vec<LoadedSnapshot>,
    retained: &Vec<LoadedSnapshot>,
) -> (files: Vec<(String, FileKind)>)
    ensures
        file_keys(files@) == difference(
            reachable_keys(*pre_commit, expired@),
            reachable_keys(*post_commit, retained@),
        ),
        forall|file: (Seq<char>, FileKind)| #[trigger]
            file_keys(files@).contains(file) <==> reachable_keys(
                *pre_commit,
                expired@,
            ).contains(file) && !reachable_keys(*post_commit, retained@).contains(file),
        file_keys(files@).no_duplicates(),
{
    proof {
        law_valid_files_are_never_deleted(
            reachable_keys(*pre_commit, expired@),
            reachable_keys(*post_commit, retained@),
        );
    }
    diff_files(collect_files(pre_commit, expired), collect_files(post_commit, retained))
}

/// Per-kind count of files physically deleted by a GC pass. Each count is the number of
/// **successful** deletes.
#[derive(Debug, Clone, Copy, PartialEq, Eq, Structural)]
pub struct ExpireGcCounts {
    pub data_files: u64,
    pub position_delete_files: u64,
    pub equality_delete_files: u64,
    pub manifest_files: u64,
    pub manifest_lists: u64,
    pub statistics_files: u64,
}

impl Default for ExpireGcCounts {
    fn default() -> (counts: ExpireGcCounts)
        ensures
            forall|kind: FileKind| #[trigger] counts.count(kind) == 0,
    {
        ExpireGcCounts {
            data_files: 0,
            position_delete_files: 0,
            equality_delete_files: 0,
            manifest_files: 0,
            manifest_lists: 0,
            statistics_files: 0,
        }
    }
}

impl ExpireGcCounts {
    /// The count for a kind.
    pub open spec fn count(self, kind: FileKind) -> u64 {
        match kind {
            FileKind::Data(DataContentType::Data) => self.data_files,
            FileKind::Data(DataContentType::PositionDeletes) => self.position_delete_files,
            FileKind::Data(DataContentType::EqualityDeletes) => self.equality_delete_files,
            FileKind::Manifest => self.manifest_files,
            FileKind::ManifestList => self.manifest_lists,
            FileKind::Statistics => self.statistics_files,
        }
    }
}

/// Counts one more file of a kind.
pub fn increment_count(counts: &mut ExpireGcCounts, kind: &FileKind)
    requires
        old(counts).count(*kind) < u64::MAX,
    ensures
        forall|k: FileKind| #[trigger]
            final(counts).count(k) == old(counts).count(k) + (if k == *kind {
                1int
            } else {
                0int
            }),
{
    match kind {
        FileKind::Data(DataContentType::Data) => {
            counts.data_files = counts.data_files + 1;
        },
        FileKind::Data(DataContentType::PositionDeletes) => {
            counts.position_delete_files = counts.position_delete_files + 1;
        },
        FileKind::Data(DataContentType::EqualityDeletes) => {
            counts.equality_delete_files = counts.equality_delete_files + 1;
        },
        FileKind::Manifest => {
            counts.manifest_files = counts.manifest_files + 1;
        },
        FileKind::ManifestList => {
            counts.manifest_lists = counts.manifest_lists + 1;
        },
        FileKind::Statistics => {
            counts.statistics_files = counts.statistics_files + 1;
        },
    }
}

/// What came of deleting a file.
#[derive(Debug, Clone, Copy, PartialEq, Eq, Structural)]
pub enum DeleteOutcome {
    Deleted,
    /// The file was gone already.
    Missing,
    /// The file could not be deleted.
    Failed,
}

/// How many files of a kind were deleted.
pub open spec fn deleted_count(
    files: Seq<(String, FileKind)>,
    outcomes: Seq<DeleteOutcome>,
    kind: FileKind,
) -> nat
    decreases files.len(),
{
    if files.len() == 0 {
        0
    } else {
        deleted_count(files.drop_last(), outcomes.drop_last(), kind) + (if files.last().1 == kind
            && outcomes.last() is Deleted {
            1nat
        } else {
            0nat
        })
    }
}

/// The counts of a GC pass: only files that were deleted count, and neither a missing file nor
/// a failure ends the pass.
pub fn count_deleted(files: &Vec<(String, FileKind)>, outcomes: &Vec<DeleteOutcome>) -> (counts:
    ExpireGcCounts)
    requires
        files@.len() == outcomes@.len(),
    ensures
        forall|kind: FileKind| #[trigger]
            counts.count(kind) == deleted_count(files@, outcomes@, kind),
{
    let mut counts = ExpireGcCounts::default();
    for i in 0..files.len()
        invariant
            files@.len() == outcomes@.len(),
            forall|kind: FileKind| #[trigger]
                counts.count(kind) == deleted_count(
                    files@.take(i as int),
                    outcomes@.take(i as int),
                    kind,
                ),
            forall|kind: FileKind| #[trigger] counts.count(kind) <= i,
    {
        proof {
            assert(files@.take(i + 1).drop_last() =~= files@.take(i as int));
            assert(outcomes@.take(i + 1).drop_last() =~= outcomes@.take(i as int));
        }
        let ghost before = counts;
        if matches!(outcomes[i], DeleteOutcome::Deleted) {
            assert(before.count(files@[i as int].1) <= i);
            increment_count(&mut counts, &files[i].1);
        }
        assert forall|kind: FileKind| #[trigger]
            counts.count(kind) == deleted_count(
                files@.take(i + 1),
                outcomes@.take(i + 1),
                kind,
            ) && counts.count(kind) <= i + 1 by {
            assert(before.count(kind) <= i);
            assert(before.count(kind) == deleted_count(
                files@.take(i as int),
                outcomes@.take(i as int),
                kind,
            ));
        }
    }
    assert(files@.take(files@.len() as int) =~= files@);
    assert(outcomes@.take(outcomes@.len() as int) =~= outcomes@);
    counts
}

/// Whether a snapshot is no longer part of the table.
pub open spec fn is_gone(metadata: TableMetadata) -> spec_fn(Snapshot) -> bool {
    |snapshot: Snapshot| snapshot_position(metadata.snapshots@, snapshot.snapshot_id) is None
}

/// The id of a snapshot.
pub open spec fn snapshot_key() -> spec_fn(Snapshot) -> i64 {
    |snapshot: Snapshot| snapshot.snapshot_id
}

/// The snapshots that were part of the table before a commit and no longer are after it, by
/// their ids, in order.
pub fn expired_snapshots(pre_commit: &TableMetadata, post_commit: &TableMetadata) -> (ids: Vec<i64>)
    ensures
        ids@ == pre_commit.snapshots@.filter(is_gone(*post_commit)).map_values(snapshot_key()),
{
    let ghost all = pre_commit.snapshots@;
    let mut ids: Vec<i64> = Vec::new();
    assert(ids@ =~= all.take(0).filter(is_gone(*post_commit)).map_values(snapshot_key())) by {
        reveal(Seq::filter);
    }
    for i in 0..pre_commit.snapshots.len()
        invariant
            all == pre_commit.snapshots@,
            ids@ == all.take(i as int).filter(is_gone(*post_commit)).map_values(snapshot_key()),
    {
        let ghost kept = all.take(i as int).filter(is_gone(*post_commit));
        let snapshot = &pre_commit.snapshots[i];
        proof {
            reveal(Seq::filter);
            assert(all.take(i + 1).drop_last() =~= all.take(i as int));
            assert(all.take(i + 1).last() == *snapshot);
        }
        if post_commit.snapshot_index(snapshot.snapshot_id).is_none() {
            ids.push(snapshot.snapshot_id);
            assert(kept.push(*snapshot).map_values(snapshot_key()) =~= kept.map_values(
                snapshot_key(),
            ).push(snapshot.snapshot_id));
        }
    }
    assert(all.take(all.len() as int) =~= all);
    ids
}

/// The expired snapshots are those with an id that the table no longer has.
pub proof fn law_expired_snapshots_are_gone(
    pre_commit: TableMetadata,
    post_commit: TableMetadata,
    id: i64,
)
    ensures
        pre_commit.snapshots@.filter(is_gone(post_commit)).map_values(snapshot_key()).contains(id)
            <==> snapshot_position(pre_commit.snapshots@, id) is Some && snapshot_position(
            post_commit.snapshots@,
            id,
        ) is None,
{
    broadcast use vstd::seq_lib::group_filter_ensures;

    let all = pre_commit.snapshots@;
    let gone = all.filter(is_gone(post_commit));
    let ids = gone.map_values(snapshot_key());
    lemma_snapshot_position(all, id);
    if ids.contains(id) {
        let i = choose|i: int| 0 <= i < ids.len() && ids[i] == id;
        assert(gone[i].snapshot_id == id);
        assert(gone.contains(gone[i]));
        all.lemma_filter_contains_rev(is_gone(post_commit), gone[i]);
        assert(is_gone(post_commit)(gone[i]));
    }
    if snapshot_position(all, id) is Some && snapshot_position(post_commit.snapshots@, id) is None {
        let at = snapshot_position(all, id)->0;
        assert(is_gone(post_commit)(all[at]));
        assert(gone.contains(all[at]));
        let i = choose|i: int| 0 <= i < gone.len() && gone[i] == all[at];
        assert(ids[i] == id);
    }
}

/// Whether a manifest reaches a file: it is the manifest itself, or it lists the file as added or
/// existing.
pub open spec fn manifest_reaches(
    manifest: (ManifestFile, Vec<ManifestEntry>),
    file: (Seq<char>, FileKind),
) -> bool {
    file == (manifest.0.manifest_path@, FileKind::Manifest) || exists|e: int|
        0 <= e < manifest.1@.len() && ((#[trigger] manifest.1@[e]).status is Added
            || manifest.1@[e].status is Existing) && file == (
            manifest.1@[e].data_file.file_path@,
            FileKind::Data(manifest.1@[e].data_file.content),
        )
}

/// Whether a snapshot reaches a file: its manifest list, or what one of its manifests reaches.
pub open spec fn snapshot_reaches(snapshot: LoadedSnapshot, file: (Seq<char>, FileKind)) -> bool {
    file == (snapshot.manifest_list@, FileKind::ManifestList) || exists|m: int|
        0 <= m < snapshot.manifests@.len() && manifest_reaches(
            #[trigger] snapshot.manifests@[m],
            file,
        )
}

proof fn lemma_manifest_keys(
    manifest: (ManifestFile, Vec<ManifestEntry>),
    file: (Seq<char>, FileKind),
)
    ensures
        manifest_keys(manifest).contains(file) <==> manifest_reaches(manifest, file),
{
    broadcast use vstd::seq_lib::group_filter_ensures;

    let entries = manifest.1@;
    let read = entries.filter(is_reachable());
    let files = read.map_values(content_key());
    let keys = manifest_keys(manifest);
    if keys.contains(file) {
        let i = choose|i: int| 0 <= i < keys.len() && keys[i] == file;
        if i > 0 {
            let entry = read[i - 1];
            assert(files[i - 1] == file);
            assert(read.contains(entry));
            entries.lemma_filter_contains_rev(is_reachable(), entry);
            assert(is_reachable()(entry));
            let e = choose|e: int| 0 <= e < entries.len() && entries[e] == entry;
            assert(manifest.1@[e].status is Added || manifest.1@[e].status is Existing);
        }
    }
    if manifest_reaches(manifest, file) {
        if file == (manifest.0.manifest_path@, FileKind::Manifest) {
            assert(keys[0] == file);
        } else {
            let e = choose|e: int|
                0 <= e < entries.len() && ((#[trigger] entries[e]).status is Added
                    || entries[e].status is Existing) && file == (
                    entries[e].data_file.file_path@,
                    FileKind::Data(entries[e].data_file.content),
                );
            assert(is_reachable()(entries[e]));
            assert(read.contains(entries[e]));
            let i = choose|i: int| 0 <= i < read.len() && read[i] == entries[e];
            assert(files[i] == file);
            assert(keys[i + 1] == file);
        }
    }
}

proof fn lemma_contains_add(
    a: Seq<(Seq<char>, FileKind)>,
    b: Seq<(Seq<char>, FileKind)>,
    file: (Seq<char>, FileKind),
)
    ensures
        (a + b).contains(file) <==> a.contains(file) || b.contains(file),
{
    let both = a + b;
    if both.contains(file) {
        let i = choose|i: int| 0 <= i < both.len() && both[i] == file;
        if i < a.len() {
            assert(a[i] == file);
        } else {
            assert(b[i - a.len()] == file);
        }
    }
    if a.contains(file) {
        let i = choose|i: int| 0 <= i < a.len() && a[i] == file;
        assert(both[i] == file);
    }
    if b.contains(file) {
        let i = choose|i: int| 0 <= i < b.len() && b[i] == file;
        assert(both[a.len() + i] == file);
    }
}

proof fn lemma_manifests_keys(
    manifests: Seq<(ManifestFile, Vec<ManifestEntry>)>,
    file: (Seq<char>, FileKind),
)
    ensures
        manifests_keys(manifests).contains(file) <==> exists|m: int|
            0 <= m < manifests.len() && manifest_reaches(#[trigger] manifests[m], file),
    decreases manifests.len(),
{
    if manifests.len() > 0 {
        let init = manifests.drop_last();
        let last = manifests.len() - 1;
        lemma_manifests_keys(init, file);
        lemma_manifest_keys(manifests.last(), file);
        lemma_contains_add(manifests_keys(init), manifest_keys(manifests.last()), file);
        if manifests_keys(init).contains(file) {
            let m = choose|m: int|
                0 <= m < init.len() && manifest_reaches(#[trigger] init[m], file);
            assert(manifests[m] == init[m]);
        }
        if manifest_reaches(manifests.last(), file) {
            assert(manifest_reaches(manifests[last], file));
        }
        if exists|m: int| 0 <= m < manifests.len() && manifest_reaches(#[trigger] manifests[m], file) {
            let m = choose|m: int|
                0 <= m < manifests.len() && manifest_reaches(#[trigger] manifests[m], file);
            if m < last {
                assert(manifest_reaches(init[m], file));
            }
        }
    }
}

proof fn lemma_snapshots_keys(snapshots: Seq<LoadedSnapshot>, file: (Seq<char>, FileKind))
    ensures
        snapshots_keys(snapshots).contains(file) <==> exists|s: int|
            0 <= s < snapshots.len() && snapshot_reaches(#[trigger] snapshots[s], file),
    decreases snapshots.len(),
{
    if snapshots.len() > 0 {
        let init = snapshots.drop_last();
        let at = snapshots.len() - 1;
        let last = snapshots[at];
        let list = seq![(last.manifest_list@, FileKind::ManifestList)];
        lemma_snapshots_keys(init, file);
        lemma_manifests_keys(last.manifests@, file);
        lemma_contains_add(snapshots_keys(init), manifests_keys(last.manifests@), file);
        lemma_contains_add(snapshots_keys(init) + manifests_keys(last.manifests@), list, file);
        assert(snapshots_keys(snapshots) =~= snapshots_keys(init) + manifests_keys(last.manifests@)
            + list);
        assert(list.contains(file) <==> file == list[0]) by {
            assert(list[0] == (last.manifest_list@, FileKind::ManifestList));
        }
        assert(snapshots_keys(snapshots).contains(file) <==> snapshots_keys(init).contains(file)
            || snapshot_reaches(last, file));
        if snapshots_keys(init).contains(file) {
            let s = choose|s: int|
                0 <= s < init.len() && snapshot_reaches(#[trigger] init[s], file);
            assert(snapshots[s] == init[s]);
        }
        if exists|s: int| 0 <= s < snapshots.len() && snapshot_reaches(#[trigger] snapshots[s], file) {
            let s = choose|s: int|
                0 <= s < snapshots.len() && snapshot_reaches(#[trigger] snapshots[s], file);
            if s < at {
                assert(snapshot_reaches(init[s], file));
            }
        }
    }
}

/// The files that snapshots reach: their manifest lists, the manifests in these, the files that
/// such a manifest lists as added or existing, and the statistics of the snapshots, those of
/// partitions among them. No other file is reached.
pub proof fn law_reachable_files(
    metadata: TableMetadata,
    snapshots: Seq<LoadedSnapshot>,
    file: (Seq<char>, FileKind),
)
    ensures
        reachable_keys(metadata, snapshots).contains(file) <==> (exists|s: int|
            0 <= s < snapshots.len() && snapshot_reaches(#[trigger] snapshots[s], file)) || (exists|
            f: int,
            s: int,
        |
            0 <= f < metadata.statistics@.len() && 0 <= s < snapshots.len() && (
            #[trigger] metadata.statistics@[f]).snapshot_id == (
            #[trigger] snapshots[s]).snapshot_id && file == (
                metadata.statistics@[f].statistics_path@,
                FileKind::Statistics,
            )) || (exists|f: int, s: int|
            0 <= f < metadata.partition_statistics@.len() && 0 <= s < snapshots.len() && (
            #[trigger] metadata.partition_statistics@[f]).snapshot_id == (
            #[trigger] snapshots[s]).snapshot_id && file == (
                metadata.partition_statistics@[f].statistics_path@,
                FileKind::Statistics,
            )),
{
    broadcast use vstd::seq_lib::group_filter_ensures;

    lemma_snapshots_keys(snapshots, file);
    let whole = metadata.statistics@;
    let kept = whole.filter(statistics_of(snapshots));
    let first = kept.map_values(statistics_key());
    let parts = metadata.partition_statistics@;
    let kept_parts = parts.filter(partition_statistics_of(snapshots));
    let second = kept_parts.map_values(partition_statistics_key());
    lemma_contains_add(snapshots_keys(snapshots), first, file);
    lemma_contains_add(snapshots_keys(snapshots) + first, second, file);
    if first.contains(file) {
        let i = choose|i: int| 0 <= i < first.len() && first[i] == file;
        assert(kept.contains(kept[i]));
        whole.lemma_filter_contains_rev(statistics_of(snapshots), kept[i]);
        assert(statistics_of(snapshots)(kept[i]));
        let f = choose|f: int| 0 <= f < whole.len() && whole[f] == kept[i];
        let s = choose|s: int|
            0 <= s < snapshots.len() && (#[trigger] snapshots[s]).snapshot_id
                == kept[i].snapshot_id;
        assert(metadata.statistics@[f].snapshot_id == snapshots[s].snapshot_id);
    }
    if second.contains(file) {
        let i = choose|i: int| 0 <= i < second.len() && second[i] == file;
        assert(kept_parts.contains(kept_parts[i]));
        parts.lemma_filter_contains_rev(partition_statistics_of(snapshots), kept_parts[i]);
        assert(partition_statistics_of(snapshots)(kept_parts[i]));
        let f = choose|f: int| 0 <= f < parts.len() && parts[f] == kept_parts[i];
        let s = choose|s: int|
            0 <= s < snapshots.len() && (#[trigger] snapshots[s]).snapshot_id
                == kept_parts[i].snapshot_id;
        assert(metadata.partition_statistics@[f].snapshot_id == snapshots[s].snapshot_id);
    }
    if exists|f: int, s: int|
        0 <= f < whole.len() && 0 <= s < snapshots.len() && (#[trigger] whole[f]).snapshot_id == (
        #[trigger] snapshots[s]).snapshot_id && file == (
            whole[f].statistics_path@,
            FileKind::Statistics,
        ) {
        let (f, s) = choose|f: int, s: int|
            0 <= f < whole.len() && 0 <= s < snapshots.len() && (#[trigger] whole[f]).snapshot_id
                == (#[trigger] snapshots[s]).snapshot_id && file == (
                whole[f].statistics_path@,
                FileKind::Statistics,
            );
        assert(statistics_of(snapshots)(whole[f]));
        assert(kept.contains(whole[f]));
        let i = choose|i: int| 0 <= i < kept.len() && kept[i] == whole[f];
        assert(first[i] == file);
    }
    if exists|f: int, s: int|
        0 <= f < parts.len() && 0 <= s < snapshots.len() && (#[trigger] parts[f]).snapshot_id == (
        #[trigger] snapshots[s]).snapshot_id && file == (
            parts[f].statistics_path@,
            FileKind::Statistics,
        ) {
        let (f, s) = choose|f: int, s: int|
            0 <= f < parts.len() && 0 <= s < snapshots.len() && (#[trigger] parts[f]).snapshot_id
                == (#[trigger] snapshots[s]).snapshot_id && file == (
                parts[f].statistics_path@,
                FileKind::Statistics,
            );
        assert(partition_statistics_of(snapshots)(parts[f]));
        assert(kept_parts.contains(parts[f]));
        let i = choose|i: int| 0 <= i < kept_parts.len() && kept_parts[i] == parts[f];
        assert(second[i] == file);
    }
}

/// A file counts, under its own kind, exactly where it was deleted.
pub proof fn law_deleted_counts(
    files: Seq<(String, FileKind)>,
    outcomes: Seq<DeleteOutcome>,
    file: (String, FileKind),
    outcome: DeleteOutcome,
    kind: FileKind,
)
    requires
        files.len() == outcomes.len(),
    ensures
        deleted_count(Seq::empty(), Seq::empty(), kind) == 0,
        deleted_count(files.push(file), outcomes.push(outcome), kind) == deleted_count(
            files,
            outcomes,
            kind,
        ) + (if file.1 == kind && outcome is Deleted {
            1int
        } else {
            0int
        }),
{
    assert(files.push(file).drop_last() =~= files);
    assert(outcomes.push(outcome).drop_last() =~= outcomes);
}

/// What is deleted is what only expired snapshots reach, each file once: nothing that a retained
/// snapshot reaches, and all else.
pub proof fn law_unreachable_files_are_deleted(
    pre_commit: TableMetadata,
    post_commit: TableMetadata,
    expired: Vec<LoadedSnapshot>,
    retained: Vec<LoadedSnapshot>,
    files: Vec<(String, FileKind)>,
    file: (Seq<char>, FileKind),
)
    requires
        call_ensures(files_to_delete, (&pre_commit, &post_commit, &expired, &retained), files),
    ensures
        file_keys(files@).contains(file) <==> reachable_keys(pre_commit, expired@).contains(file)
            && !reachable_keys(post_commit, retained@).contains(file),
        file_keys(files@).no_duplicates(),
{
}

} // verus!
