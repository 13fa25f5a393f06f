//! Compaction: small files of a partition are merged into larger ones.

use vstd::prelude::*;

use crate::iceberg::contents::{duplicate_texts, same_texts};
use crate::iceberg::data_files::{written_data_file, WrittenFile};
use crate::iceberg::table::{DataContentType, DataFile};

verus! {

use crate::iceberg::contents::texts;
use crate::iceberg::data_files::describes;
use vstd::multiset::Multiset;

/// The size that files are merged up to unless told otherwise: 128 MB.
pub const DEFAULT_TARGET_FILE_SIZE: u64 = 134217728;

/// A batch of small files to compact into one output file.
#[derive(Debug)]
pub struct CompactBatch {
    pub partition_dir: String,
    pub partition_values: Vec<String>,
    pub files: Vec<DataFile>,
    pub total_size: u64,
    pub partition_spec_id: i32,
}

/// The files that stay and those that are merged.
#[derive(Debug)]
pub struct SizeSplit {
    pub large: Vec<DataFile>,
    pub small: Vec<DataFile>,
}

/// Whether a file is too large to be merged.
pub open spec fn is_large(threshold: u64) -> spec_fn(DataFile) -> bool {
    |file: DataFile| file.file_size_in_bytes >= threshold
}

/// Whether a file is merged.
pub open spec fn is_small(threshold: u64) -> spec_fn(DataFile) -> bool {
    |file: DataFile| file.file_size_in_bytes < threshold
}

/// Splits files by whether their size reaches the threshold.
pub fn split_by_size(files: Vec<DataFile>, threshold: u64) -> (split: SizeSplit)
    ensures
        split.large@ == files@.filter(is_large(threshold)),
        split.small@ == files@.filter(is_small(threshold)),
{
    let ghost all = files@;
    let mut large: Vec<DataFile> = Vec::new();
    let mut small: Vec<DataFile> = Vec::new();
    for file in iter: files
        invariant
            iter.seq() == all,
            large@ == all.take(iter.index()).filter(is_large(threshold)),
            small@ == all.take(iter.index()).filter(is_small(threshold)),
    {
        let ghost n = iter.index();
        proof {
            reveal(Seq::filter);
            assert(all.take(n + 1).drop_last() =~= all.take(n));
            assert(all.take(n + 1).last() == file);
        }
        if file.file_size_in_bytes >= threshold {
            large.push(file);
        } else {
            small.push(file);
        }
    }
    assert(all.take(all.len() as int) =~= all);
    SizeSplit { large, small }
}

/// What compaction has to do with the files of a snapshot: nothing where no file is smaller than
/// the threshold.
pub fn plan_compaction(files: Vec<DataFile>, threshold: u64) -> (plan: Option<SizeSplit>)
    ensures
        match plan {
            None => files@.filter(is_small(threshold)).len() == 0,
            Some(split) => {
                &&& split.small@.len() > 0
                &&& split.large@ == files@.filter(is_large(threshold))
                &&& split.small@ == files@.filter(is_small(threshold))
            },
        },
{
    let split = split_by_size(files, threshold);
    if split.small.len() == 0 {
        None
    } else {
        Some(split)
    }
}

/// The size of files in all.
pub open spec fn total_size(files: Seq<DataFile>) -> int
    decreases files.len(),
{
    if files.len() == 0 {
        0
    } else {
        total_size(files.drop_last()) + files.last().file_size_in_bytes
    }
}

/// The partition of a file.
pub open spec fn partition_of(file: DataFile) -> Seq<Seq<char>> {
    texts(file.partition@)
}

/// The position of the first group whose files are in the given partition.
pub open spec fn group_position(groups: Seq<Seq<DataFile>>, partition: Seq<Seq<char>>) -> Option<int>
    decreases groups.len(),
{
    if groups.len() == 0 {
        None
    } else {
        match group_position(groups.drop_last(), partition) {
            Some(i) => Some(i),
            None => if partition_of(groups.last()[0]) == partition {
                Some(groups.len() - 1)
            } else {
                None
            },
        }
    }
}

/// The groups with one more file in them, which joins the group of its partition or starts
/// one.
pub open spec fn joined_group(groups: Seq<Seq<DataFile>>, file: DataFile) -> Seq<Seq<DataFile>> {
    match group_position(groups, partition_of(file)) {
        Some(i) => groups.update(i, groups[i].push(file)),
        None => groups.push(seq![file]),
    }
}

/// Files grouped by partition. The groups stand in the order of their first files.
pub open spec fn grouped(files: Seq<DataFile>) -> Seq<Seq<DataFile>>
    decreases files.len(),
{
    if files.len() == 0 {
        Seq::empty()
    } else {
        joined_group(grouped(files.drop_last()), files.last())
    }
}

/// Files in descending order of size with one more file in its place, behind those of the
/// same size.
pub open spec fn placed(files: Seq<DataFile>, file: DataFile) -> Seq<DataFile>
    decreases files.len(),
{
    if files.len() == 0 || files.last().file_size_in_bytes >= file.file_size_in_bytes {
        files.push(file)
    } else {
        placed(files.drop_last(), file).push(files.last())
    }
}

/// Files in descending order of size. Those of the same size stay in order.
pub open spec fn by_size(files: Seq<DataFile>) -> Seq<DataFile>
    decreases files.len(),
{
    if files.len() == 0 {
        Seq::empty()
    } else {
        placed(by_size(files.drop_last()), files.last())
    }
}

/// Batches with one more file, which joins the last batch where that keeps it within the
/// target, and starts a batch otherwise.
pub open spec fn joined_batch(
    batches: Seq<Seq<DataFile>>,
    file: DataFile,
    target: int,
) -> Seq<Seq<DataFile>> {
    if batches.len() == 0 || total_size(batches.last()) + file.file_size_in_bytes > target {
        batches.push(seq![file])
    } else {
        batches.drop_last().push(batches.last().push(file))
    }
}

/// Files packed into batches in order.
pub open spec fn packed(files: Seq<DataFile>, target: int) -> Seq<Seq<DataFile>>
    decreases files.len(),
{
    if files.len() == 0 {
        Seq::empty()
    } else {
        joined_batch(packed(files.drop_last(), target), files.last(), target)
    }
}

/// The batches of several groups, group by group, each group in descending order of size.
pub open spec fn packed_groups(groups: Seq<Seq<DataFile>>, target: int) -> Seq<Seq<DataFile>>
    decreases groups.len(),
{
    if groups.len() == 0 {
        Seq::empty()
    } else {
        packed_groups(groups.drop_last(), target) + packed(by_size(groups.last()), target)
    }
}

/// The files of each batch.
pub open spec fn batch_files(batches: Seq<CompactBatch>) -> Seq<Seq<DataFile>> {
    batches.map_values(|batch: CompactBatch| batch.files@)
}

impl CompactBatch {
    /// Whether a batch is about its files: it has some, its size is theirs, and its partition
    /// is that of the first.
    pub open spec fn wf(self) -> bool {
        &&& self.files@.len() > 0
        &&& self.total_size == total_size(self.files@)
        &&& self.partition_values@ == self.files@[0].partition@
        &&& self.partition_spec_id == self.files@[0].partition_spec_id
        &&& self.partition_dir@.len() == 0
    }
}

/// The files of all the given sequences.
pub open spec fn all_files(lists: Seq<Seq<DataFile>>) -> Multiset<DataFile>
    decreases lists.len(),
{
    if lists.len() == 0 {
        Multiset::empty()
    } else {
        all_files(lists.drop_last()).add(lists.last().to_multiset())
    }
}

proof fn lemma_all_files_push(lists: Seq<Seq<DataFile>>, list: Seq<DataFile>)
    ensures
        all_files(lists.push(list)) == all_files(lists).add(list.to_multiset()),
{
    assert(lists.push(list).drop_last() =~= lists);
}

proof fn lemma_all_files_update(lists: Seq<Seq<DataFile>>, i: int, file: DataFile)
    requires
        0 <= i < lists.len(),
    ensures
        all_files(lists.update(i, lists[i].push(file))) == all_files(lists).insert(file),
    decreases lists.len(),
{
    broadcast use vstd::seq_lib::group_to_multiset_ensures;

    let updated = lists.update(i, lists[i].push(file));
    if i == lists.len() - 1 {
        assert(updated.drop_last() =~= lists.drop_last());
        assert(all_files(updated) =~= all_files(lists).insert(file));
    } else {
        lemma_all_files_update(lists.drop_last(), i, file);
        assert(updated.drop_last() =~= lists.drop_last().update(i, lists[i].push(file)));
        assert(all_files(updated) =~= all_files(lists).insert(file));
    }
}

proof fn lemma_all_files_add(a: Seq<Seq<DataFile>>, b: Seq<Seq<DataFile>>)
    ensures
        all_files(a + b) == all_files(a).add(all_files(b)),
    decreases b.len(),
{
    if b.len() == 0 {
        assert(a + b =~= a);
        assert(all_files(a).add(all_files(b)) =~= all_files(a));
    } else {
        lemma_all_files_add(a, b.drop_last());
        assert((a + b).drop_last() =~= a + b.drop_last());
        assert(all_files(a + b) =~= all_files(a).add(all_files(b)));
    }
}

/// A group's position is in range and its files are in the partition; where there is no
/// position, no group is of the partition.
proof fn lemma_group_position(groups: Seq<Seq<DataFile>>, partition: Seq<Seq<char>>)
    ensures
        group_position(groups, partition) matches Some(i) ==> 0 <= i < groups.len()
            && partition_of(groups[i][0]) == partition,
        group_position(groups, partition) is None ==> forall|i: int|
            0 <= i < groups.len() ==> partition_of((#[trigger] groups[i])[0]) != partition,
    decreases groups.len(),
{
    if groups.len() > 0 {
        let init = groups.drop_last();
        lemma_group_position(init, partition);
        if group_position(groups, partition) is None {
            assert forall|i: int| 0 <= i < groups.len() implies partition_of(
                (#[trigger] groups[i])[0],
            ) != partition by {
                if i < init.len() {
                    assert(partition_of(init[i][0]) != partition);
                }
            }
        }
    }
}

proof fn lemma_group_position_prefix(
    groups: Seq<Seq<DataFile>>,
    n: int,
    partition: Seq<Seq<char>>,
)
    requires
        0 <= n <= groups.len(),
    ensures
        group_position(groups.take(n), partition) is Some ==> group_position(groups, partition)
            == group_position(groups.take(n), partition),
    decreases groups.len() - n,
{
    if n < groups.len() {
        assert(groups.take(n + 1).drop_last() =~= groups.take(n));
        lemma_group_position_prefix(groups, n + 1, partition);
    } else {
        assert(groups.take(n) =~= groups);
    }
}

/// Whether every group has files, all in one partition, and no two groups are of the same
/// partition.
pub open spec fn groups_wf(groups: Seq<Seq<DataFile>>) -> bool {
    &&& forall|i: int| 0 <= i < groups.len() ==> (#[trigger] groups[i]).len() > 0
    &&& forall|i: int, k: int|
        0 <= i < groups.len() && 0 <= k < groups[i].len() ==> partition_of(#[trigger] groups[i][k])
            == partition_of(groups[i][0])
    &&& forall|i: int, j: int|
        0 <= i < j < groups.len() ==> partition_of((#[trigger] groups[i])[0]) != partition_of(
            (#[trigger] groups[j])[0],
        )
}

/// Grouping loses no file, and the groups are those of the partitions.
pub proof fn law_groups_are_partitions(files: Seq<DataFile>)
    ensures
        groups_wf(grouped(files)),
        all_files(grouped(files)) == files.to_multiset(),
    decreases files.len(),
{
    broadcast use vstd::seq_lib::group_to_multiset_ensures;

    if files.len() > 0 {
        let (init, last) = (files.drop_last(), files.last());
        law_groups_are_partitions(init);
        let groups = grouped(init);
        let partition = partition_of(last);
        lemma_group_position(groups, partition);
        assert(files =~= init.push(last));
        match group_position(groups, partition) {
            Some(at) => {
                lemma_all_files_update(groups, at, last);
                let next = groups.update(at, groups[at].push(last));
                assert(grouped(files) == next);
                assert forall|i: int, k: int|
                    0 <= i < next.len() && 0 <= k < next[i].len() implies partition_of(
                    #[trigger] next[i][k],
                ) == partition_of(next[i][0]) by {
                    if i == at && k < groups[at].len() {
                        assert(partition_of(groups[i][k]) == partition_of(groups[i][0]));
                    } else if i != at {
                        assert(next[i] == groups[i]);
                        assert(partition_of(groups[i][k]) == partition_of(groups[i][0]));
                    }
                }
                assert forall|i: int| 0 <= i < next.len() implies (#[trigger] next[i]).len() > 0
                    && next[i][0] == groups[i][0] by {
                    assert(groups[i].len() > 0);
                }
            },
            None => {
                lemma_all_files_push(groups, seq![last]);
                let next = groups.push(seq![last]);
                assert(Seq::<DataFile>::empty().push(last) =~= seq![last]);
                assert(seq![last].to_multiset() =~= Multiset::empty().insert(last));
                assert(all_files(next) =~= init.to_multiset().insert(last));
                assert forall|i: int, k: int|
                    0 <= i < next.len() && 0 <= k < next[i].len() implies partition_of(
                    #[trigger] next[i][k],
                ) == partition_of(next[i][0]) by {
                    if i < groups.len() {
                        assert(next[i] == groups[i]);
                        assert(partition_of(groups[i][k]) == partition_of(groups[i][0]));
                    }
                }
                assert forall|i: int, j: int| 0 <= i < j < next.len() implies partition_of(
                    (#[trigger] next[i])[0],
                ) != partition_of((#[trigger] next[j])[0]) by {
                    assert(next[i] == groups[i]);
                    if j < groups.len() {
                        assert(next[j] == groups[j]);
                    }
                }
            },
        }
    } else {
        assert(all_files(grouped(files)) =~= files.to_multiset());
    }
}

/// Whether files stand in descending order of size.
pub open spec fn descending(files: Seq<DataFile>) -> bool {
    forall|i: int, j: int|
        0 <= i < j < files.len() ==> (#[trigger] files[i]).file_size_in_bytes >= (
        #[trigger] files[j]).file_size_in_bytes
}

proof fn lemma_placed(files: Seq<DataFile>, file: DataFile)
    ensures
        placed(files, file).to_multiset() == files.to_multiset().insert(file),
        placed(files, file).len() == files.len() + 1,
        descending(files) ==> descending(placed(files, file)),
        forall|i: int| 0 <= i < placed(files, file).len() ==> (files.contains(
            #[trigger] placed(files, file)[i],
        ) || placed(files, file)[i] == file),
    decreases files.len(),
{
    broadcast use vstd::seq_lib::group_to_multiset_ensures;

    if files.len() == 0 || files.last().file_size_in_bytes >= file.file_size_in_bytes {
        let result = files.push(file);
        assert(placed(files, file) == result);
        assert forall|i: int| 0 <= i < result.len() implies (files.contains(#[trigger] result[i])
            || result[i] == file) by {
            if i < files.len() {
                assert(files[i] == result[i]);
            }
        }
        if descending(files) {
            assert forall|i: int, j: int| 0 <= i < j < result.len() implies (
            #[trigger] result[i]).file_size_in_bytes >= (
            #[trigger] result[j]).file_size_in_bytes by {
                if j == files.len() && i < files.len() - 1 {
                    assert(files[i].file_size_in_bytes >= files[files.len()
                        - 1].file_size_in_bytes);
                }
            }
        }
    } else {
        let (init, last) = (files.drop_last(), files.last());
        lemma_placed(init, file);
        let before = placed(init, file);
        let result = before.push(last);
        assert(placed(files, file) == result);
        assert(files =~= init.push(last));
        assert(result.to_multiset() =~= files.to_multiset().insert(file));
        assert forall|i: int| 0 <= i < result.len() implies (files.contains(#[trigger] result[i])
            || result[i] == file) by {
            if i < before.len() {
                assert(before[i] == result[i]);
                if init.contains(before[i]) {
                    let k = choose|k: int| 0 <= k < init.len() && init[k] == before[i];
                    assert(files[k] == result[i]);
                }
            } else {
                assert(files[files.len() - 1] == result[i]);
            }
        }
        if descending(files) {
            assert(descending(init));
            assert forall|i: int, j: int| 0 <= i < j < result.len() implies (
            #[trigger] result[i]).file_size_in_bytes >= (
            #[trigger] result[j]).file_size_in_bytes by {
                assert(result[i] == before[i]);
                if j < before.len() {
                    assert(result[j] == before[j]);
                } else if init.contains(before[i]) {
                    let k = choose|k: int| 0 <= k < init.len() && init[k] == before[i];
                    assert(files[k].file_size_in_bytes >= files[files.len()
                        - 1].file_size_in_bytes);
                }
            }
        }
    }
}

/// Ordering by size loses no file.
pub proof fn law_files_are_ordered(files: Seq<DataFile>)
    ensures
        by_size(files).to_multiset() == files.to_multiset(),
        by_size(files).len() == files.len(),
        descending(by_size(files)),
    decreases files.len(),
{
    broadcast use vstd::seq_lib::group_to_multiset_ensures;

    if files.len() > 0 {
        law_files_are_ordered(files.drop_last());
        lemma_placed(by_size(files.drop_last()), files.last());
        assert(files =~= files.drop_last().push(files.last()));
    }
}

/// Whether a batch keeps within the target, unless it is one file alone.
pub open spec fn within_target(batch: Seq<DataFile>, target: int) -> bool {
    batch.len() > 0 && (batch.len() == 1 || total_size(batch) <= target)
}

/// Packing loses no file, and no batch of several files exceeds the target.
pub proof fn law_batches_keep_within_target(files: Seq<DataFile>, target: int)
    ensures
        all_files(packed(files, target)) == files.to_multiset(),
        forall|i: int|
            0 <= i < packed(files, target).len() ==> within_target(
                #[trigger] packed(files, target)[i],
                target,
            ),
    decreases files.len(),
{
    broadcast use vstd::seq_lib::group_to_multiset_ensures;

    if files.len() > 0 {
        let (init, last) = (files.drop_last(), files.last());
        law_batches_keep_within_target(init, target);
        let batches = packed(init, target);
        assert(files =~= init.push(last));
        if batches.len() == 0 || total_size(batches.last()) + last.file_size_in_bytes > target {
            lemma_all_files_push(batches, seq![last]);
            assert(Seq::<DataFile>::empty().push(last) =~= seq![last]);
            assert(seq![last].to_multiset() =~= Multiset::empty().insert(last));
            assert(all_files(batches.push(seq![last])) =~= files.to_multiset());
            let next = batches.push(seq![last]);
            assert(packed(files, target) == next);
            assert forall|i: int| 0 <= i < next.len() implies within_target(
                #[trigger] next[i],
                target,
            ) by {
                if i < batches.len() {
                    assert(next[i] == batches[i]);
                }
            }
        } else {
            let at = batches.len() - 1;
            let grown = batches.last().push(last);
            let next = batches.drop_last().push(grown);
            assert(packed(files, target) == next);
            assert(next =~= batches.update(at, batches[at].push(last)));
            lemma_all_files_update(batches, at, last);
            assert(grown.drop_last() =~= batches.last());
            assert(within_target(grown, target));
            assert forall|i: int| 0 <= i < next.len() implies within_target(
                #[trigger] next[i],
                target,
            ) by {
                if i < at {
                    assert(next[i] == batches[i]);
                }
            }
        }
    } else {
        assert(all_files(packed(files, target)) =~= files.to_multiset());
    }
}

proof fn lemma_packed_groups(groups: Seq<Seq<DataFile>>, target: int)
    ensures
        all_files(packed_groups(groups, target)) == all_files(groups),
        forall|i: int|
            0 <= i < packed_groups(groups, target).len() ==> within_target(
                #[trigger] packed_groups(groups, target)[i],
                target,
            ),
    decreases groups.len(),
{
    if groups.len() > 0 {
        let before = packed_groups(groups.drop_last(), target);
        let added = packed(by_size(groups.last()), target);
        lemma_packed_groups(groups.drop_last(), target);
        law_files_are_ordered(groups.last());
        law_batches_keep_within_target(by_size(groups.last()), target);
        lemma_all_files_add(before, added);
        let result = before + added;
        assert(packed_groups(groups, target) == result);
        assert forall|i: int| 0 <= i < result.len() implies within_target(
            #[trigger] result[i],
            target,
        ) by {
            if i < before.len() {
                assert(result[i] == before[i]);
            } else {
                assert(result[i] == added[i - before.len()]);
            }
        }
    }
}

/// Compaction loses no file: the batches hold the small files, each as often as it was given,
/// and no batch of several files exceeds the target.
pub proof fn law_compaction_keeps_files(files: Seq<DataFile>, target: int)
    ensures
        all_files(packed_groups(grouped(files), target)) == files.to_multiset(),
        forall|i: int|
            0 <= i < packed_groups(grouped(files), target).len() ==> within_target(
                #[trigger] packed_groups(grouped(files), target)[i],
                target,
            ),
{
    law_groups_are_partitions(files);
    lemma_packed_groups(grouped(files), target);
}

/// Whether files are all in the given partition.
pub open spec fn in_partition(files: Seq<DataFile>, partition: Seq<Seq<char>>) -> bool {
    forall|k: int| 0 <= k < files.len() ==> partition_of(#[trigger] files[k]) == partition
}

proof fn lemma_sorted_partition(files: Seq<DataFile>, partition: Seq<Seq<char>>)
    requires
        in_partition(files, partition),
    ensures
        in_partition(by_size(files), partition),
    decreases files.len(),
{
    if files.len() > 0 {
        let (init, last) = (files.drop_last(), files.last());
        assert forall|k: int| 0 <= k < init.len() implies partition_of(#[trigger] init[k])
            == partition by {
            assert(init[k] == files[k]);
        }
        lemma_sorted_partition(init, partition);
        let before = by_size(init);
        lemma_placed(before, last);
        assert(partition_of(files[files.len() - 1]) == partition);
        assert forall|k: int| 0 <= k < by_size(files).len() implies partition_of(
            #[trigger] by_size(files)[k],
        ) == partition by {
            let file = placed(before, last)[k];
            if before.contains(file) {
                let j = choose|j: int| 0 <= j < before.len() && before[j] == file;
                assert(partition_of(before[j]) == partition);
            }
        }
    }
}

proof fn lemma_packed_partition(files: Seq<DataFile>, target: int, partition: Seq<Seq<char>>)
    requires
        in_partition(files, partition),
    ensures
        forall|i: int|
            0 <= i < packed(files, target).len() ==> in_partition(
                #[trigger] packed(files, target)[i],
                partition,
            ),
    decreases files.len(),
{
    if files.len() > 0 {
        let (init, last) = (files.drop_last(), files.last());
        assert forall|k: int| 0 <= k < init.len() implies partition_of(#[trigger] init[k])
            == partition by {
            assert(init[k] == files[k]);
        }
        lemma_packed_partition(init, target, partition);
        assert(partition_of(files[files.len() - 1]) == partition);
        let batches = packed(init, target);
        let next = packed(files, target);
        assert forall|i: int| 0 <= i < next.len() implies in_partition(
            #[trigger] next[i],
            partition,
        ) by {
            if i < batches.len() && next[i] == batches[i] {
                assert(in_partition(batches[i], partition));
            } else if i < batches.len() {
                assert(in_partition(batches[i], partition));
                assert(i == batches.len() - 1);
                assert(next[i] == batches[i].push(last));
            } else {
                assert(next[i] == seq![last]);
            }
        }
    }
}

proof fn lemma_groups_partition(groups: Seq<Seq<DataFile>>, target: int)
    requires
        forall|i: int|
            0 <= i < groups.len() ==> in_partition(
                #[trigger] groups[i],
                partition_of(groups[i][0]),
            ),
    ensures
        forall|i: int|
            0 <= i < packed_groups(groups, target).len() ==> in_partition(
                #[trigger] packed_groups(groups, target)[i],
                partition_of(packed_groups(groups, target)[i][0]),
            ),
    decreases groups.len(),
{
    if groups.len() > 0 {
        let init = groups.drop_last();
        assert forall|i: int| 0 <= i < init.len() implies in_partition(
            #[trigger] init[i],
            partition_of(init[i][0]),
        ) by {
            assert(init[i] == groups[i]);
        }
        lemma_groups_partition(init, target);
        let before = packed_groups(init, target);
        let group = groups[groups.len() - 1];
        let partition = partition_of(group[0]);
        lemma_sorted_partition(group, partition);
        lemma_packed_partition(by_size(group), target, partition);
        law_batches_keep_within_target(by_size(group), target);
        let added = packed(by_size(group), target);
        let result = before + added;
        assert(packed_groups(groups, target) == result);
        assert forall|i: int| 0 <= i < result.len() implies in_partition(
            #[trigger] result[i],
            partition_of(result[i][0]),
        ) by {
            if i < before.len() {
                assert(result[i] == before[i]);
            } else {
                assert(result[i] == added[i - before.len()]);
                assert(within_target(added[i - before.len()], target));
                assert(partition_of(result[i][0]) == partition);
            }
        }
    }
}

/// The files of a batch are all in one partition, so the file that they are merged into
/// belongs there too.
pub proof fn law_batches_stay_in_a_partition(files: Seq<DataFile>, target: int)
    ensures
        forall|i: int|
            0 <= i < packed_groups(grouped(files), target).len() ==> in_partition(
                #[trigger] packed_groups(grouped(files), target)[i],
                partition_of(packed_groups(grouped(files), target)[i][0]),
            ),
{
    law_groups_are_partitions(files);
    let groups = grouped(files);
    assert forall|i: int| 0 <= i < groups.len() implies in_partition(
        #[trigger] groups[i],
        partition_of(groups[i][0]),
    ) by {
        assert forall|k: int| 0 <= k < groups[i].len() implies partition_of(
            #[trigger] groups[i][k],
        ) == partition_of(groups[i][0]) by {}
    }
    lemma_groups_partition(groups, target);
}

/// Whether a batch and the first file of the next one are too large together for one batch.
pub open spec fn filled(batch: Seq<DataFile>, next: Seq<DataFile>, target: int) -> bool {
    total_size(batch) + next[0].file_size_in_bytes > target
}

/// The files of a list of lists, one list behind the other.
pub open spec fn joined(lists: Seq<Seq<DataFile>>) -> Seq<DataFile>
    decreases lists.len(),
{
    if lists.len() == 0 {
        Seq::empty()
    } else {
        joined(lists.drop_last()) + lists.last()
    }
}

/// Packing starts a batch only where the file does not fit into the one before: a batch and the
/// first file of the next exceed the target together. The batches hold the files in their order.
pub proof fn law_packing_fills_batches(files: Seq<DataFile>, target: int)
    ensures
        forall|i: int, j: int|
            0 <= i && j == i + 1 && j < packed(files, target).len() ==> filled(
                #[trigger] packed(files, target)[i],
                #[trigger] packed(files, target)[j],
                target,
            ),
        joined(packed(files, target)) == files,
        files.len() > 0 ==> packed(files, target).len() > 0,
    decreases files.len(),
{
    if files.len() > 0 {
        let (init, last) = (files.drop_last(), files.last());
        law_packing_fills_batches(init, target);
        law_batches_keep_within_target(init, target);
        let batches = packed(init, target);
        let next = packed(files, target);
        let at = batches.len() - 1;
        if batches.len() == 0 || total_size(batches.last()) + last.file_size_in_bytes > target {
            assert(next.drop_last() =~= batches);
            assert(next.last() == seq![last]);
            assert(joined(next) == joined(next.drop_last()) + next.last());
            assert forall|i: int, j: int| 0 <= i && j == i + 1 && j < next.len() implies filled(
                #[trigger] next[i],
                #[trigger] next[j],
                target,
            ) by {
                assert(next[i] == batches[i]);
                if j < batches.len() {
                    assert(next[j] == batches[j]);
                }
            }
        } else {
            assert(next.drop_last() =~= batches.drop_last());
            assert(next.last() == batches.last().push(last));
            assert(joined(batches) == joined(batches.drop_last()) + batches.last());
            assert(joined(next) == joined(next.drop_last()) + next.last());
            assert(within_target(batches[at], target));
            assert forall|i: int, j: int| 0 <= i && j == i + 1 && j < next.len() implies filled(
                #[trigger] next[i],
                #[trigger] next[j],
                target,
            ) by {
                assert(next[i] == batches[i]);
                assert(filled(batches[i], batches[j], target));
                assert(next[j][0] == batches[j][0]);
            }
        }
        assert(init.push(last) =~= files);
        assert(joined(next) =~= init.push(last));
    } else {
        assert(joined(packed(files, target)) =~= files);
    }
}

/// Files that fit into one batch together make one.
pub proof fn law_small_totals_make_one_batch(files: Seq<DataFile>, target: int)
    requires
        files.len() > 0,
        total_size(files) <= target,
    ensures
        packed(files, target) == seq![files],
    decreases files.len(),
{
    let (init, last) = (files.drop_last(), files.last());
    if init.len() > 0 {
        law_small_totals_make_one_batch(init, target);
        assert(seq![init].last() == init);
        assert(init.push(last) =~= files);
        assert(seq![init].drop_last().push(files) =~= seq![files]);
    } else {
        assert(seq![last] =~= files);
        assert(packed(init, target).push(files) =~= seq![files]);
    }
}

/// The batches of a group are those of its files: where the groups are of different partitions,
/// the batches of one partition stand together, and they are the packed files of its group.
proof fn lemma_batches_of_groups(groups: Seq<Seq<DataFile>>, target: int)
    requires
        groups_wf(groups),
    ensures
        forall|i: int, j: int|
            0 <= i && j == i + 1 && j < packed_groups(groups, target).len() && partition_of(
                (#[trigger] packed_groups(groups, target)[i])[0],
            ) == partition_of((#[trigger] packed_groups(groups, target)[j])[0]) ==> filled(
                packed_groups(groups, target)[i],
                packed_groups(groups, target)[j],
                target,
            ),
        forall|i: int|
            0 <= i < packed_groups(groups, target).len() ==> exists|g: int|
                0 <= g < groups.len() && partition_of((#[trigger] groups[g])[0]) == partition_of(
                    (#[trigger] packed_groups(groups, target)[i])[0],
                ),
        forall|i: int|
            0 <= i < packed_groups(groups, target).len() ==> (#[trigger] packed_groups(
                groups,
                target,
            )[i]).len() > 0,
    decreases groups.len(),
{
    if groups.len() > 0 {
        let init = groups.drop_last();
        let g = groups.len() - 1;
        let group = groups[g];
        let partition = partition_of(group[0]);
        assert(groups_wf(init)) by {
            assert forall|i: int, k: int|
                0 <= i < init.len() && 0 <= k < init[i].len() implies partition_of(
                #[trigger] init[i][k],
            ) == partition_of(init[i][0]) by {
                assert(init[i] == groups[i]);
                assert(partition_of(groups[i][k]) == partition_of(groups[i][0]));
            }
            assert forall|i: int| 0 <= i < init.len() implies (#[trigger] init[i]).len() > 0 by {
                assert(groups[i].len() > 0);
            }
            assert forall|i: int, j: int| 0 <= i < j < init.len() implies partition_of(
                (#[trigger] init[i])[0],
            ) != partition_of((#[trigger] init[j])[0]) by {
                assert(partition_of(groups[i][0]) != partition_of(groups[j][0]));
            }
        }
        lemma_batches_of_groups(init, target);
        let before = packed_groups(init, target);
        let added = packed(by_size(group), target);
        assert(in_partition(group, partition)) by {
            assert forall|k: int| 0 <= k < group.len() implies partition_of(#[trigger] group[k])
                == partition by {
                assert(partition_of(groups[g][k]) == partition_of(groups[g][0]));
            }
        }
        lemma_sorted_partition(group, partition);
        lemma_packed_partition(by_size(group), target, partition);
        law_batches_keep_within_target(by_size(group), target);
        law_packing_fills_batches(by_size(group), target);
        let result = packed_groups(groups, target);
        assert(result == before + added);
        assert forall|i: int| 0 <= i < added.len() implies (#[trigger] added[i]).len() > 0
            && partition_of(added[i][0]) == partition by {
            assert(within_target(added[i], target));
            assert(in_partition(added[i], partition));
        }
        assert forall|i: int| 0 <= i < result.len() implies exists|g: int|
            0 <= g < groups.len() && partition_of((#[trigger] groups[g])[0]) == partition_of(
                (#[trigger] result[i])[0],
            ) by {
            if i < before.len() {
                assert(result[i] == before[i]);
                let h = choose|h: int|
                    0 <= h < init.len() && partition_of((#[trigger] init[h])[0]) == partition_of(
                        before[i][0],
                    );
                assert(groups[h] == init[h]);
            } else {
                assert(result[i] == added[i - before.len()]);
                assert(partition_of(groups[g][0]) == partition_of(result[i][0]));
            }
        }
        assert forall|i: int| 0 <= i < result.len() implies (#[trigger] result[i]).len() > 0 by {
            if i < before.len() {
                assert(result[i] == before[i]);
            } else {
                assert(result[i] == added[i - before.len()]);
            }
        }
        assert forall|i: int, j: int|
            0 <= i && j == i + 1 && j < result.len() && partition_of((#[trigger] result[i])[0])
                == partition_of((#[trigger] result[j])[0]) implies filled(
            result[i],
            result[j],
            target,
        ) by {
            if j < before.len() {
                assert(result[i] == before[i] && result[j] == before[j]);
            } else if i >= before.len() {
                assert(result[i] == added[i - before.len()]);
                assert(result[j] == added[j - before.len()]);
            } else {
                assert(result[i] == before[i] && result[j] == added[0]);
                let h = choose|h: int|
                    0 <= h < init.len() && partition_of((#[trigger] init[h])[0]) == partition_of(
                        before[i][0],
                    );
                assert(groups[h] == init[h]);
                assert(partition_of(groups[h][0]) != partition_of(groups[g][0]));
            }
        }
    }
}

/// Compaction does not leave files apart that fit together: of two consecutive batches of the
/// same partition, the first and the first file of the second exceed the target together.
pub proof fn law_compaction_fills_batches(files: Seq<DataFile>, target: int)
    ensures
        forall|i: int, j: int|
            0 <= i && j == i + 1 && j < packed_groups(grouped(files), target).len() && texts(
                (#[trigger] packed_groups(grouped(files), target)[i])[0].partition@,
            ) == texts((#[trigger] packed_groups(grouped(files), target)[j])[0].partition@)
                ==> total_size(packed_groups(grouped(files), target)[i]) + packed_groups(
                grouped(files),
                target,
            )[j][0].file_size_in_bytes > target,
{
    law_groups_are_partitions(files);
    lemma_batches_of_groups(grouped(files), target);
    let result = packed_groups(grouped(files), target);
    assert forall|i: int, j: int|
        0 <= i && j == i + 1 && j < result.len() && texts((#[trigger] result[i])[0].partition@)
            == texts((#[trigger] result[j])[0].partition@) implies total_size(result[i])
        + result[j][0].file_size_in_bytes > target by {
        assert(partition_of(result[i][0]) == partition_of(result[j][0]));
        assert(filled(result[i], result[j], target));
    }
}

proof fn lemma_one_partition_one_group(files: Seq<DataFile>, partition: Seq<Seq<char>>)
    requires
        in_partition(files, partition),
        files.len() > 0,
    ensures
        grouped(files) == seq![files],
    decreases files.len(),
{
    let (init, last) = (files.drop_last(), files.last());
    assert forall|k: int| 0 <= k < init.len() implies partition_of(#[trigger] init[k])
        == partition by {
        assert(init[k] == files[k]);
    }
    assert(partition_of(files[files.len() - 1]) == partition);
    if init.len() > 0 {
        lemma_one_partition_one_group(init, partition);
        let groups = seq![init];
        lemma_group_position(groups, partition);
        assert(partition_of(groups[0][0]) == partition) by {
            assert(groups[0][0] == files[0]);
        }
        assert(group_position(groups, partition) == Some(0int));
        assert(init.push(last) =~= files);
        assert(groups.update(0, files) =~= seq![files]);
    } else {
        assert(seq![last] =~= files);
        assert(grouped(init) =~= Seq::<Seq<DataFile>>::empty());
        assert(Seq::<Seq<DataFile>>::empty().push(files) =~= seq![files]);
    }
}

/// Files of one partition that fit into one batch together make exactly one, which holds them
/// from the largest to the smallest.
pub proof fn law_small_partitions_make_one_batch(files: Seq<DataFile>, target: int)
    requires
        files.len() > 0,
        forall|k: int|
            0 <= k < files.len() ==> texts((#[trigger] files[k]).partition@) == texts(
                files[0].partition@,
            ),
        total_size(files) <= target,
    ensures
        packed_groups(grouped(files), target).len() == 1,
        packed_groups(grouped(files), target)[0].to_multiset() == files.to_multiset(),
        descending(packed_groups(grouped(files), target)[0]),
{
    let partition = partition_of(files[0]);
    assert(in_partition(files, partition));
    lemma_one_partition_one_group(files, partition);
    law_files_are_ordered(files);
    lemma_sorted_size(files);
    law_small_totals_make_one_batch(by_size(files), target);
    let groups = seq![files];
    assert(groups.drop_last() =~= Seq::<Seq<DataFile>>::empty());
    assert(packed_groups(groups.drop_last(), target) =~= Seq::<Seq<DataFile>>::empty());
    assert(packed_groups(groups, target) =~= seq![by_size(files)]);
}

/// The size of files in all is that of each of them added up, whatever their order.
pub proof fn law_total_size(a: Seq<DataFile>, b: Seq<DataFile>, file: DataFile)
    ensures
        total_size(Seq::empty()) == 0,
        total_size(seq![file]) == file.file_size_in_bytes,
        total_size(a + b) == total_size(a) + total_size(b),
        total_size(by_size(a)) == total_size(a),
{
    lemma_total_size_add(a, b);
    lemma_sorted_size(a);
    assert(seq![file].drop_last() =~= Seq::<DataFile>::empty());
    assert(total_size(Seq::<DataFile>::empty()) == 0);
}

/// The files of a partition keep their order in its group, and the groups that of their first
/// files.
pub proof fn law_groups_keep_order(files: Seq<DataFile>)
    ensures
        forall|g: int|
            0 <= g < grouped(files).len() ==> #[trigger] grouped(files)[g] == files.filter(
                |file: DataFile|
                    texts(file.partition@) == texts(grouped(files)[g][0].partition@),
            ),
        grouped(files).len() > 0 <==> files.len() > 0,
        files.len() > 0 ==> grouped(files)[0][0] == files[0],
    decreases files.len(),
{
    reveal(Seq::filter);
    if files.len() > 0 {
        let (init, last) = (files.drop_last(), files.last());
        let partition = partition_of(last);
        law_groups_keep_order(init);
        law_groups_are_partitions(init);
        law_groups_are_partitions(files);
        let groups = grouped(init);
        let next = grouped(files);
        lemma_group_position(groups, partition);
        assert forall|g: int| 0 <= g < next.len() implies #[trigger] next[g] == files.filter(
            |file: DataFile| texts(file.partition@) == texts(next[g][0].partition@),
        ) by {
            let same = |file: DataFile| texts(file.partition@) == texts(next[g][0].partition@);
            if g < groups.len() {
                assert(groups[g].len() > 0);
                let earlier = |file: DataFile|
                    texts(file.partition@) == texts(groups[g][0].partition@);
                assert(next[g][0] == groups[g][0]);
                assert(same =~= earlier);
                assert(groups[g] == init.filter(earlier));
                match group_position(groups, partition) {
                    Some(at) => {
                        if g == at {
                            assert(same(last));
                        } else if g < at {
                            assert(partition_of(groups[g][0]) != partition_of(groups[at][0]));
                            assert(!same(last));
                        } else {
                            assert(partition_of(groups[at][0]) != partition_of(groups[g][0]));
                            assert(!same(last));
                        }
                    },
                    None => {
                        assert(!same(last));
                    },
                }
            } else {
                assert(next[g] == seq![last]);
                assert(init.filter(same).len() == 0) by {
                    if init.filter(same).len() > 0 {
                        broadcast use vstd::seq_lib::group_filter_ensures;

                        let file = init.filter(same)[0];
                        assert(same(file));
                        assert(init.filter(same).contains(file));
                        init.lemma_filter_contains_rev(same, file);
                        let k = choose|k: int| 0 <= k < init.len() && init[k] == file;
                        lemma_grouped_somewhere(init, k);
                        let h = choose|h: int|
                            0 <= h < groups.len() && partition_of((#[trigger] groups[h])[0])
                                == partition_of(init[k]);
                        assert(partition_of(groups[h][0]) != partition);
                    }
                }
                assert(init.filter(same).push(last) =~= seq![last]);
            }
        }
        if init.len() > 0 {
            assert(groups[0].len() > 0);
        }
    }
}

proof fn lemma_grouped_somewhere(files: Seq<DataFile>, k: int)
    requires
        0 <= k < files.len(),
    ensures
        exists|g: int|
            0 <= g < grouped(files).len() && partition_of((#[trigger] grouped(files)[g])[0])
                == partition_of(files[k]),
    decreases files.len(),
{
    let (init, last) = (files.drop_last(), files.last());
    let groups = grouped(init);
    let next = grouped(files);
    law_groups_are_partitions(init);
    lemma_group_position(groups, partition_of(last));
    if k < init.len() {
        lemma_grouped_somewhere(init, k);
        let g = choose|g: int|
            0 <= g < groups.len() && partition_of((#[trigger] groups[g])[0]) == partition_of(
                init[k],
            );
        assert(groups[g].len() > 0);
        assert(partition_of(next[g][0]) == partition_of(files[k]));
    } else {
        match group_position(groups, partition_of(last)) {
            Some(at) => {
                assert(groups[at].len() > 0);
                assert(partition_of(next[at][0]) == partition_of(files[k]));
            },
            None => {
                assert(next[groups.len() as int] == seq![last]);
            },
        }
    }
}

/// Whether a file has the given size.
pub open spec fn is_of_size(size: u64) -> spec_fn(DataFile) -> bool {
    |file: DataFile| file.file_size_in_bytes == size
}

/// Files of the same size keep their order.
pub proof fn law_files_of_one_size_keep_order(files: Seq<DataFile>, size: u64)
    ensures
        by_size(files).filter(is_of_size(size)) == files.filter(is_of_size(size)),
    decreases files.len(),
{
    reveal(Seq::filter);
    if files.len() > 0 {
        law_files_of_one_size_keep_order(files.drop_last(), size);
        law_files_are_ordered(files.drop_last());
        let before = by_size(files.drop_last());
        lemma_placed_keeps_order(before, files.last(), size);
        assert(before.push(files.last()).drop_last() =~= before);
    }
}

proof fn lemma_placed_keeps_order(files: Seq<DataFile>, file: DataFile, size: u64)
    requires
        descending(files),
    ensures
        placed(files, file).filter(is_of_size(size)) == files.push(file).filter(is_of_size(size)),
    decreases files.len(),
{
    reveal(Seq::filter);
    let of_size = is_of_size(size);
    if files.len() > 0 && files.last().file_size_in_bytes < file.file_size_in_bytes {
        let (init, last) = (files.drop_last(), files.last());
        lemma_placed_keeps_order(init, file, size);
        let before = placed(init, file);
        assert(before.push(last).drop_last() =~= before);
        assert(init.push(file).drop_last() =~= init);
        assert(files.push(file).drop_last() =~= files);
        assert(before.filter(of_size) == init.push(file).filter(of_size));
        assert(!(of_size(last) && of_size(file)));
        assert(placed(files, file) == before.push(last));
        assert(init.push(file).last() == file);
        assert(before.push(last).last() == last);
        assert(files.push(file).last() == file);
        if of_size(file) {
            assert(before.push(last).filter(of_size) == init.filter(of_size).push(file));
            assert(files.push(file).filter(of_size) == files.filter(of_size).push(file));
        } else if of_size(last) {
            assert(before.push(last).filter(of_size) == init.filter(of_size).push(last));
            assert(files.push(file).filter(of_size) == files.filter(of_size));
        } else {
            assert(before.push(last).filter(of_size) == init.filter(of_size));
            assert(files.push(file).filter(of_size) == files.filter(of_size));
            assert(files.filter(of_size) == init.filter(of_size));
        }
    }
}

/// The contents of a list of lists.
pub open spec fn group_views(groups: Seq<Vec<DataFile>>) -> Seq<Seq<DataFile>> {
    groups.map_values(|group: Vec<DataFile>| group@)
}

fn group_files(files: Vec<DataFile>) -> (groups: Vec<Vec<DataFile>>)
    ensures
        group_views(groups@) == grouped(files@),
{
    let ghost all = files@;
    let mut groups: Vec<Vec<DataFile>> = Vec::new();
    assert(group_views(groups@) =~= grouped(all.take(0)));
    for file in iter: files
        invariant
            iter.seq() == all,
            group_views(groups@) == grouped(all.take(iter.index())),
    {
        let ghost n = iter.index();
        let ghost before = group_views(groups@);
        let ghost partition = partition_of(file);
        proof {
            assert(all.take(n + 1).drop_last() =~= all.take(n));
            assert(all.take(n + 1).last() == file);
            law_groups_are_partitions(all.take(n));
            assert forall|i: int| 0 <= i < groups@.len() implies (
            #[trigger] groups@[i])@.len() > 0 by {
                assert(before[i].len() > 0);
            }
        }
        let count: usize = groups.len();
        let mut at: usize = 0;
        while at < count && !same_texts(&groups[at][0].partition, &file.partition)
            invariant
                count == groups@.len(),
                at <= count,
                before == group_views(groups@),
                groups_wf(before),
                partition == partition_of(file),
                group_position(before.take(at as int), partition) is None,
                forall|i: int| 0 <= i < count ==> (#[trigger] groups@[i])@ == before[i],
                forall|i: int| 0 <= i < count ==> (#[trigger] groups@[i])@.len() > 0,
            decreases count - at,
        {
            assert(before.take(at + 1).drop_last() =~= before.take(at as int));
            at = at + 1;
        }
        if at < count {
            proof {
                assert(before.take(at + 1).drop_last() =~= before.take(at as int));
                lemma_group_position_prefix(before, at + 1, partition);
            }
            let ghost joined = groups@[at as int]@.push(file);
            groups[at].push(file);
            assert(group_views(groups@) =~= before.update(at as int, joined));
        } else {
            assert(before.take(at as int) =~= before);
            let mut group: Vec<DataFile> = Vec::new();
            group.push(file);
            assert(group@ =~= seq![file]);
            groups.push(group);
            assert(group_views(groups@) =~= before.push(seq![file]));
        }
    }
    assert(all.take(all.len() as int) =~= all);
    groups
}

proof fn lemma_placed_at(files: Seq<DataFile>, file: DataFile, at: int)
    requires
        0 <= at <= files.len(),
        at > 0 ==> files[at - 1].file_size_in_bytes >= file.file_size_in_bytes,
        forall|i: int|
            at <= i < files.len() ==> (#[trigger] files[i]).file_size_in_bytes
                < file.file_size_in_bytes,
    ensures
        placed(files, file) == files.insert(at, file),
    decreases files.len(),
{
    if at == files.len() {
        assert(files.insert(at, file) =~= files.push(file));
    } else {
        assert(files.last().file_size_in_bytes < file.file_size_in_bytes) by {
            assert(files[files.len() - 1].file_size_in_bytes < file.file_size_in_bytes);
        }
        let init = files.drop_last();
        assert forall|i: int| at <= i < init.len() implies (
        #[trigger] init[i]).file_size_in_bytes < file.file_size_in_bytes by {
            assert(init[i] == files[i]);
        }
        lemma_placed_at(init, file, at);
        assert(init.insert(at, file).push(files.last()) =~= files.insert(at, file));
    }
}

fn sort_by_size(files: Vec<DataFile>) -> (sorted: Vec<DataFile>)
    ensures
        sorted@ == by_size(files@),
{
    let ghost all = files@;
    let mut sorted: Vec<DataFile> = Vec::new();
    assert(sorted@ =~= by_size(all.take(0)));
    for file in iter: files
        invariant
            iter.seq() == all,
            sorted@ == by_size(all.take(iter.index())),
    {
        let ghost n = iter.index();
        proof {
            assert(all.take(n + 1).drop_last() =~= all.take(n));
            assert(all.take(n + 1).last() == file);
        }
        let mut at: usize = sorted.len();
        while at > 0 && sorted[at - 1].file_size_in_bytes < file.file_size_in_bytes
            invariant
                at <= sorted@.len(),
                forall|i: int|
                    at <= i < sorted@.len() ==> (#[trigger] sorted@[i]).file_size_in_bytes
                        < file.file_size_in_bytes,
            decreases at,
        {
            at = at - 1;
        }
        proof {
            lemma_placed_at(sorted@, file, at as int);
        }
        sorted.insert(at, file);
    }
    assert(all.take(all.len() as int) =~= all);
    sorted
}

/// The sizes of the parts of a list add up.
proof fn lemma_total_size_add(a: Seq<DataFile>, b: Seq<DataFile>)
    ensures
        total_size(a + b) == total_size(a) + total_size(b),
        0 <= total_size(b),
    decreases b.len(),
{
    if b.len() == 0 {
        assert(a + b =~= a);
    } else {
        lemma_total_size_add(a, b.drop_last());
        assert((a + b).drop_last() =~= a + b.drop_last());
    }
}

proof fn lemma_total_size_take(files: Seq<DataFile>, n: int)
    requires
        0 <= n <= files.len(),
    ensures
        0 <= total_size(files.take(n)) <= total_size(files),
{
    assert(files =~= files.take(n) + files.skip(n));
    lemma_total_size_add(files.take(n), files.skip(n));
    lemma_total_size_add(Seq::empty(), files.take(n));
    assert(Seq::<DataFile>::empty() + files.take(n) =~= files.take(n));
}

proof fn lemma_placed_size(files: Seq<DataFile>, file: DataFile)
    ensures
        total_size(placed(files, file)) == total_size(files) + file.file_size_in_bytes,
    decreases files.len(),
{
    if files.len() == 0 || files.last().file_size_in_bytes >= file.file_size_in_bytes {
        assert(files.push(file).drop_last() =~= files);
    } else {
        lemma_placed_size(files.drop_last(), file);
        let before = placed(files.drop_last(), file);
        assert(before.push(files.last()).drop_last() =~= before);
    }
}

proof fn lemma_sorted_size(files: Seq<DataFile>)
    ensures
        total_size(by_size(files)) == total_size(files),
    decreases files.len(),
{
    if files.len() > 0 {
        lemma_sorted_size(files.drop_last());
        lemma_placed_size(by_size(files.drop_last()), files.last());
    }
}

/// The size of the files of several lists.
spec fn sizes(lists: Seq<Seq<DataFile>>) -> int
    decreases lists.len(),
{
    if lists.len() == 0 {
        0
    } else {
        sizes(lists.drop_last()) + total_size(lists.last())
    }
}

proof fn lemma_sizes_update(lists: Seq<Seq<DataFile>>, i: int, file: DataFile)
    requires
        0 <= i < lists.len(),
    ensures
        sizes(lists.update(i, lists[i].push(file))) == sizes(lists) + file.file_size_in_bytes,
    decreases lists.len(),
{
    let updated = lists.update(i, lists[i].push(file));
    if i == lists.len() - 1 {
        assert(updated.drop_last() =~= lists.drop_last());
        assert(lists[i].push(file).drop_last() =~= lists[i]);
    } else {
        lemma_sizes_update(lists.drop_last(), i, file);
        assert(updated.drop_last() =~= lists.drop_last().update(i, lists[i].push(file)));
    }
}

proof fn lemma_grouped_sizes(files: Seq<DataFile>)
    ensures
        sizes(grouped(files)) == total_size(files),
    decreases files.len(),
{
    if files.len() > 0 {
        let (init, last) = (files.drop_last(), files.last());
        lemma_grouped_sizes(init);
        let groups = grouped(init);
        lemma_group_position(groups, partition_of(last));
        match group_position(groups, partition_of(last)) {
            Some(at) => lemma_sizes_update(groups, at, last),
            None => {
                assert(groups.push(seq![last]).drop_last() =~= groups);
                assert(seq![last].drop_last() =~= Seq::<DataFile>::empty());
                assert(total_size(Seq::<DataFile>::empty()) == 0);
                assert(total_size(seq![last]) == last.file_size_in_bytes);
            },
        }
    }
}

proof fn lemma_size_of_one(lists: Seq<Seq<DataFile>>, i: int)
    requires
        0 <= i < lists.len(),
    ensures
        0 <= total_size(lists[i]) <= sizes(lists),
    decreases lists.len(),
{
    lemma_total_size_take(lists.last(), 0);
    if i < lists.len() - 1 {
        lemma_size_of_one(lists.drop_last(), i);
    } else if lists.len() > 1 {
        lemma_size_of_one(lists.drop_last(), 0);
    } else {
        assert(sizes(lists.drop_last()) == 0);
    }
}

/// The last of the batches and those before it, as one list.
spec fn with_current(batches: Seq<CompactBatch>, current: Seq<DataFile>) -> Seq<Seq<DataFile>> {
    if current.len() == 0 {
        batch_files(batches)
    } else {
        batch_files(batches).push(current)
    }
}

fn new_batch(files: Vec<DataFile>, total_size: u64) -> (batch: CompactBatch)
    requires
        files@.len() > 0,
        total_size == self::total_size(files@),
    ensures
        batch.wf(),
        batch.files@ == files@,
{
    let partition_values = duplicate_texts(&files[0].partition);
    let partition_spec_id = files[0].partition_spec_id;
    CompactBatch {
        partition_dir: String::new(),
        partition_values,
        files,
        total_size,
        partition_spec_id,
    }
}

fn pack_files(batches: &mut Vec<CompactBatch>, files: Vec<DataFile>, target: u64)
    requires
        total_size(files@) <= u64::MAX,
        forall|i: int| 0 <= i < old(batches)@.len() ==> (#[trigger] old(batches)@[i]).wf(),
    ensures
        batch_files(final(batches)@) == batch_files(old(batches)@) + packed(files@, target as int),
        forall|i: int| 0 <= i < final(batches)@.len() ==> (#[trigger] final(batches)@[i]).wf(),
{
    let ghost all = files@;
    let ghost start = batch_files(batches@);
    let mut current: Vec<DataFile> = Vec::new();
    let mut current_size: u64 = 0;
    assert(with_current(batches@, current@) =~= start + packed(all.take(0), target as int));
    for file in iter: files
        invariant
            iter.seq() == all,
            total_size(all) <= u64::MAX,
            with_current(batches@, current@) == start + packed(
                all.take(iter.index()),
                target as int,
            ),
            current@.len() == 0 <==> packed(all.take(iter.index()), target as int).len() == 0,
            current_size == total_size(current@),
            current_size <= total_size(all.take(iter.index())),
            forall|i: int| 0 <= i < batches@.len() ==> (#[trigger] batches@[i]).wf(),
    {
        let ghost n = iter.index();
        let ghost so_far = packed(all.take(n), target as int);
        let ghost held = current@;
        proof {
            assert(all.take(n + 1).drop_last() =~= all.take(n));
            assert(all.take(n + 1).last() == file);
            lemma_total_size_take(all, n + 1);
            lemma_total_size_take(all.take(n), 0);
            if held.len() > 0 {
                let whole = start + so_far;
                assert(whole.last() == held);
                assert(so_far.last() == held);
            }
        }
        if current.len() > 0 && current_size + file.file_size_in_bytes > target {
            let ghost before = batches@;
            let mut full: Vec<DataFile> = Vec::new();
            std::mem::swap(&mut full, &mut current);
            let batch = new_batch(full, current_size);
            batches.push(batch);
            assert(batch_files(batches@) =~= batch_files(before).push(held));
            current_size = 0;
            assert(current@ =~= Seq::<DataFile>::empty());
            assert(total_size(current@) == 0);
            assert(batch_files(batches@) =~= start + so_far);
        }
        let ghost base = current@;
        current_size = current_size + file.file_size_in_bytes;
        current.push(file);
        proof {
            assert(base.push(file).drop_last() =~= base);
            let next = packed(all.take(n + 1), target as int);
            if base.len() == 0 {
                assert(base.push(file) =~= seq![file]);
                assert(next == so_far.push(seq![file]));
                assert(with_current(batches@, current@) =~= start + next);
            } else {
                assert(next == so_far.drop_last().push(held.push(file)));
                assert(batch_files(batches@).push(held) =~= start + so_far);
                assert(batch_files(batches@) =~= (start + so_far).drop_last());
                assert(with_current(batches@, current@) =~= start + next);
            }
        }
    }
    assert(all.take(all.len() as int) =~= all);
    if current.len() > 0 {
        let ghost before = batches@;
        let ghost held = current@;
        let batch = new_batch(current, current_size);
        batches.push(batch);
        assert(batch_files(batches@) =~= batch_files(before).push(held));
    }
}

/// What a compaction is asked to do.
#[derive(Debug)]
pub struct IcebergCompactExec {
    pub table_url: String,
    pub target_file_size: u64,
    pub table_properties: Vec<(String, String)>,
}

impl IcebergCompactExec {
    pub fn new(
        table_url: String,
        target_file_size: Option<u64>,
        table_properties: Vec<(String, String)>,
    ) -> (exec: IcebergCompactExec)
        ensures
            exec.table_url == table_url,
            exec.target_file_size == (match target_file_size {
                Some(size) => size,
                None => DEFAULT_TARGET_FILE_SIZE,
            }),
            exec.table_properties == table_properties,
    {
        let target_file_size: u64 = match target_file_size {
            Some(size) => size,
            None => DEFAULT_TARGET_FILE_SIZE,
        };
        IcebergCompactExec { table_url, target_file_size, table_properties }
    }

    /// Bin-pack small files into compaction batches grouped by partition.
    pub fn bin_pack_files(files: Vec<DataFile>, target_file_size: u64) -> (batches: Vec<
        CompactBatch,
    >)
        requires
            total_size(files@) <= u64::MAX,
        ensures
            batch_files(batches@) == packed_groups(grouped(files@), target_file_size as int),
            forall|i: int| 0 <= i < batches@.len() ==> (#[trigger] batches@[i]).wf(),
    {
        let ghost all = files@;
        proof {
            lemma_grouped_sizes(all);
        }
        let groups = group_files(files);
        let ghost lists = group_views(groups@);
        let ghost vecs = groups@;
        let mut batches: Vec<CompactBatch> = Vec::new();
        assert(batch_files(batches@) =~= packed_groups(lists.take(0), target_file_size as int));
        for group in iter: groups
            invariant
                iter.seq() == vecs,
                lists == group_views(vecs),
                sizes(lists) <= u64::MAX,
                batch_files(batches@) == packed_groups(
                    lists.take(iter.index()),
                    target_file_size as int,
                ),
                forall|i: int| 0 <= i < batches@.len() ==> (#[trigger] batches@[i]).wf(),
        {
            let ghost n = iter.index();
            proof {
                assert(lists.take(n + 1).drop_last() =~= lists.take(n));
                assert(lists[n] == group@);
                lemma_size_of_one(lists, n);
                lemma_sorted_size(group@);
            }
            let sorted = sort_by_size(group);
            pack_files(&mut batches, sorted, target_file_size);
        }
        assert(lists.take(lists.len() as int) =~= lists);
        batches
    }

    /// The data file into which a batch was merged.
    pub fn merged_data_file(file_path: String, batch: &CompactBatch, written: WrittenFile) -> (file:
        DataFile)
        requires
            written.columns <= i32::MAX,
        ensures
            file.file_path == file_path,
            file.content is Data,
            file.partition@ == batch.partition_values@,
            file.partition_spec_id == batch.partition_spec_id,
            describes(file, written),
    {
        written_data_file(
            file_path,
            DataContentType::Data,
            duplicate_texts(&batch.partition_values),
            batch.partition_spec_id,
            written,
        )
    }
}

/// Compaction packs the small files of a table: every file is kept or is in some batch, once; a
/// batch of several files keeps within the target; and of two consecutive batches of a partition
/// the first and the first file of the second exceed it together.
pub proof fn law_compaction_is_tight(
    files: Vec<DataFile>,
    threshold: u64,
    split: SizeSplit,
    target: u64,
    batches: Vec<CompactBatch>,
)
    requires
        call_ensures(split_by_size, (files, threshold), split),
        call_ensures(IcebergCompactExec::bin_pack_files, (split.small, target), batches),
    ensures
        forall|k: int|
            0 <= k < split.small@.len() ==> (#[trigger] split.small@[k]).file_size_in_bytes
                < threshold,
        forall|k: int|
            0 <= k < split.large@.len() ==> (#[trigger] split.large@[k]).file_size_in_bytes
                >= threshold,
        all_files(batch_files(batches@)) == split.small@.to_multiset(),
        forall|i: int|
            0 <= i < batches@.len() && (#[trigger] batches@[i]).files@.len() > 1
                ==> batches@[i].total_size <= target,
        forall|i: int, j: int|
            0 <= i && j == i + 1 && j < batches@.len() && texts(
                (#[trigger] batches@[i]).partition_values@,
            ) == texts((#[trigger] batches@[j]).partition_values@) ==> batches@[i].total_size
                + batches@[j].files@[0].file_size_in_bytes > target,
{
    broadcast use vstd::seq_lib::group_filter_ensures;

    let small = split.small@;
    assert forall|k: int| 0 <= k < small.len() implies (#[trigger] small[k]).file_size_in_bytes
        < threshold by {
        assert(is_small(threshold)(small[k]));
    }
    assert forall|k: int| 0 <= k < split.large@.len() implies (
    #[trigger] split.large@[k]).file_size_in_bytes >= threshold by {
        assert(is_large(threshold)(split.large@[k]));
    }
    law_compaction_keeps_files(small, target as int);
    law_compaction_fills_batches(small, target as int);
    let packed_files = packed_groups(grouped(small), target as int);
    assert forall|i: int|
        0 <= i < batches@.len() && (#[trigger] batches@[i]).files@.len() > 1 implies batches@[i].total_size
        <= target by {
        assert(batch_files(batches@)[i] == packed_files[i]);
        assert(within_target(packed_files[i], target as int));
        assert(batches@[i].wf());
    }
    assert forall|i: int, j: int|
        0 <= i && j == i + 1 && j < batches@.len() && texts(
            (#[trigger] batches@[i]).partition_values@,
        ) == texts((#[trigger] batches@[j]).partition_values@) implies batches@[i].total_size
        + batches@[j].files@[0].file_size_in_bytes > target by {
        assert(batch_files(batches@)[i] == packed_files[i]);
        assert(batch_files(batches@)[j] == packed_files[j]);
        assert(batches@[i].wf());
        assert(batches@[j].wf());
        assert(texts(packed_files[i][0].partition@) == texts(packed_files[j][0].partition@));
    }
}

/// What is compacted are the files below the size, and what stays are all others; where no file is
/// below it, there is nothing to do.
pub proof fn law_small_files_are_compacted(
    files: Vec<DataFile>,
    threshold: u64,
    plan: Option<SizeSplit>,
    file: DataFile,
)
    requires
        call_ensures(plan_compaction, (files, threshold), plan),
    ensures
        plan is None ==> !(files@.contains(file) && file.file_size_in_bytes < threshold),
        plan matches Some(split) ==> {
            &&& split.small@.len() > 0
            &&& split.small@.contains(file) <==> files@.contains(file) && file.file_size_in_bytes
                < threshold
            &&& split.large@.contains(file) <==> files@.contains(file) && file.file_size_in_bytes
                >= threshold
        },
{
    broadcast use vstd::seq_lib::group_filter_ensures;

    let (small, large) = (is_small(threshold), is_large(threshold));
    if files@.filter(small).contains(file) {
        files@.lemma_filter_contains_rev(small, file);
        let i = choose|i: int| 0 <= i < files@.filter(small).len() && files@.filter(small)[i] == file;
        assert(small(files@.filter(small)[i]));
    }
    if files@.filter(large).contains(file) {
        files@.lemma_filter_contains_rev(large, file);
        let i = choose|i: int| 0 <= i < files@.filter(large).len() && files@.filter(large)[i] == file;
        assert(large(files@.filter(large)[i]));
    }
    if files@.contains(file) {
        let i = choose|i: int| 0 <= i < files@.len() && files@[i] == file;
        if file.file_size_in_bytes < threshold {
            assert(small(files@[i]));
            assert(files@.filter(small).contains(files@[i]));
        } else {
            assert(large(files@[i]));
            assert(files@.filter(large).contains(files@[i]));
        }
    }
}

/// A merged file lies in the partition of the files that it is made of, under their spec, and has
/// the rows and the size that were written.
pub proof fn law_merged_files_stay_in_their_partition(
    file_path: String,
    batch: CompactBatch,
    written: WrittenFile,
    file: DataFile,
)
    requires
        call_ensures(IcebergCompactExec::merged_data_file, (file_path, &batch, written), file),
    ensures
        file.file_path == file_path,
        file.content == DataContentType::Data,
        file.partition@ == batch.partition_values@,
        file.partition_spec_id == batch.partition_spec_id,
        file.record_count == written.rows,
        file.file_size_in_bytes == written.size,
{
}

} // verus!
