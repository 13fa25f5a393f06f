//! What writers report of what they wrote, and how the reports of several writers add up.

use vstd::prelude::*;

use crate::iceberg::contents::{
    same_optional_text, same_partition_spec, same_requirements, same_schema, same_text_pairs,
    same_texts,
};
use crate::iceberg::table::{
    DataFile, Operation, PartitionSpec, Schema, TableRequirement, TableUpdate,
};

verus! {

use crate::iceberg::contents::{
    optional_text, requirement_views, text_pairs, texts, PartitionSpecView, RequirementView,
    SchemaView,
};

/// The catalog table that a write goes to.
#[derive(Debug)]
pub struct LakehouseContext {
    pub catalog_table: Vec<String>,
}

impl View for LakehouseContext {
    type V = Seq<Seq<char>>;

    open spec fn view(&self) -> Seq<Seq<char>> {
        texts(self.catalog_table@)
    }
}

/// What a writer reports of what it wrote.
#[derive(Debug)]
pub struct CommitMeta {
    pub table_uri: String,
    pub row_count: u64,
    pub operation: Operation,
    pub requirements: Vec<TableRequirement>,
    pub table_properties: Vec<(String, String)>,
    pub lakehouse_table: Option<LakehouseContext>,
    pub schema: Option<Schema>,
    pub partition_spec: Option<PartitionSpec>,
    pub touched_file_paths: Vec<String>,
    pub overwrite_predicate: Option<String>,
    pub overwrite_partition_values: Option<String>,
}

/// A report but for its row count, by its contents.
#[verifier::ext_equal]
pub struct CommitTarget {
    pub table_uri: Seq<char>,
    pub operation: Operation,
    pub requirements: Seq<RequirementView>,
    pub table_properties: Seq<(Seq<char>, Seq<char>)>,
    pub lakehouse_table: Option<Seq<Seq<char>>>,
    pub schema: Option<SchemaView>,
    pub partition_spec: Option<PartitionSpecView>,
    pub touched_file_paths: Seq<Seq<char>>,
    pub overwrite_predicate: Option<Seq<char>>,
    pub overwrite_partition_values: Option<Seq<char>>,
}

impl CommitMeta {
    /// The report but for its row count.
    pub open spec fn target(self) -> CommitTarget {
        CommitTarget {
            table_uri: self.table_uri@,
            operation: self.operation,
            requirements: requirement_views(self.requirements@),
            table_properties: text_pairs(self.table_properties@),
            lakehouse_table: match self.lakehouse_table {
                Some(context) => Some(context@),
                None => None,
            },
            schema: match self.schema {
                Some(schema) => Some(schema@),
                None => None,
            },
            partition_spec: match self.partition_spec {
                Some(spec) => Some(spec@),
                None => None,
            },
            touched_file_paths: texts(self.touched_file_paths@),
            overwrite_predicate: optional_text(self.overwrite_predicate),
            overwrite_partition_values: optional_text(self.overwrite_partition_values),
        }
    }

    /// Whether two reports agree in all but their row counts.
    pub fn same_target(&self, other: &CommitMeta) -> (same: bool)
        ensures
            same == (self.target() == other.target()),
    {
        let lakehouse = match (&self.lakehouse_table, &other.lakehouse_table) {
            (Some(a), Some(b)) => same_texts(&a.catalog_table, &b.catalog_table),
            (None, None) => true,
            _ => false,
        };
        let schema = match (&self.schema, &other.schema) {
            (Some(a), Some(b)) => same_schema(a, b),
            (None, None) => true,
            _ => false,
        };
        let spec = match (&self.partition_spec, &other.partition_spec) {
            (Some(a), Some(b)) => same_partition_spec(a, b),
            (None, None) => true,
            _ => false,
        };
        let requirements = same_requirements(&self.requirements, &other.requirements);
        let properties = same_text_pairs(&self.table_properties, &other.table_properties);
        let touched = same_texts(&self.touched_file_paths, &other.touched_file_paths);
        let predicate = same_optional_text(&self.overwrite_predicate, &other.overwrite_predicate);
        let values = same_optional_text(
            &self.overwrite_partition_values,
            &other.overwrite_partition_values,
        );
        self.table_uri == other.table_uri && self.operation == other.operation && requirements
            && properties && lakehouse && schema && spec && touched && predicate && values
    }
}

/// Why reports of several writers do not add up.
#[derive(Debug, Clone, Copy, PartialEq, Eq, Structural)]
pub enum MergeError {
    /// The reports disagree in more than their row counts.
    Inconsistent,
    /// The row counts add up to more than can be counted.
    RowCountOverflow,
}

impl MergeError {
    pub open spec fn spec_message(self) -> Seq<char> {
        match self {
            MergeError::Inconsistent => {
                "inconsistent commit_meta actions from Iceberg writer partitions"@
            },
            MergeError::RowCountOverflow => {
                "Iceberg writer row count overflow across partitions"@
            },
        }
    }

    /// The message of the error.
    pub fn message(&self) -> (text: String)
        ensures
            text@ == self.spec_message(),
    {
        match self {
            MergeError::Inconsistent => {
                "inconsistent commit_meta actions from Iceberg writer partitions".to_owned()
            },
            MergeError::RowCountOverflow => {
                "Iceberg writer row count overflow across partitions".to_owned()
            },
        }
    }
}

/// What is committed: the reports of the writers, added up, and the files that they wrote.
#[derive(Debug)]
pub struct IcebergCommitInfo {
    pub table_uri: String,
    pub row_count: u64,
    pub data_files: Vec<DataFile>,
    pub manifest_path: String,
    pub manifest_list_path: String,
    pub updates: Vec<TableUpdate>,
    pub requirements: Vec<TableRequirement>,
    pub table_properties: Vec<(String, String)>,
    pub lakehouse_table: Option<LakehouseContext>,
    pub operation: Operation,
    pub schema: Option<Schema>,
    pub partition_spec: Option<PartitionSpec>,
    /// File paths rewritten by row-level operations. Used to determine which parent
    /// manifests to keep and which to replace when committing.
    pub touched_file_paths: Vec<String>,
    /// The partition column equality pairs of a predicate overwrite, as JSON.
    pub overwrite_predicate: Option<String>,
    /// The partition values rewritten by a dynamic overwrite, as JSON.
    pub overwrite_partition_values: Option<String>,
}

/// The rows that several reports add up to.
pub open spec fn total_rows(metas: Seq<CommitMeta>) -> int
    decreases metas.len(),
{
    if metas.len() == 0 {
        0
    } else {
        total_rows(metas.drop_last()) + metas.last().row_count
    }
}

/// What keeps several reports from adding up, where anything does.
pub open spec fn merge_fault(metas: Seq<CommitMeta>) -> Option<MergeError>
    decreases metas.len(),
{
    if metas.len() == 0 {
        None
    } else {
        match merge_fault(metas.drop_last()) {
            Some(fault) => Some(fault),
            None => if metas.last().target() != metas[0].target() {
                Some(MergeError::Inconsistent)
            } else if total_rows(metas) > u64::MAX {
                Some(MergeError::RowCountOverflow)
            } else {
                None
            },
        }
    }
}

/// What the writers of one write produced.
#[derive(Debug)]
pub struct WriterOutput {
    pub data_files: Vec<DataFile>,
    pub commit_meta: Option<CommitMeta>,
}

/// Commits what the writers of a table produced.
#[derive(Debug)]
pub struct IcebergCommitExec {
    pub table_url: String,
    pub lakehouse_table: Option<LakehouseContext>,
    /// When set, the reported row count overrides the sum of written rows (an update
    /// reports the number of rows matching the predicate).
    pub reported_row_count: Option<u64>,
}

/// What there is to commit.
#[derive(Debug)]
pub enum CommitInput {
    /// Nothing was written.
    Nothing,
    /// Something was written, and so many rows are to be reported.
    Commit { info: IcebergCommitInfo, reported_count: u64 },
}

impl CommitInput {
    /// The rows that are reported once all is done: none where nothing was written.
    pub fn reported_rows(&self) -> (count: u64)
        ensures
            count == (match self {
                CommitInput::Nothing => 0,
                CommitInput::Commit { reported_count, .. } => *reported_count,
            }),
    {
        match self {
            CommitInput::Nothing => 0,
            CommitInput::Commit { reported_count, .. } => *reported_count,
        }
    }
}

impl IcebergCommitExec {
    pub fn new(table_url: String, lakehouse_table: Option<LakehouseContext>) -> (exec: IcebergCommitExec)
        ensures
            exec == (IcebergCommitExec { table_url, lakehouse_table, reported_row_count: None }),
    {
        IcebergCommitExec { table_url, lakehouse_table, reported_row_count: None }
    }

    pub fn new_with_reported_row_count(
        table_url: String,
        lakehouse_table: Option<LakehouseContext>,
        reported_row_count: Option<u64>,
    ) -> (exec: IcebergCommitExec)
        ensures
            exec == (IcebergCommitExec { table_url, lakehouse_table, reported_row_count }),
    {
        IcebergCommitExec { table_url, lakehouse_table, reported_row_count }
    }

    /// Adds the report of one more writer to those before it. All must agree but in their
    /// row counts, which add up.
    pub fn merge_writer_commit_meta(
        accumulated: &mut Option<CommitMeta>,
        incoming: CommitMeta,
    ) -> (result: Result<(), MergeError>)
        ensures
            match *old(accumulated) {
                None => result is Ok && *final(accumulated) == Some(incoming),
                Some(existing) => {
                    if existing.target() != incoming.target() {
                        result == Err::<(), _>(MergeError::Inconsistent) && *final(accumulated)
                            == *old(accumulated)
                    } else if existing.row_count + incoming.row_count > u64::MAX {
                        result == Err::<(), _>(MergeError::RowCountOverflow) && *final(accumulated)
                            == *old(accumulated)
                    } else {
                        result is Ok && *final(accumulated) == Some(
                            CommitMeta {
                                row_count: (existing.row_count + incoming.row_count) as u64,
                                ..existing
                            },
                        )
                    }
                },
            },
    {
        match accumulated {
            None => {
                *accumulated = Some(incoming);
                Ok(())
            },
            Some(existing) => {
                if !existing.same_target(&incoming) {
                    return Err(MergeError::Inconsistent);
                }
                match existing.row_count.checked_add(incoming.row_count) {
                    Some(total) => {
                        existing.row_count = total;
                        Ok(())
                    },
                    None => Err(MergeError::RowCountOverflow),
                }
            },
        }
    }

    /// Adds up the reports of all writers.
    pub fn merge_all(metas: Vec<CommitMeta>) -> (result: Result<Option<CommitMeta>, MergeError>)
        ensures
            match result {
                Ok(merged) => merge_fault(metas@) is None && (match merged {
                    None => metas@.len() == 0,
                    Some(meta) => metas@.len() > 0 && meta.target() == metas@[0].target()
                        && meta.row_count == total_rows(metas@),
                }),
                Err(e) => merge_fault(metas@) == Some(e),
            },
    {
        let mut merged: Option<CommitMeta> = None;
        let ghost all = metas@;
        for meta in iter: metas
            invariant
                iter.seq() == all,
                merge_fault(all.take(iter.index())) is None,
                match merged {
                    None => iter.index() == 0,
                    Some(m) => iter.index() > 0 && m.target() == all[0].target() && m.row_count
                        == total_rows(all.take(iter.index())),
                },
        {
            let ghost n = iter.index();
            proof {
                assert(all.take(n + 1).drop_last() =~= all.take(n));
                assert(all.take(n + 1)[0] == all[0]);
                assert(all.take(n + 1).last() == meta);
                if n == 0 {
                    assert(total_rows(all.take(0)) == 0);
                }
            }
            match IcebergCommitExec::merge_writer_commit_meta(&mut merged, meta) {
                Ok(()) => {},
                Err(e) => {
                    proof {
                        lemma_merge_fault_prefix(all, n + 1);
                    }
                    return Err(e);
                },
            }
        }
        assert(all.take(all.len() as int) =~= all);
        Ok(merged)
    }

    /// What there is to commit, given what the writers produced: nothing where they wrote
    /// no file and reported nothing, and an error where files come without a report.
    pub fn commit_input(self, output: WriterOutput) -> (input: Result<CommitInput, MissingCommitMeta>)
        ensures
            match output.commit_meta {
                None => if output.data_files@.len() == 0 {
                    input == Ok::<_, MissingCommitMeta>(CommitInput::Nothing)
                } else {
                    input is Err
                },
                Some(meta) => input matches Ok(CommitInput::Commit { info, reported_count })
                    && reported_count == (match self.reported_row_count {
                    Some(count) => count,
                    None => meta.row_count,
                }) && info.table_uri == meta.table_uri && info.row_count == meta.row_count
                    && info.data_files == output.data_files && info.updates@.len() == 0
                    && info.requirements == meta.requirements && info.table_properties
                    == meta.table_properties && info.lakehouse_table == (
                match meta.lakehouse_table {
                    Some(context) => Some(context),
                    None => self.lakehouse_table,
                }) && info.operation == meta.operation && info.schema == meta.schema
                    && info.partition_spec == meta.partition_spec && info.touched_file_paths
                    == meta.touched_file_paths && info.overwrite_predicate
                    == meta.overwrite_predicate && info.overwrite_partition_values
                    == meta.overwrite_partition_values && info.manifest_path@.len() == 0
                    && info.manifest_list_path@.len() == 0,
            },
    {
        match output.commit_meta {
            None => if output.data_files.len() == 0 {
                Ok(CommitInput::Nothing)
            } else {
                Err(MissingCommitMeta)
            },
            Some(meta) => {
                let reported_count: u64 = match self.reported_row_count {
                    Some(count) => count,
                    None => meta.row_count,
                };
                let lakehouse_table = match meta.lakehouse_table {
                    Some(context) => Some(context),
                    None => self.lakehouse_table,
                };
                Ok(
                    CommitInput::Commit {
                        info: IcebergCommitInfo {
                            table_uri: meta.table_uri,
                            row_count: meta.row_count,
                            data_files: output.data_files,
                            manifest_path: String::new(),
                            manifest_list_path: String::new(),
                            updates: Vec::new(),
                            requirements: meta.requirements,
                            table_properties: meta.table_properties,
                            lakehouse_table,
                            operation: meta.operation,
                            schema: meta.schema,
                            partition_spec: meta.partition_spec,
                            touched_file_paths: meta.touched_file_paths,
                            overwrite_predicate: meta.overwrite_predicate,
                            overwrite_partition_values: meta.overwrite_partition_values,
                        },
                        reported_count,
                    },
                )
            },
        }
    }
}

/// Files were written and no report came with them.
#[derive(Debug, Clone, Copy, PartialEq, Eq, Structural)]
pub struct MissingCommitMeta;

impl MissingCommitMeta {
    /// The message of the error.
    pub fn message(&self) -> (text: String)
        ensures
            text@ == "missing commit_meta action from writer output"@,
    {
        "missing commit_meta action from writer output".to_owned()
    }
}

proof fn lemma_merge_fault_prefix(metas: Seq<CommitMeta>, n: int)
    requires
        0 <= n <= metas.len(),
    ensures
        merge_fault(metas.take(n)) is Some ==> merge_fault(metas) == merge_fault(metas.take(n)),
    decreases metas.len() - n,
{
    if n < metas.len() {
        assert(metas.take(n + 1).drop_last() =~= metas.take(n));
        lemma_merge_fault_prefix(metas, n + 1);
    } else {
        assert(metas.take(n) =~= metas);
    }
}

/// Reports that add up agree in all but their row counts, and their total can be counted.
pub proof fn law_merged_reports_agree(metas: Seq<CommitMeta>, i: int)
    requires
        merge_fault(metas) is None,
        0 <= i < metas.len(),
    ensures
        metas[i].target() == metas[0].target(),
        total_rows(metas) <= u64::MAX,
    decreases metas.len(),
{
    if i < metas.len() - 1 {
        law_merged_reports_agree(metas.drop_last(), i);
    }
}

/// Reports that agree in all but their row counts are about the same table, operation,
/// requirements, properties, schema, partition spec, touched files and overwritten partitions.
pub proof fn law_agreeing_reports(a: CommitMeta, b: CommitMeta)
    ensures
        a.target() == b.target() <==> {
            &&& a.table_uri@ == b.table_uri@
            &&& a.operation == b.operation
            &&& requirement_views(a.requirements@) == requirement_views(b.requirements@)
            &&& text_pairs(a.table_properties@) == text_pairs(b.table_properties@)
            &&& a.lakehouse_table is Some <==> b.lakehouse_table is Some
            &&& a.lakehouse_table is Some ==> texts(a.lakehouse_table->0.catalog_table@) == texts(
                b.lakehouse_table->0.catalog_table@,
            )
            &&& a.schema is Some <==> b.schema is Some
            &&& a.schema is Some ==> a.schema->0@ == b.schema->0@
            &&& a.partition_spec is Some <==> b.partition_spec is Some
            &&& a.partition_spec is Some ==> a.partition_spec->0@ == b.partition_spec->0@
            &&& texts(a.touched_file_paths@) == texts(b.touched_file_paths@)
            &&& optional_text(a.overwrite_predicate) == optional_text(b.overwrite_predicate)
            &&& optional_text(a.overwrite_partition_values) == optional_text(
                b.overwrite_partition_values,
            )
        },
{
}

/// The rows of reports add up.
pub proof fn law_rows_of_reports(metas: Seq<CommitMeta>, meta: CommitMeta)
    ensures
        total_rows(Seq::empty()) == 0,
        total_rows(metas.push(meta)) == total_rows(metas) + meta.row_count,
        total_rows(metas) >= 0,
    decreases metas.len(),
{
    assert(metas.push(meta).drop_last() =~= metas);
    if metas.len() > 0 {
        law_rows_of_reports(metas.drop_last(), metas.last());
    }
}

/// Reports add up exactly where they agree in all but their row counts and the rows can be
/// counted.
pub proof fn law_reports_add_up(metas: Seq<CommitMeta>)
    ensures
        merge_fault(metas) is None <==> (forall|i: int|
            0 <= i < metas.len() ==> (#[trigger] metas[i]).target() == metas[0].target())
            && total_rows(metas) <= u64::MAX,
    decreases metas.len(),
{
    if metas.len() > 0 {
        let init = metas.drop_last();
        let last = metas.len() - 1;
        law_reports_add_up(init);
        law_rows_of_reports(init, metas.last());
        assert(init.push(metas.last()) =~= metas);
        if merge_fault(metas) is None {
            assert forall|i: int| 0 <= i < metas.len() implies (#[trigger] metas[i]).target()
                == metas[0].target() by {
                if i < last {
                    assert(init[i] == metas[i]);
                }
            }
        }
        if forall|i: int|
            0 <= i < metas.len() ==> (#[trigger] metas[i]).target() == metas[0].target() {
            assert(metas[last].target() == metas[0].target());
            assert forall|i: int| 0 <= i < init.len() implies (#[trigger] init[i]).target()
                == init[0].target() by {
                assert(metas[i].target() == metas[0].target());
            }
        }
    }
}

/// What keeps reports from adding up is found at the first report that does not add to those
/// before it: it disagrees with them, or else the rows can no longer be counted.
pub proof fn law_first_report_that_does_not_add_up(metas: Seq<CommitMeta>, meta: CommitMeta)
    requires
        merge_fault(metas) is None,
        metas.len() > 0,
    ensures
        meta.target() != metas[0].target() ==> merge_fault(metas.push(meta)) == Some(
            MergeError::Inconsistent,
        ),
        meta.target() == metas[0].target() && total_rows(metas) + meta.row_count > u64::MAX
            ==> merge_fault(metas.push(meta)) == Some(MergeError::RowCountOverflow),
        meta.target() == metas[0].target() && total_rows(metas) + meta.row_count <= u64::MAX
            ==> merge_fault(metas.push(meta)) is None,
{
    assert(metas.push(meta).drop_last() =~= metas);
}

/// Reports that are merged agree with the first one, and report the rows of all of them.
pub proof fn law_merged_reports(metas: Vec<CommitMeta>, merged: Result<Option<CommitMeta>, MergeError>)
    requires
        call_ensures(IcebergCommitExec::merge_all, (metas,), merged),
    ensures
        merged is Ok <==> (forall|i: int|
            0 <= i < metas@.len() ==> (#[trigger] metas@[i]).target() == metas@[0].target())
            && total_rows(metas@) <= u64::MAX,
        merged matches Ok(meta) ==> (meta is None <==> metas@.len() == 0),
        (merged matches Ok(meta) && meta is Some) ==> merged->Ok_0->0.row_count == total_rows(
            metas@,
        ) && merged->Ok_0->0.target() == metas@[0].target(),
{
    law_reports_add_up(metas@);
}

/// Something is committed exactly where a report came; files without one are an error, and
/// nothing at all is nothing to commit. The rows of the report are what is reported, unless the
/// commit was given others.
pub proof fn law_reports_are_committed(
    exec: IcebergCommitExec,
    output: WriterOutput,
    input: Result<CommitInput, MissingCommitMeta>,
)
    requires
        call_ensures(IcebergCommitExec::commit_input, (exec, output), input),
    ensures
        input is Err <==> output.commit_meta is None && output.data_files@.len() > 0,
        (input matches Ok(i) && i is Commit) <==> output.commit_meta is Some,
        input matches Ok(CommitInput::Commit { info, reported_count }) ==> {
            &&& info.data_files@ == output.data_files@
            &&& exec.reported_row_count is Some ==> Some(reported_count) == exec.reported_row_count
            &&& exec.reported_row_count is None ==> reported_count
                == output.commit_meta->0.row_count
            &&& info.operation == output.commit_meta->0.operation
            &&& output.commit_meta->0.lakehouse_table is None ==> info.lakehouse_table
                == exec.lakehouse_table
            &&& output.commit_meta->0.lakehouse_table is Some ==> info.lakehouse_table
                == output.commit_meta->0.lakehouse_table
        },
{
}

} // verus!
