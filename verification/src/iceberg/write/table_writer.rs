//! The writer of a table: one writer for each partition, and the data files that were written.

use vstd::prelude::*;
use vstd::string::*;

use crate::iceberg::contents::same_texts;
use crate::iceberg::table::DataFile;
use crate::iceberg::write::data_file_writer::{DataFileWriter, ParquetFileMeta, SumOverflow};
use crate::iceberg::write::partition_writer::{
    data_file_location, needs_roll, new_partition_writer_state, write_partition_state,
    BatchAction, PartitionWriterState, WriterConfig,
};

verus! {

use crate::assoc::{
    distinct_keys, dropped, has_key, key_index, lemma_dropped, lemma_key_index, lemma_stored,
    stored, value_of,
};
use crate::iceberg::contents::texts;
use crate::iceberg::write::data_file_writer::{
    aggregate_overflows, aggregates, own_field, AggregatedMetadata,
};
use crate::iceberg::write::partition_writer::{batch_step, located, rolls, writer_start};
use crate::location::url_joined;

/// The writer of a partition.
#[derive(Debug)]
pub struct PartitionWriter {
    pub partition_dir: String,
    pub state: PartitionWriterState,
}

/// The writer of a table.
#[derive(Debug)]
pub struct IcebergTableWriter {
    config: WriterConfig,
    data_url: String,
    partition_spec_id: i32,
    /// The writers, by the values of their partitions.
    writers: Vec<(Vec<String>, PartitionWriter)>,
    written: Vec<DataFile>,
}

/// A writer, by the values and the directory of its partition and its state.
pub open spec fn writer_view() -> spec_fn((Vec<String>, PartitionWriter)) -> (
    Seq<Seq<char>>,
    (Seq<char>, PartitionWriterState),
) {
    |entry: (Vec<String>, PartitionWriter)|
        (texts(entry.0@), (entry.1.partition_dir@, entry.1.state))
}

/// Whether a writer can count the rows of one more batch.
pub open spec fn rows_fit(
    writers: Seq<(Seq<Seq<char>>, (Seq<char>, PartitionWriterState))>,
    values: Seq<Seq<char>>,
    rows: int,
) -> bool {
    value_of(writers, values) matches Some(writer) ==> (writer.1 matches
        PartitionWriterState::Pending { num_rows } ==> num_rows + rows <= usize::MAX)
}

/// The writer of a partition: the one that there is, or else a new one.
pub open spec fn writer_for(
    writers: Seq<(Seq<Seq<char>>, (Seq<char>, PartitionWriterState))>,
    values: Seq<Seq<char>>,
    dir: Seq<char>,
    config: WriterConfig,
) -> (Seq<char>, PartitionWriterState) {
    match value_of(writers, values) {
        Some(writer) => writer,
        None => (dir, writer_start(config)),
    }
}

impl View for IcebergTableWriter {
    type V = Seq<(Seq<Seq<char>>, (Seq<char>, PartitionWriterState))>;

    closed spec fn view(&self) -> Seq<(Seq<Seq<char>>, (Seq<char>, PartitionWriterState))> {
        self.writers@.map_values(writer_view())
    }
}

impl IcebergTableWriter {
    /// There is one writer for each partition.
    #[verifier::type_invariant]
    closed spec fn inv(self) -> bool {
        distinct_keys(self@)
    }

    pub closed spec fn spec_config(self) -> WriterConfig {
        self.config
    }

    pub closed spec fn spec_data_url(self) -> Seq<char> {
        self.data_url@
    }

    pub closed spec fn spec_partition_spec_id(self) -> i32 {
        self.partition_spec_id
    }

    /// The data files that were written.
    pub closed spec fn spec_written(self) -> Seq<DataFile> {
        self.written@
    }

    /// Whether another writer writes to the same table in the same way.
    pub open spec fn same_table(self, other: IcebergTableWriter) -> bool {
        &&& self.spec_config() == other.spec_config()
        &&& self.spec_data_url() == other.spec_data_url()
        &&& self.spec_partition_spec_id() == other.spec_partition_spec_id()
    }

    pub fn new(config: WriterConfig, partition_spec_id: i32, data_url: String) -> (writer:
        IcebergTableWriter)
        ensures
            writer.spec_config() == config,
            writer.spec_partition_spec_id() == partition_spec_id,
            writer.spec_data_url() == data_url@,
            writer@.len() == 0,
            distinct_keys(writer@),
            writer.spec_written().len() == 0,
    {
        IcebergTableWriter {
            config,
            data_url,
            partition_spec_id,
            writers: Vec::new(),
            written: Vec::new(),
        }
    }

    fn find(&self, values: &Vec<String>) -> (at: Option<usize>)
        ensures
            match at {
                Some(i) => has_key(self@, texts(values@)) && i == key_index(
                    self@,
                    texts(values@),
                ) && i < self@.len(),
                None => !has_key(self@, texts(values@)),
            },
    {
        proof {
            use_type_invariant(self);
        }
        for i in 0..self.writers.len()
            invariant
                distinct_keys(self@),
                forall|j: int| 0 <= j < i ==> (#[trigger] self@[j]).0 != texts(values@),
        {
            assert(self@[i as int].0 == texts(self.writers@[i as int].0@));
            if same_texts(&self.writers[i].0, values) {
                proof {
                    lemma_key_index(self@, i as int);
                }
                return Some(i);
            }
        }
        None
    }

    /// Whether a writer can count the rows of one more batch.
    pub fn can_count(&self, values: &Vec<String>, rows: usize) -> (fits: bool)
        ensures
            fits == rows_fit(self@, texts(values@), rows as int),
    {
        match self.find(values) {
            Some(i) => {
                assert(self@[i as int].1.1 == self.writers@[i as int].1.state);
                match self.writers[i].1.state {
                    PartitionWriterState::Pending { num_rows } => num_rows.checked_add(
                        rows,
                    ).is_some(),
                    PartitionWriterState::Open => true,
                }
            },
            None => true,
        }
    }

    /// Takes a batch for a partition and tells what to do with it.
    pub fn begin_batch(&mut self, values: Vec<String>, partition_dir: String, rows: usize) -> (action:
        BatchAction)
        requires
            rows_fit(old(self)@, texts(values@), rows as int),
        ensures
            final(self).same_table(*old(self)),
            final(self).spec_written() == old(self).spec_written(),
            ({
                let current = writer_for(
                    old(self)@,
                    texts(values@),
                    partition_dir@,
                    old(self).spec_config(),
                );
                let next = batch_step(old(self).spec_config(), current.1, rows as int);
                &&& action == next.1
                &&& final(self)@ == stored(old(self)@, texts(values@), (current.0, next.0))
            }),
            distinct_keys(old(self)@),
            distinct_keys(final(self)@),
    {
        proof {
            use_type_invariant(&*self);
        }
        let at = self.find(&values);
        let ghost before = self@;
        let ghost key = texts(values@);
        let mut writers: Vec<(Vec<String>, PartitionWriter)> = Vec::new();
        assert(writers@.map_values(writer_view()) =~= Seq::empty());
        std::mem::swap(&mut writers, &mut self.writers);
        assert(writers@.map_values(writer_view()) == before);
        let action = match at {
            Some(i) => {
                assert(before[i as int] == writer_view()(writers@[i as int]));
                let (state, action) = write_partition_state(
                    &self.config,
                    writers[i].1.state,
                    rows,
                );
                let dir = writers[i].1.partition_dir.clone();
                let ghost former = writers@;
                writers.set(i, (values, PartitionWriter { partition_dir: dir, state }));
                proof {
                    lemma_stored(before, key, (dir@, state));
                    assert(writers@.map_values(writer_view()) =~= former.map_values(
                        writer_view(),
                    ).update(i as int, (key, (dir@, state))));
                }
                action
            },
            None => {
                let start = new_partition_writer_state(&self.config);
                let (state, action) = write_partition_state(&self.config, start, rows);
                let ghost former = writers@;
                proof {
                    lemma_stored(before, key, (partition_dir@, state));
                }
                let ghost dir = partition_dir@;
                writers.push((values, PartitionWriter { partition_dir, state }));
                assert(writers@.map_values(writer_view()) =~= former.map_values(
                    writer_view(),
                ).push((key, (dir, state))));
                action
            },
        };
        self.writers = writers;
        action
    }

    /// Whether the file of a partition is closed, given its size after a batch; and where it
    /// goes. The partition then has no writer until the next batch.
    pub fn end_batch(&mut self, values: &Vec<String>, buffered_size: u64) -> (closed: Option<String>)
        ensures
            final(self).same_table(*old(self)),
            final(self).spec_written() == old(self).spec_written(),
            match value_of(old(self)@, texts(values@)) {
                Some(writer) => if rolls(old(self).spec_config(), writer.1, buffered_size as int) {
                    &&& closed matches Some(dir) && dir@ == writer.0
                    &&& final(self)@ == dropped(old(self)@, texts(values@))
                } else {
                    closed is None && final(self)@ == old(self)@
                },
                None => closed is None && final(self)@ == old(self)@,
            },
            distinct_keys(old(self)@),
            distinct_keys(final(self)@),
    {
        proof {
            use_type_invariant(&*self);
        }
        match self.find(values) {
            Some(i) => {
                assert(self@[i as int] == writer_view()(self.writers@[i as int]));
                if !needs_roll(&self.config, self.writers[i].1.state, buffered_size) {
                    return None;
                }
                let ghost before = self@;
                let mut writers: Vec<(Vec<String>, PartitionWriter)> = Vec::new();
                assert(writers@.map_values(writer_view()) =~= Seq::empty());
                std::mem::swap(&mut writers, &mut self.writers);
                assert(writers@.map_values(writer_view()) == before);
                let ghost former = writers@;
                let (_, writer) = writers.remove(i);
                proof {
                    lemma_dropped(before, texts(values@));
                    assert(writers@.map_values(writer_view()) =~= former.map_values(
                        writer_view(),
                    ).remove(i as int));
                }
                self.writers = writers;
                Some(writer.partition_dir)
            },
            None => None,
        }
    }

    /// Adds the data file of a file that was written to the given path.
    pub fn record(&mut self, path: &str, values: Vec<String>, meta: ParquetFileMeta) -> (result: Result<
        (),
        SumOverflow,
    >)
        ensures
            final(self).same_table(*old(self)),
            final(self)@ == old(self)@,
            match result {
                Ok(_) => {
                    let file = final(self).spec_written().last();
                    &&& final(self).spec_written() == old(self).spec_written().push(file)
                    &&& file.content is Data
                    &&& file.file_format is Parquet
                    &&& file.file_path@ == located(
                        old(self).spec_data_url(),
                        path@,
                        url_joined(old(self).spec_data_url(), "./"@ + path@),
                    )
                    &&& file.partition == values
                    &&& file.partition_spec_id == old(self).spec_partition_spec_id()
                    &&& file.record_count == meta.num_rows
                    &&& file.file_size_in_bytes == meta.file_size
                    &&& aggregates(
                        (AggregatedMetadata {
                            column_sizes: file.column_sizes,
                            value_counts: file.value_counts,
                            null_value_counts: file.null_value_counts,
                            split_offsets: file.split_offsets,
                        }),
                        meta.row_groups@,
                        own_field(),
                    )
                    &&& file.nan_value_counts@.len() == 0
                    &&& file.lower_bounds@.len() == 0
                    &&& file.upper_bounds@.len() == 0
                    &&& file.block_size_in_bytes is None
                    &&& file.key_metadata is None
                    &&& file.equality_ids@.len() == 0
                    &&& file.sort_order_id is None
                    &&& file.first_row_id is None
                    &&& file.referenced_data_file is None
                    &&& file.content_offset is None
                    &&& file.content_size_in_bytes is None
                },
                Err(_) => aggregate_overflows(meta.row_groups@, own_field())
                    && final(self).spec_written() == old(self).spec_written(),
            },
    {
        proof {
            use_type_invariant(&*self);
        }
        let file_path = data_file_location(self.data_url.as_str(), path);
        let writer = DataFileWriter::new(self.partition_spec_id, file_path, values);
        match writer.finish(meta) {
            Ok(outcome) => {
                let mut written: Vec<DataFile> = Vec::new();
                std::mem::swap(&mut written, &mut self.written);
                written.push(outcome.data_file);
                self.written = written;
                Ok(())
            },
            Err(e) => Err(e),
        }
    }

    /// The partitions whose files are still open or not yet begun, with where they go. They are
    /// closed one by one at the end, and no writer is left.
    pub fn take_open(&mut self) -> (open: Vec<(Vec<String>, PartitionWriter)>)
        ensures
            open@.map_values(writer_view()) == old(self)@,
            final(self)@.len() == 0,
            final(self).same_table(*old(self)),
            final(self).spec_written() == old(self).spec_written(),
    {
        let mut open: Vec<(Vec<String>, PartitionWriter)> = Vec::new();
        assert(open@.map_values(writer_view()) =~= Seq::empty());
        std::mem::swap(&mut open, &mut self.writers);
        open
    }

    /// The data files that were written, in order.
    pub fn close(self) -> (written: Vec<DataFile>)
        ensures
            written@ == self.spec_written(),
    {
        self.written
    }
}

/// Batches of one partition leave the writers of all others as they are.
pub proof fn law_partitions_are_written_apart(
    writers: Seq<(Seq<Seq<char>>, (Seq<char>, PartitionWriterState))>,
    values: Seq<Seq<char>>,
    other: Seq<Seq<char>>,
    writer: (Seq<char>, PartitionWriterState),
)
    requires
        distinct_keys(writers),
        values != other,
    ensures
        value_of(stored(writers, values, writer), other) == value_of(writers, other),
        value_of(dropped(writers, values), other) == value_of(writers, other),
{
    lemma_stored(writers, values, writer);
    lemma_dropped(writers, values);
}

} // verus!
