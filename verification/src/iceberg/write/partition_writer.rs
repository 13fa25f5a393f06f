//! The writers of a table, one for each partition.

use vstd::prelude::*;
use vstd::string::*;

use crate::location::join_url;
use crate::text::joined;

verus! {

use crate::location::{text_result, url_joined};

/// How far the writer of a partition is. Where columns are shredded by their values, some rows
/// are held back at first to look at.
#[derive(Debug, Clone, Copy, PartialEq, Eq, Structural)]
pub enum PartitionWriterState {
    Pending { num_rows: usize },
    Open,
}

/// What to do with a batch.
#[derive(Debug, Clone, Copy, PartialEq, Eq, Structural)]
pub enum BatchAction {
    /// Hold it back.
    Hold,
    /// Open a file for the rows that were held back and for these, and write them.
    OpenAndWrite,
    /// Write it to the file that is open.
    Write,
}

/// How the writers of a table work.
#[derive(Debug, Clone, Copy, PartialEq, Eq, Structural)]
pub struct WriterConfig {
    /// The size from which on a file is closed; zero for no such size.
    pub target_file_size: u64,
    /// Whether columns are shredded by their values.
    pub shredding_enabled: bool,
    /// How many rows are held back to look at.
    pub inference_buffer_size: usize,
}

/// The state of a new writer.
pub open spec fn writer_start(config: WriterConfig) -> PartitionWriterState {
    if config.shredding_enabled {
        PartitionWriterState::Pending { num_rows: 0 }
    } else {
        PartitionWriterState::Open
    }
}

/// The state of a new writer.
pub fn new_partition_writer_state(config: &WriterConfig) -> (state: PartitionWriterState)
    ensures
        state == writer_start(*config),
{
    if config.shredding_enabled {
        PartitionWriterState::Pending { num_rows: 0 }
    } else {
        PartitionWriterState::Open
    }
}

/// How many rows are held back at least: one, whatever the size.
pub open spec fn held_rows(inference_buffer_size: usize) -> int {
    if inference_buffer_size < 1 {
        1
    } else {
        inference_buffer_size as int
    }
}

/// What to do with a batch of the given number of rows, and the state after it.
pub open spec fn batch_step(config: WriterConfig, state: PartitionWriterState, rows: int) -> (
    PartitionWriterState,
    BatchAction,
) {
    match state {
        PartitionWriterState::Pending { num_rows } => if num_rows + rows >= held_rows(
            config.inference_buffer_size,
        ) {
            (PartitionWriterState::Open, BatchAction::OpenAndWrite)
        } else {
            (
                PartitionWriterState::Pending { num_rows: (num_rows + rows) as usize },
                BatchAction::Hold,
            )
        },
        PartitionWriterState::Open => (PartitionWriterState::Open, BatchAction::Write),
    }
}

/// What to do with a batch, and the state after it.
pub fn write_partition_state(config: &WriterConfig, state: PartitionWriterState, rows: usize) -> (
    next: (PartitionWriterState, BatchAction))
    requires
        state matches PartitionWriterState::Pending { num_rows } ==> num_rows + rows <= usize::MAX,
    ensures
        next == batch_step(*config, state, rows as int),
{
    match state {
        PartitionWriterState::Pending { num_rows } => {
            let total: usize = num_rows + rows;
            let least: usize = if config.inference_buffer_size < 1 {
                1
            } else {
                config.inference_buffer_size
            };
            if total >= least {
                (PartitionWriterState::Open, BatchAction::OpenAndWrite)
            } else {
                (PartitionWriterState::Pending { num_rows: total }, BatchAction::Hold)
            }
        },
        PartitionWriterState::Open => (PartitionWriterState::Open, BatchAction::Write),
    }
}

/// Whether a writer closes its file: it has one, there is a size from which on it does, and the
/// file has reached it.
pub open spec fn rolls(config: WriterConfig, state: PartitionWriterState, size: int) -> bool {
    state is Open && config.target_file_size > 0 && size >= config.target_file_size
}

/// Whether a writer closes its file.
pub fn needs_roll(config: &WriterConfig, state: PartitionWriterState, buffered_size: u64) -> (roll: bool)
    ensures
        roll == rolls(*config, state, buffered_size as int),
{
    matches!(state, PartitionWriterState::Open) && config.target_file_size > 0 && buffered_size
        >= config.target_file_size
}

/// The location of a file with the given path, given what comes of resolving the path.
pub open spec fn located(
    base: Seq<char>,
    path: Seq<char>,
    resolved: Result<Seq<char>, Seq<char>>,
) -> Seq<char> {
    match resolved {
        Ok(location) => location,
        Err(_) => base + path,
    }
}

/// The location of a file with the given path, given what comes of resolving the path: where it
/// cannot be resolved, the path comes behind the base.
pub fn resolved_location(base: &str, path: &str, resolved: Result<String, String>) -> (location:
    String)
    ensures
        location@ == located(base@, path@, text_result(resolved)),
{
    match resolved {
        Ok(location) => location,
        Err(_) => joined(base, path),
    }
}

/// The location of a data file with the given path below the base. The path is marked as
/// relative, so that a colon in its first part is not taken for that of a scheme.
pub fn data_file_location(base: &str, path: &str) -> (location: String)
    ensures
        location@ == located(base@, path@, url_joined(base@, "./"@ + path@)),
{
    let relative = joined("./", path);
    let resolved = join_url(base, relative.as_str());
    resolved_location(base, path, resolved)
}

/// Rows that were held back are written as soon as there are enough of them, and a writer that
/// has opened a file never holds rows back again.
pub proof fn law_open_writers_stay_open(
    config: WriterConfig,
    state: PartitionWriterState,
    rows: usize,
)
    requires
        state matches PartitionWriterState::Pending { num_rows } ==> num_rows + rows <= usize::MAX,
    ensures
        state is Open ==> batch_step(config, state, rows as int) == (
            PartitionWriterState::Open,
            BatchAction::Write,
        ),
        batch_step(config, state, rows as int).0 is Open <==> !(batch_step(
            config,
            state,
            rows as int,
        ).1 is Hold),
        batch_step(config, state, rows as int).0 matches PartitionWriterState::Pending {
            num_rows,
        } ==> num_rows < held_rows(config.inference_buffer_size),
{
}

/// A writer that looks at values holds rows back until there are as many as asked for, and one
/// at least; then it opens a file for all of them. One that does not has a file from the start.
pub proof fn law_rows_are_held_back(config: WriterConfig, held: usize, rows: usize)
    requires
        held + rows <= usize::MAX,
    ensures
        ({
            let next = batch_step(
                config,
                PartitionWriterState::Pending { num_rows: held },
                rows as int,
            );
            let total = held + rows;
            &&& total >= 1 && total >= config.inference_buffer_size ==> next == (
                PartitionWriterState::Open,
                BatchAction::OpenAndWrite,
            )
            &&& total == 0 || total < config.inference_buffer_size ==> next == (
                PartitionWriterState::Pending { num_rows: total as usize },
                BatchAction::Hold,
            )
        }),
        config.shredding_enabled ==> writer_start(config) == (PartitionWriterState::Pending {
            num_rows: 0,
        }),
        !config.shredding_enabled ==> writer_start(config) is Open,
{
}

/// A file is closed as soon as it reaches the size that files are to have, and never where there
/// is no such size. Rows that are held back have no file to close.
pub proof fn law_full_files_are_closed(
    config: WriterConfig,
    state: PartitionWriterState,
    size: int,
    larger: int,
)
    requires
        size <= larger,
    ensures
        config.target_file_size == 0 ==> !rolls(config, state, size),
        !(state is Open) ==> !rolls(config, state, size),
        state is Open && config.target_file_size > 0 ==> (rolls(config, state, size) <==> size
            >= config.target_file_size),
        rolls(config, state, size) ==> rolls(config, state, larger),
{
}

} // verus!
