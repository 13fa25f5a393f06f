//! Reading the data files that a manifest scan names, some at a time.

use vstd::prelude::*;
use vstd::string::*;

use crate::iceberg::columns::without_column;
use crate::iceberg::contents::duplicate_texts;

verus! {

use crate::iceberg::columns::other_column;
use crate::iceberg::contents::texts;

/// How many files to accumulate before a scan is built.
pub const SCAN_CHUNK_FILES: usize = 1024;

/// What to do next.
#[derive(Debug)]
pub enum ScanAction {
    /// Take the next batch of the scan that is under way.
    PollScan,
    /// Start a scan of the given files.
    StartScan { files: Vec<(String, u64)> },
    /// Take the next batch of file metadata.
    PullInput,
    /// Hand out a batch without rows.
    EmitEmpty,
    /// There is nothing more to hand out.
    Finish,
}

/// The state of a scan over the files that come in.
#[derive(Debug)]
pub struct ScanByDataFilesState {
    /// Pending files (path, size in bytes) accumulated from the metadata.
    pending_files: Vec<(String, u64)>,
    /// Whether a scan is under way.
    scanning: bool,
    /// Whether the metadata has been fully consumed.
    input_done: bool,
    /// Whether at least one (possibly empty) batch was handed out.
    emitted: bool,
}

/// The state of a scan, by its contents.
#[verifier::ext_equal]
pub struct ScanView {
    pub pending: Seq<(String, u64)>,
    pub scanning: bool,
    pub input_done: bool,
    pub emitted: bool,
}

impl View for ScanByDataFilesState {
    type V = ScanView;

    closed spec fn view(&self) -> ScanView {
        ScanView {
            pending: self.pending_files@,
            scanning: self.scanning,
            input_done: self.input_done,
            emitted: self.emitted,
        }
    }
}

/// Whether a scan of the pending files starts: there are enough of them, or no more will come.
pub open spec fn starts_scan(state: ScanView) -> bool {
    !state.scanning && state.pending.len() > 0 && (state.pending.len() >= SCAN_CHUNK_FILES
        || state.input_done)
}

/// What is done next in a state, and the state after it. The files are those that a scan is started
/// of, where one is.
pub open spec fn next_step(
    before: ScanView,
    action: ScanAction,
    files: Seq<(String, u64)>,
    after: ScanView,
) -> bool {
    if before.scanning {
        action is PollScan && after == before
    } else if starts_scan(before) {
        action is StartScan && files == before.pending && after == (ScanView {
            pending: Seq::empty(),
            scanning: true,
            ..before
        })
    } else if !before.input_done {
        action is PullInput && after == before
    } else if !before.emitted {
        action is EmitEmpty && after == (ScanView { emitted: true, ..before })
    } else {
        action is Finish && after == before
    }
}

impl ScanByDataFilesState {
    pub fn new() -> (state: ScanByDataFilesState)
        ensures
            state@ == (ScanView {
                pending: Seq::empty(),
                scanning: false,
                input_done: false,
                emitted: false,
            }),
    {
        let state = ScanByDataFilesState {
            pending_files: Vec::new(),
            scanning: false,
            input_done: false,
            emitted: false,
        };
        assert(state@.pending =~= Seq::<(String, u64)>::empty());
        state
    }

    /// What to do next. The scan that is under way comes first; then a scan of the pending
    /// files, where there are enough of them or no more will come; then more metadata. Where
    /// all is read, a batch without rows is handed out if no batch was.
    pub fn next_action(&mut self) -> (action: ScanAction)
        ensures
            ({
                let before = old(self)@;
                let after = final(self)@;
                match action {
                    ScanAction::PollScan => before.scanning && after == before,
                    ScanAction::StartScan { files } => starts_scan(before) && files@
                        == before.pending && after == (ScanView {
                        pending: Seq::empty(),
                        scanning: true,
                        ..before
                    }),
                    ScanAction::PullInput => !before.scanning && !starts_scan(before)
                        && !before.input_done && after == before,
                    ScanAction::EmitEmpty => !before.scanning && !starts_scan(before)
                        && before.input_done && !before.emitted && after == (ScanView {
                        emitted: true,
                        ..before
                    }),
                    ScanAction::Finish => !before.scanning && !starts_scan(before)
                        && before.input_done && before.emitted && after == before,
                }
            }),
            next_step(
                old(self)@,
                action,
                match action {
                    ScanAction::StartScan { files } => files@,
                    _ => Seq::empty(),
                },
                final(self)@,
            ),
    {
        if self.scanning {
            return ScanAction::PollScan;
        }
        let count: usize = self.pending_files.len();
        if count > 0 && (count >= SCAN_CHUNK_FILES || self.input_done) {
            let mut files: Vec<(String, u64)> = Vec::new();
            std::mem::swap(&mut files, &mut self.pending_files);
            self.scanning = true;
            assert(self@.pending =~= Seq::<(String, u64)>::empty());
            return ScanAction::StartScan { files };
        }
        if !self.input_done {
            return ScanAction::PullInput;
        }
        if !self.emitted {
            self.emitted = true;
            return ScanAction::EmitEmpty;
        }
        ScanAction::Finish
    }

    /// The scan has handed out a batch.
    pub fn batch_emitted(&mut self)
        ensures
            final(self)@ == (ScanView { emitted: true, ..old(self)@ }),
    {
        self.emitted = true;
    }

    /// The scan that was under way has ended.
    pub fn scan_ended(&mut self)
        ensures
            final(self)@ == (ScanView { scanning: false, ..old(self)@ }),
    {
        self.scanning = false;
    }

    /// More files have come in.
    pub fn files_arrived(&mut self, files: Vec<(String, u64)>)
        ensures
            final(self)@ == (ScanView { pending: old(self)@.pending + files@, ..old(self)@ }),
    {
        let mut files = files;
        self.pending_files.append(&mut files);
    }

    /// No more files will come in.
    pub fn input_ended(&mut self)
        ensures
            final(self)@ == (ScanView { input_done: true, ..old(self)@ }),
    {
        self.input_done = true;
    }
}

/// What happens to a scan.
pub enum ScanEvent {
    Started { files: Seq<(String, u64)> },
    Emitted,
    ScanEnded,
    Arrived { files: Seq<(String, u64)> },
    InputEnded,
}

/// The state after an event.
pub open spec fn scan_step(state: ScanView, event: ScanEvent) -> ScanView {
    match event {
        ScanEvent::Started { .. } => ScanView {
            pending: Seq::empty(),
            scanning: true,
            ..state
        },
        ScanEvent::Emitted => ScanView { emitted: true, ..state },
        ScanEvent::ScanEnded => ScanView { scanning: false, ..state },
        ScanEvent::Arrived { files } => ScanView { pending: state.pending + files, ..state },
        ScanEvent::InputEnded => ScanView { input_done: true, ..state },
    }
}

/// Whether an event can happen in a state: a scan starts when it is due, and takes all pending
/// files.
pub open spec fn can_happen(state: ScanView, event: ScanEvent) -> bool {
    event matches ScanEvent::Started { files } ==> starts_scan(state) && files == state.pending
}

/// The state after several events.
pub open spec fn scan_run(events: Seq<ScanEvent>) -> ScanView
    decreases events.len(),
{
    if events.len() == 0 {
        ScanView { pending: Seq::empty(), scanning: false, input_done: false, emitted: false }
    } else {
        scan_step(scan_run(events.drop_last()), events.last())
    }
}

/// Whether every event of a course of events can happen when it does.
pub open spec fn scan_possible(events: Seq<ScanEvent>) -> bool
    decreases events.len(),
{
    events.len() == 0 || (scan_possible(events.drop_last()) && can_happen(
        scan_run(events.drop_last()),
        events.last(),
    ))
}

/// The files that have come in.
pub open spec fn arrived_files(events: Seq<ScanEvent>) -> Seq<(String, u64)>
    decreases events.len(),
{
    if events.len() == 0 {
        Seq::empty()
    } else {
        match events.last() {
            ScanEvent::Arrived { files } => arrived_files(events.drop_last()) + files,
            _ => arrived_files(events.drop_last()),
        }
    }
}

/// The files that were scanned.
pub open spec fn scanned_files(events: Seq<ScanEvent>) -> Seq<(String, u64)>
    decreases events.len(),
{
    if events.len() == 0 {
        Seq::empty()
    } else {
        match events.last() {
            ScanEvent::Started { files } => scanned_files(events.drop_last()) + files,
            _ => scanned_files(events.drop_last()),
        }
    }
}

/// Every file that comes in is scanned once, in order: at any time those that came in are
/// those that were scanned and those that are pending. When the scan finishes, none is
/// pending.
pub proof fn law_every_file_is_scanned_once(events: Seq<ScanEvent>)
    requires
        scan_possible(events),
    ensures
        arrived_files(events) == scanned_files(events) + scan_run(events).pending,
        scan_run(events).input_done && !scan_run(events).scanning && !starts_scan(scan_run(events))
            ==> arrived_files(events) == scanned_files(events),
    decreases events.len(),
{
    if events.len() > 0 {
        let init = events.drop_last();
        law_every_file_is_scanned_once(init);
        let before = scan_run(init);
        match events.last() {
            ScanEvent::Arrived { files } => {
                assert((scanned_files(init) + before.pending) + files =~= scanned_files(init) + (
                before.pending + files));
            },
            ScanEvent::Started { files } => {
                assert(scanned_files(events) + Seq::<(String, u64)>::empty() =~= scanned_files(
                    init,
                ) + files);
            },
            _ => {},
        }
        let after = scan_run(events);
        if after.input_done && !after.scanning && !starts_scan(after) {
            assert(after.pending.len() == 0);
            assert(scanned_files(events) + after.pending =~= scanned_files(events));
        }
    } else {
        assert(arrived_files(events) =~= scanned_files(events) + scan_run(events).pending);
    }
}

/// The files among rows of metadata: rows without a path are passed over.
pub open spec fn named_files(paths: Seq<Option<String>>, sizes: Seq<u64>) -> Seq<(String, u64)>
    decreases paths.len(),
{
    if paths.len() == 0 {
        Seq::empty()
    } else {
        let before = named_files(paths.drop_last(), sizes);
        match paths.last() {
            Some(path) => before.push((path, sizes[paths.len() - 1])),
            None => before,
        }
    }
}

/// Extract file paths and sizes from a batch of metadata.
pub fn extract_file_info(paths: &Vec<Option<String>>, sizes: &Vec<u64>) -> (files: Vec<
    (String, u64),
>)
    requires
        paths@.len() == sizes@.len(),
    ensures
        files@ == named_files(paths@, sizes@),
{
    let mut files: Vec<(String, u64)> = Vec::new();
    assert(files@ =~= named_files(paths@.take(0), sizes@));
    for i in 0..paths.len()
        invariant
            paths@.len() == sizes@.len(),
            files@ == named_files(paths@.take(i as int), sizes@),
    {
        assert(paths@.take(i + 1).drop_last() =~= paths@.take(i as int));
        match &paths[i] {
            Some(path) => {
                files.push((path.clone(), sizes[i]));
            },
            None => {},
        }
    }
    assert(paths@.take(paths@.len() as int) =~= paths@);
    files
}

/// A column of the metadata that is missing or of another type.
#[derive(Debug)]
pub struct InvalidMetadataColumn {
    pub column: String,
}

impl InvalidMetadataColumn {
    pub fn message(&self) -> (text: String)
        ensures
            text@ == "IcebergScanByDataFilesExec: missing or invalid '"@ + self.column@
                + "' column"@,
    {
        let mut text = "IcebergScanByDataFilesExec: missing or invalid '".to_owned();
        text.append(self.column.as_str());
        text.append("' column");
        text
    }
}

/// A scan of the data files that a manifest scan names.
#[derive(Debug)]
pub struct IcebergScanByDataFilesExec {
    table_url: String,
    output_schema: Vec<String>,
    file_path_column: Option<String>,
}

/// The columns of a scan: those of the table, then the file path where it is asked for.
pub open spec fn scan_columns(columns: Seq<Seq<char>>, file_path_column: Option<Seq<char>>) -> Seq<
    Seq<char>,
> {
    match file_path_column {
        Some(column) => columns.push(column),
        None => columns,
    }
}

impl IcebergScanByDataFilesExec {
    pub closed spec fn spec_table_url(self) -> String {
        self.table_url
    }

    pub closed spec fn spec_output_schema(self) -> Seq<Seq<char>> {
        texts(self.output_schema@)
    }

    pub closed spec fn spec_file_path_column(self) -> Option<String> {
        self.file_path_column
    }

    pub fn new(table_url: String, output_schema: Vec<String>) -> (exec: IcebergScanByDataFilesExec)
        ensures
            exec.spec_table_url() == table_url,
            exec.spec_output_schema() == texts(output_schema@),
            exec.spec_file_path_column() is None,
    {
        IcebergScanByDataFilesExec::new_with_file_path_column(table_url, output_schema, None)
    }

    pub fn new_with_file_path_column(
        table_url: String,
        output_schema: Vec<String>,
        file_path_column: Option<String>,
    ) -> (exec: IcebergScanByDataFilesExec)
        ensures
            exec.spec_table_url() == table_url,
            exec.spec_output_schema() == scan_columns(
                texts(output_schema@),
                crate::iceberg::contents::optional_text(file_path_column),
            ),
            exec.spec_file_path_column() == file_path_column,
    {
        let ghost before = texts(output_schema@);
        let mut columns = output_schema;
        match &file_path_column {
            Some(column) => {
                columns.push(column.clone());
                assert(texts(columns@) =~= before.push(column@));
            },
            None => {},
        }
        IcebergScanByDataFilesExec { table_url, output_schema: columns, file_path_column }
    }

    pub fn file_path_column(&self) -> (column: &Option<String>)
        ensures
            *column == self.spec_file_path_column(),
    {
        &self.file_path_column
    }

    pub fn table_url(&self) -> (url: &String)
        ensures
            *url == self.spec_table_url(),
    {
        &self.table_url
    }

    pub fn output_schema(&self) -> (columns: &Vec<String>)
        ensures
            texts(columns@) == self.spec_output_schema(),
    {
        &self.output_schema
    }

    /// The columns that are read from the files: all but the file path.
    pub fn file_schema(&self) -> (columns: Vec<String>)
        ensures
            texts(columns@) == (match self.spec_file_path_column() {
                Some(column) => self.spec_output_schema().filter(other_column(column@)),
                None => self.spec_output_schema(),
            }),
    {
        match &self.file_path_column {
            Some(column) => without_column(&self.output_schema, column.as_str()),
            None => duplicate_texts(&self.output_schema),
        }
    }
}

/// A scan starts where none is under way and files are pending: as soon as there are a thousand
/// and twenty-four of them, and for fewer once no more will come.
pub proof fn law_scans_start(state: ScanView)
    ensures
        starts_scan(state) ==> !state.scanning && state.pending.len() > 0,
        !state.scanning && state.pending.len() >= 1024 ==> starts_scan(state),
        !state.scanning && state.pending.len() > 0 && state.input_done ==> starts_scan(state),
        !state.input_done && state.pending.len() < 1024 ==> !starts_scan(state),
{
}

/// The files that rows of metadata name are those of the rows with a path, in their order, each
/// with the size in its row.
pub proof fn law_named_files(paths: Seq<Option<String>>, sizes: Seq<u64>, file: (String, u64))
    ensures
        named_files(paths, sizes).contains(file) <==> exists|i: int|
            0 <= i < paths.len() && #[trigger] paths[i] == Some(file.0) && sizes[i] == file.1,
        named_files(paths, sizes).len() <= paths.len(),
        named_files(paths.push(None), sizes) == named_files(paths, sizes),
        named_files(paths.push(Some(file.0)), sizes) == named_files(paths, sizes) + seq![
            (file.0, sizes[paths.len() as int]),
        ],
    decreases paths.len(),
{
    assert(paths.push(None).drop_last() =~= paths);
    assert(paths.push(Some(file.0)).drop_last() =~= paths);
    assert(named_files(paths, sizes).push((file.0, sizes[paths.len() as int])) =~= named_files(
        paths,
        sizes,
    ) + seq![(file.0, sizes[paths.len() as int])]);
    if paths.len() > 0 {
        let init = paths.drop_last();
        let last = paths.len() - 1;
        law_named_files(init, sizes, file);
        let before = named_files(init, sizes);
        let after = named_files(paths, sizes);
        if before.contains(file) {
            let k = choose|k: int| 0 <= k < before.len() && before[k] == file;
            assert(after[k] == file);
        }
        if after.contains(file) {
            let k = choose|k: int| 0 <= k < after.len() && after[k] == file;
            if k < before.len() {
                assert(before[k] == file);
                let i = choose|i: int|
                    0 <= i < init.len() && #[trigger] init[i] == Some(file.0) && sizes[i] == file.1;
                assert(paths[i] == init[i]);
            } else {
                assert(paths[last] == Some(file.0));
            }
        }
        if exists|i: int|
            0 <= i < paths.len() && #[trigger] paths[i] == Some(file.0) && sizes[i] == file.1 {
            let i = choose|i: int|
                0 <= i < paths.len() && #[trigger] paths[i] == Some(file.0) && sizes[i] == file.1;
            if i < last {
                assert(init[i] == paths[i]);
            } else {
                assert(after[before.len() as int] == file);
            }
        }
    }
}

/// A scan is not left before all is read: it ends only where no scan is under way, no file is
/// pending, no more will come and a batch was handed out. A scan that starts takes all pending
/// files, and no file is pending behind it.
pub proof fn law_scans_end_when_all_is_read(
    before: ScanView,
    action: ScanAction,
    files: Seq<(String, u64)>,
    after: ScanView,
)
    requires
        next_step(before, action, files, after),
    ensures
        action is Finish <==> !before.scanning && before.pending.len() == 0 && before.input_done
            && before.emitted,
        action is EmitEmpty <==> !before.scanning && before.pending.len() == 0 && before.input_done
            && !before.emitted,
        action is EmitEmpty ==> after.emitted,
        action is PollScan <==> before.scanning,
        action is StartScan ==> files == before.pending && files.len() > 0 && after.scanning
            && after.pending.len() == 0,
        !(action is StartScan) ==> after.pending == before.pending && after.scanning
            == before.scanning,
        action is PullInput ==> !before.input_done && before.pending.len() < 1024 && after == before,
        after.input_done == before.input_done,
{
}

/// Each event changes what it is about and nothing else; before any event nothing is pending, no
/// scan is under way, more may come and nothing was handed out.
pub proof fn law_scan_events(state: ScanView, files: Seq<(String, u64)>)
    ensures
        scan_step(state, ScanEvent::Emitted).emitted,
        scan_step(state, ScanEvent::Emitted).pending == state.pending,
        scan_step(state, ScanEvent::Emitted).scanning == state.scanning,
        !scan_step(state, ScanEvent::ScanEnded).scanning,
        scan_step(state, ScanEvent::ScanEnded).emitted == state.emitted,
        scan_step(state, ScanEvent::ScanEnded).pending == state.pending,
        scan_step(state, ScanEvent::InputEnded).input_done,
        scan_step(state, ScanEvent::InputEnded).pending == state.pending,
        scan_step(state, ScanEvent::InputEnded).scanning == state.scanning,
        scan_step(state, ScanEvent::Started { files }).scanning,
        scan_step(state, ScanEvent::Started { files }).pending.len() == 0,
        scan_step(state, ScanEvent::Started { files }).input_done == state.input_done,
        scan_step(state, ScanEvent::Arrived { files }).pending == state.pending + files,
        scan_step(state, ScanEvent::Arrived { files }).input_done == state.input_done,
        ({
            let start = scan_run(Seq::empty());
            start.pending.len() == 0 && !start.scanning && !start.input_done && !start.emitted
        }),
{
}

} // verus!
