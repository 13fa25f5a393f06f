//! Loading files into a table.

use vstd::prelude::*;
use vstd::string::*;

use crate::affix::{ends_with, ends_with_ignore_case, find_char, find_last_char};
use crate::iceberg::commit::meta::{CommitMeta, LakehouseContext};
use crate::iceberg::table::{
    DataContentType, DataFile, DataFileFormat, Operation, TableMetadata, TableRequirement,
};
use crate::location::{join_url, parse_url, store_url};
use crate::ordered::sort_by_key;
use crate::text::joined;

verus! {

use crate::affix::{
    first_position, folded, has_suffix, has_suffix_ignoring_case, last_position, law_positions,
    law_suffixes_ignoring_case,
};
use crate::iceberg::contents::optional_text;
use crate::iceberg::table::law_current_snapshots;
use crate::location::{text_result, url_joined, url_parsed, url_store};
use crate::ordered::{
    by_key, law_entries_are_ordered, lemma_order_with_values, text_le, with_values,
};
use crate::string_map::entries_view;

/// Whether a location names one file, and neither a directory nor a pattern.
pub open spec fn is_single(location: Seq<char>) -> bool {
    !(location.len() > 0 && location.last() == '/') && first_position(location, '*') is None
}

/// Whether a location names one file, and neither a directory nor a pattern.
pub fn is_single_file(location: &str) -> (single: bool)
    ensures
        single == is_single(location@),
{
    let len: usize = location.unicode_len();
    let directory = len > 0 && location.get_char(len - 1) == '/';
    !directory && find_char(location, '*').is_none()
}

/// A text without the given character at its start, however often it stands there.
pub open spec fn without_leading(text: Seq<char>, c: char) -> Seq<char>
    decreases text.len(),
{
    if text.len() > 0 && text[0] == c {
        without_leading(text.skip(1), c)
    } else {
        text
    }
}

/// The directory that a location names, and how the files in it must end. A pattern names the
/// directory before its first star; what comes behind its first stars is how files must end.
pub open spec fn glob_parts(location: Seq<char>) -> (Seq<char>, Option<Seq<char>>) {
    match first_position(location, '*') {
        Some(star) => {
            let cut = match last_position(location.take(star), '/') {
                Some(slash) => slash + 1,
                None => 0,
            };
            let suffix = without_leading(location.skip(star), '*');
            (
                location.take(cut),
                if suffix.len() == 0 {
                    None
                } else {
                    Some(suffix)
                },
            )
        },
        None => (
            if location.len() > 0 && location.last() == '/' {
                location
            } else {
                location.push('/')
            },
            None,
        ),
    }
}

/// Splits a location into the directory to list and how the files in it must end.
pub fn split_glob(location: &str) -> (parts: (String, Option<String>))
    ensures
        (parts.0@, optional_text(parts.1)) == glob_parts(location@),
{
    let len: usize = location.unicode_len();
    match find_char(location, '*') {
        Some(star) => {
            let cut: usize = match find_last_char(location, star, '/') {
                Some(slash) => slash + 1,
                None => 0,
            };
            let prefix = location.substring_char(0, cut).to_owned();
            assert(prefix@ =~= location@.take(cut as int));
            let mut from: usize = star;
            while from < len && location.get_char(from) == '*'
                invariant
                    len == location@.len(),
                    star <= from <= len,
                    without_leading(location@.skip(star as int), '*') == without_leading(
                        location@.skip(from as int),
                        '*',
                    ),
                decreases len - from,
            {
                assert(location@.skip(from as int).skip(1) =~= location@.skip(from + 1));
                from = from + 1;
            }
            let suffix = location.substring_char(from, len).to_owned();
            assert(suffix@ =~= location@.skip(from as int));
            let suffix = if from == len {
                None
            } else {
                Some(suffix)
            };
            (prefix, suffix)
        },
        None => {
            let mut prefix = location.to_owned();
            if !(len > 0 && location.get_char(len - 1) == '/') {
                proof {
                    reveal_strlit("/");
                }
                prefix.append("/");
                assert(prefix@ =~= location@.push('/'));
            }
            (prefix, None)
        },
    }
}

/// The part of a location before its first star.
pub fn source_prefix(location: &str) -> (prefix: String)
    ensures
        prefix@ == (match first_position(location@, '*') {
            Some(star) => location@.take(star),
            None => location@,
        }),
{
    match find_char(location, '*') {
        Some(star) => {
            let prefix = location.substring_char(0, star).to_owned();
            assert(prefix@ =~= location@.take(star as int));
            prefix
        },
        None => location.to_owned(),
    }
}

/// Whether the key of a listed file ends as it must.
pub open spec fn key_ends(suffix: Option<Seq<char>>) -> spec_fn((Seq<char>, u64)) -> bool {
    |file: (Seq<char>, u64)|
        match suffix {
            Some(s) => has_suffix(file.0, s),
            None => true,
        }
}

/// The listed files whose keys end as they must, in order.
pub fn select_files(listed: Vec<(String, u64)>, suffix: &Option<String>) -> (files: Vec<
    (String, u64),
>)
    ensures
        entries_view(files@) == entries_view(listed@).filter(key_ends(optional_text(*suffix))),
{
    let ghost wanted = optional_text(*suffix);
    let ghost all = listed@;
    let ghost views = entries_view(all);
    let mut files: Vec<(String, u64)> = Vec::new();
    assert(entries_view(files@) =~= views.take(0).filter(key_ends(wanted))) by {
        reveal(Seq::filter);
    }
    for file in iter: listed
        invariant
            iter.seq() == all,
            views == entries_view(all),
            wanted == optional_text(*suffix),
            entries_view(files@) == views.take(iter.index()).filter(key_ends(wanted)),
    {
        let ghost n = iter.index();
        let ghost before = entries_view(files@);
        proof {
            reveal(Seq::filter);
            assert(views.take(n + 1).drop_last() =~= views.take(n));
            assert(views.take(n + 1).last() == (file.0@, file.1));
        }
        let ends = match suffix {
            Some(s) => ends_with(file.0.as_str(), s.as_str()),
            None => true,
        };
        if ends {
            files.push(file);
            assert(entries_view(files@) =~= before.push((file.0@, file.1)));
        }
    }
    assert(views.take(views.len() as int) =~= views);
    files
}

/// A file to load.
#[derive(Debug)]
pub struct SourceFile {
    pub key: String,
    pub url: String,
    pub size: u64,
}

/// A file to load, by its key, its location and its size.
pub open spec fn source_view() -> spec_fn(SourceFile) -> (Seq<char>, (Seq<char>, u64)) {
    |file: SourceFile| (file.key@, (file.url@, file.size))
}

/// Why files cannot be loaded.
#[derive(Debug)]
pub enum LoadError {
    InvalidSource { location: String, reason: String },
    MissingSource { location: String, reason: String },
    UnresolvedFile { key: String, reason: String },
    InvalidFile { reason: String },
}

/// Why files cannot be loaded, by its contents.
pub enum LoadFault {
    InvalidSource { location: Seq<char>, reason: Seq<char> },
    MissingSource { location: Seq<char>, reason: Seq<char> },
    UnresolvedFile { key: Seq<char>, reason: Seq<char> },
    InvalidFile { reason: Seq<char> },
}

impl View for LoadError {
    type V = LoadFault;

    open spec fn view(&self) -> LoadFault {
        match self {
            LoadError::InvalidSource { location, reason } => LoadFault::InvalidSource {
                location: location@,
                reason: reason@,
            },
            LoadError::MissingSource { location, reason } => LoadFault::MissingSource {
                location: location@,
                reason: reason@,
            },
            LoadError::UnresolvedFile { key, reason } => LoadFault::UnresolvedFile {
                key: key@,
                reason: reason@,
            },
            LoadError::InvalidFile { reason } => LoadFault::InvalidFile { reason: reason@ },
        }
    }
}

impl LoadFault {
    pub open spec fn text(self) -> Seq<char> {
        match self {
            LoadFault::InvalidSource { location, reason } => "invalid source location '"@ + location
                + "': "@ + reason,
            LoadFault::MissingSource { location, reason } => "source path does not exist: "@
                + location + ": "@ + reason,
            LoadFault::UnresolvedFile { key, reason } => "failed to resolve source URL for "@ + key
                + ": "@ + reason,
            LoadFault::InvalidFile { reason } => "invalid file URL: "@ + reason,
        }
    }
}

impl LoadError {
    pub fn message(&self) -> (text: String)
        ensures
            text@ == self@.text(),
    {
        match self {
            LoadError::InvalidSource { location, reason } => {
                let mut text = "invalid source location '".to_owned();
                text.append(location.as_str());
                text.append("': ");
                text.append(reason.as_str());
                text
            },
            LoadError::MissingSource { location, reason } => {
                let mut text = "source path does not exist: ".to_owned();
                text.append(location.as_str());
                text.append(": ");
                text.append(reason.as_str());
                text
            },
            LoadError::UnresolvedFile { key, reason } => {
                let mut text = "failed to resolve source URL for ".to_owned();
                text.append(key.as_str());
                text.append(": ");
                text.append(reason.as_str());
                text
            },
            LoadError::InvalidFile { reason } => {
                let mut text = "invalid file URL: ".to_owned();
                text.append(reason.as_str());
                text
            },
        }
    }
}

/// The location that is asked for the store of the files: what comes before the first star.
pub fn source_url(location: &str) -> (url: Result<String, LoadError>)
    ensures
        match url_parsed(
            match first_position(location@, '*') {
                Some(star) => location@.take(star),
                None => location@,
            },
        ) {
            Ok(parsed) => url matches Ok(u) && u@ == parsed,
            Err(reason) => url matches Err(e) && e@ == (LoadFault::InvalidSource {
                location: location@,
                reason,
            }),
        },
{
    let prefix = source_prefix(location);
    match parse_url(prefix.as_str()) {
        Ok(url) => Ok(url),
        Err(reason) => Err(LoadError::InvalidSource { location: location.to_owned(), reason }),
    }
}

/// The one file that a location names, given its size or why it was not found.
pub fn single_source(location: &str, key: String, url: String, size: Result<u64, String>) -> (file: Result<
    SourceFile,
    LoadError,
>)
    ensures
        match size {
            Ok(s) => file == Ok::<_, LoadError>(SourceFile { key, url, size: s }),
            Err(reason) => file matches Err(e) && e@ == (LoadFault::MissingSource {
                location: location@,
                reason: reason@,
            }),
        },
{
    match size {
        Ok(size) => Ok(SourceFile { key, url, size }),
        Err(reason) => Err(LoadError::MissingSource { location: location.to_owned(), reason }),
    }
}

/// The location of each file, or why it cannot be resolved.
pub open spec fn text_results(urls: Seq<Result<String, String>>) -> Seq<Result<Seq<char>, Seq<char>>> {
    urls.map_values(|url: Result<String, String>| text_result(url))
}

/// Listed files with their locations.
pub open spec fn located_entries(
    files: Seq<(Seq<char>, u64)>,
    urls: Seq<Result<Seq<char>, Seq<char>>>,
) -> Seq<(Seq<char>, (Seq<char>, u64))> {
    Seq::new(files.len(), |i: int| (files[i].0, (urls[i]->Ok_0, files[i].1)))
}

/// The first file whose location cannot be resolved.
pub open spec fn first_unresolved(
    files: Seq<(Seq<char>, u64)>,
    urls: Seq<Result<Seq<char>, Seq<char>>>,
) -> Option<LoadFault>
    decreases files.len(),
{
    if files.len() == 0 {
        None
    } else {
        match first_unresolved(files.drop_last(), urls) {
            Some(fault) => Some(fault),
            None => match urls[files.len() - 1] {
                Ok(_) => None,
                Err(reason) => Some(LoadFault::UnresolvedFile { key: files.last().0, reason }),
            },
        }
    }
}

proof fn lemma_first_unresolved(
    files: Seq<(Seq<char>, u64)>,
    urls: Seq<Result<Seq<char>, Seq<char>>>,
    n: int,
)
    requires
        0 <= n <= files.len(),
    ensures
        first_unresolved(files.take(n), urls) is Some ==> first_unresolved(files, urls)
            == first_unresolved(files.take(n), urls),
    decreases files.len() - n,
{
    if n < files.len() {
        lemma_first_unresolved(files, urls, n + 1);
        assert(files.take(n + 1).drop_last() =~= files.take(n));
    } else {
        assert(files.take(n) =~= files);
    }
}

/// The value of an entry, with the location by its characters.
spec fn by_text() -> spec_fn((String, u64)) -> (Seq<char>, u64) {
    |value: (String, u64)| (value.0@, value.1)
}

/// The files to load in the order of their keys, given their locations.
pub fn located_files(selected: Vec<(String, u64)>, urls: Vec<Result<String, String>>) -> (files: Result<
    Vec<SourceFile>,
    LoadError,
>)
    requires
        selected@.len() == urls@.len(),
    ensures
        match first_unresolved(entries_view(selected@), text_results(urls@)) {
            Some(fault) => files matches Err(e) && e@ == fault,
            None => files matches Ok(f) && f@.map_values(source_view()) == by_key(
                located_entries(entries_view(selected@), text_results(urls@)),
            ),
        },
{
    let ghost chosen = entries_view(selected@);
    let ghost all = selected@;
    let ghost results = text_results(urls@);
    let ghost all_urls = urls@;
    let n: usize = urls.len();
    let mut entries: Vec<(String, (String, u64))> = Vec::new();
    let mut rest = urls;
    let mut i: usize = 0;
    assert(rest@ =~= all_urls.skip(0));
    assert(with_values(entries_view(entries@), by_text()) =~= located_entries(
        chosen.take(0),
        results,
    ));
    for file in iter: selected
        invariant
            iter.seq() == all,
            all == selected@,
            all_urls == urls@,
            i == iter.index(),
            n == all.len(),
            n == all_urls.len(),
            chosen == entries_view(all),
            results == text_results(all_urls),
            rest@ == all_urls.skip(i as int),
            first_unresolved(chosen.take(i as int), results) is None,
            with_values(entries_view(entries@), by_text()) == located_entries(
                chosen.take(i as int),
                results,
            ),
    {
        proof {
            assert(chosen.take(i + 1).drop_last() =~= chosen.take(i as int));
            assert(chosen[i as int] == (file.0@, file.1));
            lemma_first_unresolved(chosen, results, i + 1);
            assert(results[i as int] == text_result(all_urls[i as int]));
            assert(rest@[0] == all_urls[i as int]);
        }
        let url = rest.remove(0);
        assert(rest@ =~= all_urls.skip(i + 1));
        match url {
            Ok(url) => {
                let ghost before = entries@;
                let ghost text = url@;
                let ghost key = file.0@;
                let ghost size = file.1;
                entries.push((file.0, (url, file.1)));
                proof {
                    assert(with_values(entries_view(entries@), by_text()) =~= with_values(
                        entries_view(before),
                        by_text(),
                    ).push((key, (text, size))));
                    assert(located_entries(chosen.take(i + 1), results) =~= located_entries(
                        chosen.take(i as int),
                        results,
                    ).push((key, (text, size))));
                }
            },
            Err(reason) => {
                return Err(LoadError::UnresolvedFile { key: file.0, reason });
            },
        }
        i = i + 1;
    }
    let ghost unsorted = entries_view(entries@);
    let sorted = sort_by_key(entries);
    let ghost ordered = sorted@;
    proof {
        assert(chosen.take(n as int) =~= chosen);
        lemma_order_with_values(unsorted, by_text());
    }
    let mut files: Vec<SourceFile> = Vec::new();
    assert(files@.map_values(source_view()) =~= with_values(
        entries_view(ordered.take(0)),
        by_text(),
    ));
    for entry in iter: sorted
        invariant
            iter.seq() == ordered,
            files@.map_values(source_view()) == with_values(
                entries_view(ordered.take(iter.index())),
                by_text(),
            ),
    {
        let ghost n = iter.index();
        let ghost before = files@;
        let (key, (url, size)) = entry;
        files.push(SourceFile { key, url, size });
        proof {
            assert(files@.map_values(source_view()) =~= before.map_values(source_view()).push(
                (key@, (url@, size)),
            ));
            assert(with_values(entries_view(ordered.take(n + 1)), by_text()) =~= with_values(
                entries_view(ordered.take(n)),
                by_text(),
            ).push((key@, (url@, size))));
        }
    }
    assert(ordered.take(ordered.len() as int) =~= ordered);
    Ok(files)
}

/// The locations of files seen from a base.
pub open spec fn file_urls(base: Seq<char>, files: Seq<(Seq<char>, u64)>) -> Seq<
    Result<Seq<char>, Seq<char>>,
> {
    files.map_values(|file: (Seq<char>, u64)| url_joined(base, "/"@ + file.0))
}

/// The files below a directory or a pattern that are loaded, in the order of their keys, given
/// what was listed below the directory.
pub fn resolve_source_files(location: &str, listed: Vec<(String, u64)>) -> (files: Result<
    Vec<SourceFile>,
    LoadError,
>)
    ensures
        ({
            let (prefix, suffix) = glob_parts(location@);
            let chosen = entries_view(listed@).filter(key_ends(suffix));
            match url_parsed(prefix) {
                Err(reason) => files matches Err(e) && e@ == (LoadFault::InvalidSource {
                    location: prefix,
                    reason,
                }),
                Ok(base) => match first_unresolved(chosen, file_urls(base, chosen)) {
                    Some(fault) => files matches Err(e) && e@ == fault,
                    None => files matches Ok(f) && f@.map_values(source_view()) == by_key(
                        located_entries(chosen, file_urls(base, chosen)),
                    ),
                },
            }
        }),
{
    let (prefix, suffix) = split_glob(location);
    let base = match parse_url(prefix.as_str()) {
        Ok(base) => base,
        Err(reason) => {
            return Err(LoadError::InvalidSource { location: prefix, reason });
        },
    };
    let selected = select_files(listed, &suffix);
    let ghost chosen = entries_view(selected@);
    let mut urls: Vec<Result<String, String>> = Vec::new();
    for i in 0..selected.len()
        invariant
            chosen == entries_view(selected@),
            urls@.len() == i,
            forall|j: int|
                0 <= j < i ==> text_result(#[trigger] urls@[j]) == url_joined(
                    base@,
                    "/"@ + chosen[j].0,
                ),
    {
        let path = joined("/", selected[i].0.as_str());
        urls.push(join_url(base.as_str(), path.as_str()));
    }
    assert(text_results(urls@) =~= file_urls(base@, chosen));
    located_files(selected, urls)
}

/// The files whose footers are read, and those that are rewritten in any case.
#[derive(Debug)]
pub struct SourceSplit {
    pub candidates: Vec<SourceFile>,
    pub rewritten: Vec<(String, u64)>,
}

/// Whether a file may become part of the table as it is.
pub open spec fn is_candidate(allow_fast: bool) -> spec_fn(SourceFile) -> bool {
    |file: SourceFile| allow_fast && has_suffix(file.url@, ".parquet"@)
}

/// Whether a file is rewritten in any case.
pub open spec fn is_rewritten(allow_fast: bool) -> spec_fn(SourceFile) -> bool {
    |file: SourceFile| !(allow_fast && has_suffix(file.url@, ".parquet"@))
}

/// The location and size of a file.
pub open spec fn located_size() -> spec_fn(SourceFile) -> (String, u64) {
    |file: SourceFile| (file.url, file.size)
}

/// Splits files into those whose footers are read and those that are rewritten in any case.
pub fn split_sources(files: Vec<SourceFile>, allow_fast: bool) -> (split: SourceSplit)
    ensures
        split.candidates@ == files@.filter(is_candidate(allow_fast)),
        split.rewritten@ == files@.filter(is_rewritten(allow_fast)).map_values(located_size()),
{
    let ghost all = files@;
    let mut candidates: Vec<SourceFile> = Vec::new();
    let mut rewritten: Vec<(String, u64)> = Vec::new();
    assert(rewritten@ =~= all.take(0).filter(is_rewritten(allow_fast)).map_values(
        located_size(),
    )) by {
        reveal(Seq::filter);
    }
    for file in iter: files
        invariant
            iter.seq() == all,
            candidates@ == all.take(iter.index()).filter(is_candidate(allow_fast)),
            rewritten@ == all.take(iter.index()).filter(is_rewritten(allow_fast)).map_values(
                located_size(),
            ),
    {
        let ghost n = iter.index();
        let ghost kept = all.take(n).filter(is_rewritten(allow_fast));
        proof {
            reveal(Seq::filter);
            assert(all.take(n + 1).drop_last() =~= all.take(n));
            assert(all.take(n + 1).last() == file);
        }
        if allow_fast && ends_with(file.url.as_str(), ".parquet") {
            candidates.push(file);
        } else {
            assert(kept.push(file).map_values(located_size()) =~= kept.map_values(
                located_size(),
            ).push((file.url, file.size)));
            rewritten.push((file.url, file.size));
        }
    }
    assert(all.take(all.len() as int) =~= all);
    SourceSplit { candidates, rewritten }
}

/// A column and its type.
#[derive(Debug)]
pub struct ColumnType {
    pub name: String,
    /// The type, as text.
    pub data_type: String,
}

/// The position of the first column with the given name.
pub open spec fn column_type_position(columns: Seq<ColumnType>, name: Seq<char>) -> Option<int>
    decreases columns.len(),
{
    if columns.len() == 0 {
        None
    } else if columns[0].name@ == name {
        Some(0)
    } else {
        match column_type_position(columns.skip(1), name) {
            Some(at) => Some(at + 1),
            None => None,
        }
    }
}

/// Whether a file has a column of a table, with the same type.
pub open spec fn has_column(file: Seq<ColumnType>, column: ColumnType) -> bool {
    column_type_position(file, column.name@) matches Some(at) && file[at].data_type@
        == column.data_type@
}

fn find_column_type(columns: &Vec<ColumnType>, name: &String) -> (at: Option<usize>)
    ensures
        match at {
            Some(i) => column_type_position(columns@, name@) == Some(i as int) && i
                < columns@.len(),
            None => column_type_position(columns@, name@) is None,
        },
{
    assert(columns@.skip(0) =~= columns@);
    for i in 0..columns.len()
        invariant
            column_type_position(columns@, name@) == (match column_type_position(
                columns@.skip(i as int),
                name@,
            ) {
                Some(at) => Some(at + i),
                None => None,
            }),
    {
        assert(columns@.skip(i as int)[0] == columns@[i as int]);
        assert(columns@.skip(i as int).skip(1) =~= columns@.skip(i + 1));
        if columns[i].name == *name {
            return Some(i);
        }
    }
    None
}

/// Whether a file has all columns of a table, with the same types.
pub fn schema_matches(file_schema: &Vec<ColumnType>, table_schema: &Vec<ColumnType>) -> (matches: bool)
    ensures
        matches <==> forall|i: int|
            0 <= i < table_schema@.len() ==> has_column(file_schema@, #[trigger] table_schema@[i]),
{
    for i in 0..table_schema.len()
        invariant
            forall|j: int|
                0 <= j < i ==> has_column(file_schema@, #[trigger] table_schema@[j]),
    {
        match find_column_type(file_schema, &table_schema[i].name) {
            Some(at) => {
                if file_schema[at].data_type != table_schema[i].data_type {
                    assert(!has_column(file_schema@, table_schema@[i as int]));
                    return false;
                }
            },
            None => {
                assert(!has_column(file_schema@, table_schema@[i as int]));
                return false;
            },
        }
    }
    true
}

/// What the footer of a Parquet file says of its columns.
#[derive(Debug)]
pub struct FooterStats {
    pub row_count: u64,
    pub file_size: u64,
    pub column_sizes: Vec<(i32, u64)>,
    pub value_counts: Vec<(i32, u64)>,
    pub null_value_counts: Vec<(i32, u64)>,
    pub lower_bounds: Vec<(i32, Vec<u8>)>,
    pub upper_bounds: Vec<(i32, Vec<u8>)>,
    pub split_offsets: Vec<i64>,
}

/// Whether a data file is that of a Parquet file with the given footer.
pub open spec fn is_loaded_file(file: DataFile, path: String, stats: FooterStats, spec_id: i32) -> bool {
    &&& file.content is Data
    &&& file.file_path == path
    &&& file.file_format is Parquet
    &&& file.partition@.len() == 0
    &&& file.record_count == stats.row_count
    &&& file.file_size_in_bytes == stats.file_size
    &&& file.column_sizes == stats.column_sizes
    &&& file.value_counts == stats.value_counts
    &&& file.null_value_counts == stats.null_value_counts
    &&& file.nan_value_counts@.len() == 0
    &&& file.lower_bounds == stats.lower_bounds
    &&& file.upper_bounds == stats.upper_bounds
    &&& file.block_size_in_bytes is None
    &&& file.key_metadata is None
    &&& file.split_offsets == stats.split_offsets
    &&& file.equality_ids@.len() == 0
    &&& file.sort_order_id is None
    &&& file.first_row_id is None
    &&& file.partition_spec_id == spec_id
    &&& file.referenced_data_file is None
    &&& file.content_offset is None
    &&& file.content_size_in_bytes is None
}

/// The data file for a Parquet file that becomes part of the table as it is.
pub fn build_data_file(path: String, stats: FooterStats, partition_spec_id: i32) -> (file: DataFile)
    ensures
        is_loaded_file(file, path, stats, partition_spec_id),
{
    DataFile {
        content: DataContentType::Data,
        file_path: path,
        file_format: DataFileFormat::Parquet,
        partition: Vec::new(),
        record_count: stats.row_count,
        file_size_in_bytes: stats.file_size,
        column_sizes: stats.column_sizes,
        value_counts: stats.value_counts,
        null_value_counts: stats.null_value_counts,
        nan_value_counts: Vec::new(),
        lower_bounds: stats.lower_bounds,
        upper_bounds: stats.upper_bounds,
        block_size_in_bytes: None,
        key_metadata: None,
        split_offsets: stats.split_offsets,
        equality_ids: Vec::new(),
        sort_order_id: None,
        first_row_id: None,
        partition_spec_id,
        referenced_data_file: None,
        content_offset: None,
        content_size_in_bytes: None,
    }
}

/// What came of reading the footer of a file.
#[derive(Debug)]
pub enum Footer {
    Unreadable,
    /// The columns of the file, and its statistics where they could be gathered.
    Read { columns: Vec<ColumnType>, stats: Option<FooterStats> },
}

/// The files that become part of the table as they are, and those that are rewritten.
#[derive(Debug)]
pub struct ClassifiedFiles {
    pub fast_files: Vec<DataFile>,
    pub fallback_files: Vec<(String, u64)>,
}

/// The statistics by which a file becomes part of the table as it is: it was read, it has the
/// columns of the table, and its statistics could be gathered.
pub open spec fn fast_stats(footer: Footer, table_schema: Seq<ColumnType>) -> Option<FooterStats> {
    match footer {
        Footer::Read { columns, stats: Some(stats) } => if forall|i: int|
            0 <= i < table_schema.len() ==> has_column(columns@, #[trigger] table_schema[i]) {
            Some(stats)
        } else {
            None
        },
        _ => None,
    }
}

impl ClassifiedFiles {
    pub fn new() -> (files: ClassifiedFiles)
        ensures
            files.fast_files@.len() == 0,
            files.fallback_files@.len() == 0,
    {
        ClassifiedFiles { fast_files: Vec::new(), fallback_files: Vec::new() }
    }

    /// Adds a file whose footer was read: as it is where its footer allows that, and to be
    /// rewritten otherwise.
    pub fn place(
        &mut self,
        url: String,
        size: u64,
        footer: Footer,
        table_schema: &Vec<ColumnType>,
        partition_spec_id: i32,
    )
        ensures
            match fast_stats(footer, table_schema@) {
                Some(stats) => {
                    &&& final(self).fallback_files == old(self).fallback_files
                    &&& final(self).fast_files@.len() == old(self).fast_files@.len() + 1
                    &&& final(self).fast_files@.drop_last() == old(self).fast_files@
                    &&& is_loaded_file(
                        final(self).fast_files@.last(),
                        url,
                        stats,
                        partition_spec_id,
                    )
                },
                None => {
                    &&& final(self).fast_files == old(self).fast_files
                    &&& final(self).fallback_files@ == old(self).fallback_files@.push((url, size))
                },
            },
    {
        match footer {
            Footer::Read { columns, stats: Some(stats) } => {
                if schema_matches(&columns, table_schema) {
                    let ghost before = self.fast_files@;
                    let file = build_data_file(url, stats, partition_spec_id);
                    self.fast_files.push(file);
                    assert(self.fast_files@.drop_last() =~= before);
                } else {
                    self.fallback_files.push((url, size));
                }
            },
            _ => {
                self.fallback_files.push((url, size));
            },
        }
    }
}

/// The format of a file that is rewritten.
#[derive(Debug, Clone, Copy, PartialEq, Eq, Structural)]
pub enum SourceFormat {
    Csv,
    Json,
    Parquet,
}

/// The compression of a file that is rewritten.
#[derive(Debug, Clone, Copy, PartialEq, Eq, Structural)]
pub enum SourceCompression {
    Gzip,
    Bzip2,
    Xz,
    Zstd,
    Uncompressed,
}

/// The format that the name of a file tells. A file with another name is taken for CSV.
pub open spec fn format_of(path: Seq<char>) -> SourceFormat {
    if has_suffix_ignoring_case(path, ".csv"@) {
        SourceFormat::Csv
    } else if has_suffix_ignoring_case(path, ".json"@) || has_suffix_ignoring_case(
        path,
        ".jsonl"@,
    ) {
        SourceFormat::Json
    } else if has_suffix_ignoring_case(path, ".parquet"@) {
        SourceFormat::Parquet
    } else {
        SourceFormat::Csv
    }
}

/// The compression that the name of a file tells.
pub open spec fn compression_of(path: Seq<char>) -> SourceCompression {
    if has_suffix_ignoring_case(path, ".gz"@) {
        SourceCompression::Gzip
    } else if has_suffix_ignoring_case(path, ".bz2"@) {
        SourceCompression::Bzip2
    } else if has_suffix_ignoring_case(path, ".xz"@) {
        SourceCompression::Xz
    } else if has_suffix_ignoring_case(path, ".zst"@) {
        SourceCompression::Zstd
    } else {
        SourceCompression::Uncompressed
    }
}

/// The format that the name of a file tells.
pub fn infer_source_format(path: &str) -> (format: SourceFormat)
    ensures
        format == format_of(path@),
{
    if ends_with_ignore_case(path, ".csv") {
        SourceFormat::Csv
    } else if ends_with_ignore_case(path, ".json") || ends_with_ignore_case(path, ".jsonl") {
        SourceFormat::Json
    } else if ends_with_ignore_case(path, ".parquet") {
        SourceFormat::Parquet
    } else {
        SourceFormat::Csv
    }
}

/// The compression that the name of a file tells.
pub fn infer_source_compression(path: &str) -> (compression: SourceCompression)
    ensures
        compression == compression_of(path@),
{
    if ends_with_ignore_case(path, ".gz") {
        SourceCompression::Gzip
    } else if ends_with_ignore_case(path, ".bz2") {
        SourceCompression::Bzip2
    } else if ends_with_ignore_case(path, ".xz") {
        SourceCompression::Xz
    } else if ends_with_ignore_case(path, ".zst") {
        SourceCompression::Zstd
    } else {
        SourceCompression::Uncompressed
    }
}

/// Files that are read together: a scan has one format and one compression.
#[derive(Debug)]
pub struct FormatGroup {
    pub format: SourceFormat,
    pub compression: SourceCompression,
    pub files: Vec<(String, u64)>,
}

/// A group, by its contents.
#[verifier::ext_equal]
pub struct GroupView {
    pub format: SourceFormat,
    pub compression: SourceCompression,
    pub files: Seq<(String, u64)>,
}

/// Groups, by their contents.
pub open spec fn group_views(groups: Seq<FormatGroup>) -> Seq<GroupView> {
    groups.map_values(
        |group: FormatGroup|
            GroupView {
                format: group.format,
                compression: group.compression,
                files: group.files@,
            },
    )
}

/// The position of the first group of the given format and compression.
pub open spec fn format_position(
    groups: Seq<GroupView>,
    format: SourceFormat,
    compression: SourceCompression,
) -> Option<int>
    decreases groups.len(),
{
    if groups.len() == 0 {
        None
    } else {
        match format_position(groups.drop_last(), format, compression) {
            Some(at) => Some(at),
            None => if groups.last().format == format && groups.last().compression == compression {
                Some(groups.len() - 1)
            } else {
                None
            },
        }
    }
}

/// The groups with one more file, which joins the group of its format and compression or
/// starts one.
pub open spec fn group_joined(groups: Seq<GroupView>, file: (String, u64)) -> Seq<GroupView> {
    let format = format_of(file.0@);
    let compression = compression_of(file.0@);
    match format_position(groups, format, compression) {
        Some(at) => groups.update(
            at,
            GroupView { files: groups[at].files.push(file), ..groups[at] },
        ),
        None => groups.push(GroupView { format, compression, files: seq![file] }),
    }
}

/// Files grouped by format and compression. The groups stand in the order of their first
/// files.
pub open spec fn format_groups(files: Seq<(String, u64)>) -> Seq<GroupView>
    decreases files.len(),
{
    if files.len() == 0 {
        Seq::empty()
    } else {
        group_joined(format_groups(files.drop_last()), files.last())
    }
}

proof fn lemma_format_position_prefix(
    groups: Seq<GroupView>,
    n: int,
    format: SourceFormat,
    compression: SourceCompression,
)
    requires
        0 <= n <= groups.len(),
    ensures
        format_position(groups.take(n), format, compression) is Some ==> format_position(
            groups,
            format,
            compression,
        ) == format_position(groups.take(n), format, compression),
    decreases groups.len() - n,
{
    if n < groups.len() {
        assert(groups.take(n + 1).drop_last() =~= groups.take(n));
        lemma_format_position_prefix(groups, n + 1, format, compression);
    } else {
        assert(groups.take(n) =~= groups);
    }
}

/// Groups the files that are rewritten by format and compression: a scan carries a single
/// compression type, so mixed-compression directories need separate scans.
pub fn group_by_format(files: Vec<(String, u64)>) -> (groups: Vec<FormatGroup>)
    ensures
        group_views(groups@) == format_groups(files@),
{
    let ghost all = files@;
    let mut groups: Vec<FormatGroup> = Vec::new();
    assert(group_views(groups@) =~= format_groups(all.take(0)));
    for file in iter: files
        invariant
            iter.seq() == all,
            group_views(groups@) == format_groups(all.take(iter.index())),
    {
        let ghost n = iter.index();
        let ghost before = group_views(groups@);
        proof {
            assert(all.take(n + 1).drop_last() =~= all.take(n));
            assert(all.take(n + 1).last() == file);
        }
        let format = infer_source_format(file.0.as_str());
        let compression = infer_source_compression(file.0.as_str());
        let count: usize = groups.len();
        let mut at: usize = 0;
        while at < count && !(groups[at].format == format && groups[at].compression == compression)
            invariant
                count == groups@.len(),
                at <= count,
                before == group_views(groups@),
                format_position(before.take(at as int), format, compression) is None,
            decreases count - at,
        {
            assert(before.take(at + 1).drop_last() =~= before.take(at as int));
            at = at + 1;
        }
        if at < count {
            proof {
                assert(before.take(at + 1).drop_last() =~= before.take(at as int));
                lemma_format_position_prefix(before, at + 1, format, compression);
            }
            let ghost joined = GroupView {
                files: before[at as int].files.push(file),
                ..before[at as int]
            };
            groups[at].files.push(file);
            assert(group_views(groups@) =~= before.update(at as int, joined));
        } else {
            assert(before.take(at as int) =~= before);
            let mut members: Vec<(String, u64)> = Vec::new();
            members.push(file);
            assert(members@ =~= seq![file]);
            groups.push(FormatGroup { format, compression, files: members });
            assert(group_views(groups@) =~= before.push(
                GroupView { format, compression, files: seq![file] },
            ));
        }
    }
    assert(all.take(all.len() as int) =~= all);
    groups
}

/// The files of all groups.
pub open spec fn grouped_files(groups: Seq<GroupView>) -> vstd::multiset::Multiset<(String, u64)>
    decreases groups.len(),
{
    if groups.len() == 0 {
        vstd::multiset::Multiset::empty()
    } else {
        grouped_files(groups.drop_last()).add(groups.last().files.to_multiset())
    }
}

proof fn lemma_grouped_update(groups: Seq<GroupView>, i: int, file: (String, u64))
    requires
        0 <= i < groups.len(),
    ensures
        grouped_files(
            groups.update(i, GroupView { files: groups[i].files.push(file), ..groups[i] }),
        ) == grouped_files(groups).insert(file),
    decreases groups.len(),
{
    broadcast use vstd::seq_lib::group_to_multiset_ensures;

    let joined = GroupView { files: groups[i].files.push(file), ..groups[i] };
    let updated = groups.update(i, joined);
    if i == groups.len() - 1 {
        assert(updated.drop_last() =~= groups.drop_last());
        assert(grouped_files(updated) =~= grouped_files(groups).insert(file));
    } else {
        lemma_grouped_update(groups.drop_last(), i, file);
        assert(updated.drop_last() =~= groups.drop_last().update(i, joined));
        assert(grouped_files(updated) =~= grouped_files(groups).insert(file));
    }
}

proof fn lemma_format_position(
    groups: Seq<GroupView>,
    format: SourceFormat,
    compression: SourceCompression,
)
    ensures
        format_position(groups, format, compression) matches Some(at) ==> 0 <= at < groups.len()
            && groups[at].format == format && groups[at].compression == compression,
        format_position(groups, format, compression) is None ==> forall|i: int|
            0 <= i < groups.len() ==> !((#[trigger] groups[i]).format == format
                && groups[i].compression == compression),
    decreases groups.len(),
{
    if groups.len() > 0 {
        let init = groups.drop_last();
        lemma_format_position(init, format, compression);
        if format_position(groups, format, compression) is None {
            assert forall|i: int| 0 <= i < groups.len() implies !((
            #[trigger] groups[i]).format == format && groups[i].compression == compression) by {
                if i < init.len() {
                    assert(!(init[i].format == format && init[i].compression == compression));
                }
            }
        }
    }
}

/// Whether the files of a group are all of its format and compression.
pub open spec fn is_uniform(group: GroupView) -> bool {
    forall|k: int|
        #![trigger group.files[k]]
        0 <= k < group.files.len() ==> format_of(group.files[k].0@) == group.format
            && compression_of(group.files[k].0@) == group.compression
}

/// Grouping loses no file, every file is in the group of its format and compression, and no
/// two groups have the same ones.
pub proof fn law_groups_are_uniform(files: Seq<(String, u64)>)
    ensures
        grouped_files(format_groups(files)) == files.to_multiset(),
        forall|i: int|
            0 <= i < format_groups(files).len() ==> is_uniform(#[trigger] format_groups(files)[i]),
        forall|i: int, j: int|
            0 <= i < j < format_groups(files).len() ==> !((
            #[trigger] format_groups(files)[i]).format == (
            #[trigger] format_groups(files)[j]).format && format_groups(files)[i].compression
                == format_groups(files)[j].compression),
    decreases files.len(),
{
    broadcast use vstd::seq_lib::group_to_multiset_ensures;

    if files.len() > 0 {
        let (init, last) = (files.drop_last(), files.last());
        law_groups_are_uniform(init);
        let groups = format_groups(init);
        let next = format_groups(files);
        let format = format_of(last.0@);
        let compression = compression_of(last.0@);
        lemma_format_position(groups, format, compression);
        assert(files =~= init.push(last));
        match format_position(groups, format, compression) {
            Some(at) => {
                lemma_grouped_update(groups, at, last);
                assert forall|i: int| 0 <= i < next.len() implies is_uniform(
                    #[trigger] next[i],
                ) by {
                    assert(is_uniform(groups[i]));
                    assert forall|k: int|
                        #![trigger next[i].files[k]]
                        0 <= k < next[i].files.len() implies format_of(next[i].files[k].0@)
                        == next[i].format && compression_of(next[i].files[k].0@)
                        == next[i].compression by {
                        if k < groups[i].files.len() {
                            assert(next[i].files[k] == groups[i].files[k]);
                        }
                    }
                }
            },
            None => {
                let added = GroupView { format, compression, files: seq![last] };
                assert(next == groups.push(added));
                assert(next.drop_last() =~= groups);
                assert(Seq::<(String, u64)>::empty().push(last) =~= seq![last]);
                assert(seq![last].to_multiset() =~= vstd::multiset::Multiset::empty().insert(last));
                assert(grouped_files(next) =~= files.to_multiset());
                assert forall|i: int| 0 <= i < next.len() implies is_uniform(
                    #[trigger] next[i],
                ) by {
                    if i < groups.len() {
                        assert(is_uniform(groups[i]));
                    }
                }
            },
        }
    } else {
        assert(grouped_files(format_groups(files)) =~= files.to_multiset());
    }
}

/// A scan of files that are rewritten: where they are, in which groups they are read, and how
/// they are compressed.
#[derive(Debug)]
pub struct FallbackScan {
    pub store_url: String,
    pub file_groups: Vec<Vec<(String, u64)>>,
    pub compression: SourceCompression,
}

/// The first file whose location cannot be read.
pub open spec fn first_invalid(files: Seq<(String, u64)>) -> Option<LoadFault>
    decreases files.len(),
{
    if files.len() == 0 {
        None
    } else {
        match first_invalid(files.drop_last()) {
            Some(fault) => Some(fault),
            None => match url_parsed(files.last().0@) {
                Ok(_) => None,
                Err(reason) => Some(LoadFault::InvalidFile { reason }),
            },
        }
    }
}

proof fn lemma_first_invalid(files: Seq<(String, u64)>, n: int)
    requires
        0 <= n <= files.len(),
    ensures
        first_invalid(files.take(n)) is Some ==> first_invalid(files) == first_invalid(
            files.take(n),
        ),
    decreases files.len() - n,
{
    if n < files.len() {
        lemma_first_invalid(files, n + 1);
        assert(files.take(n + 1).drop_last() =~= files.take(n));
    } else {
        assert(files.take(n) =~= files);
    }
}

/// Whether a group holds one file and nothing else, whole and at its location.
pub open spec fn holds_file(group: Seq<(String, u64)>, file: (String, u64)) -> bool {
    &&& group.len() == 1
    &&& url_parsed(file.0@) == Ok::<_, Seq<char>>(group[0].0@)
    &&& group[0].1 == file.1
}

/// The scan of a group of files. The store and the compression are those of the first file. Each
/// file is read on its own.
pub fn build_fallback_scan(files: &Vec<(String, u64)>) -> (scan: Result<FallbackScan, LoadError>)
    requires
        files@.len() > 0,
    ensures
        match url_store(files@[0].0@) {
            Err(reason) => scan matches Err(e) && e@ == (LoadFault::InvalidFile { reason }),
            Ok(store) => match first_invalid(files@) {
                Some(fault) => scan matches Err(e) && e@ == fault,
                None => {
                    &&& scan matches Ok(s)
                    &&& s.store_url@ == store
                    &&& s.compression == compression_of(files@[0].0@)
                    &&& s.file_groups@.len() == files@.len()
                    &&& forall|i: int|
                        0 <= i < files@.len() ==> holds_file(
                            (#[trigger] s.file_groups@[i])@,
                            files@[i],
                        )
                },
            },
        },
{
    let store = match store_url(files[0].0.as_str()) {
        Ok(store) => store,
        Err(reason) => {
            return Err(LoadError::InvalidFile { reason });
        },
    };
    let mut file_groups: Vec<Vec<(String, u64)>> = Vec::new();
    for i in 0..files.len()
        invariant
            files@.len() > 0,
            url_store(files@[0].0@) is Ok,
            file_groups@.len() == i,
            first_invalid(files@.take(i as int)) is None,
            forall|j: int| 0 <= j < i ==> holds_file((#[trigger] file_groups@[j])@, files@[j]),
    {
        proof {
            assert(files@.take(i + 1).drop_last() =~= files@.take(i as int));
            lemma_first_invalid(files@, i + 1);
        }
        match parse_url(files[i].0.as_str()) {
            Ok(url) => {
                let mut group: Vec<(String, u64)> = Vec::new();
                group.push((url, files[i].1));
                file_groups.push(group);
            },
            Err(reason) => {
                return Err(LoadError::InvalidFile { reason });
            },
        }
    }
    assert(files@.take(files@.len() as int) =~= files@);
    let compression = infer_source_compression(files[0].0.as_str());
    Ok(FallbackScan { store_url: store, file_groups, compression })
}

/// Whether the scan of files that are rewritten is repartitioned by the partition columns of
/// the table before it is written. An unpartitioned table needs no shuffle.
pub fn repartitions_for_load(partition_columns: &Vec<String>) -> (repartitions: bool)
    ensures
        repartitions <==> partition_columns@.len() > 0,
{
    partition_columns.len() > 0
}

/// How a new snapshot takes part in the table.
#[derive(Debug, Clone, Copy, PartialEq, Eq, Structural)]
pub enum SnapshotUpdateKind {
    FastAppend,
    FullOverwrite,
    RowDelta,
}

/// What files are loaded into.
#[derive(Debug)]
pub struct LoadTarget {
    /// The position of the current schema.
    pub schema_index: usize,
    pub spec_id: i32,
    /// Files can become part of the table as they are only where it is unpartitioned.
    pub allow_fast: bool,
    pub requirements: Vec<TableRequirement>,
    pub update_kind: SnapshotUpdateKind,
}

/// The table has no current schema.
#[derive(Debug, Clone, Copy, PartialEq, Eq, Structural)]
pub struct MissingSchema;

impl MissingSchema {
    pub fn message(&self) -> (text: String)
        ensures
            text@ == "LOAD DATA: table has no current schema"@,
    {
        "LOAD DATA: table has no current schema".to_owned()
    }
}

/// What files are loaded into: the table must have a schema, and it must not change until the
/// load is committed.
pub fn load_target(metadata: &TableMetadata, overwrite: bool) -> (target: Result<
    LoadTarget,
    MissingSchema,
>)
    ensures
        match target {
            Err(_) => metadata.current_schema_position() is None,
            Ok(t) => {
                &&& metadata.current_schema_position() == Some(t.schema_index as int)
                &&& t.spec_id == (match metadata.default_spec_position() {
                    Some(at) => metadata.partition_specs@[at].spec_id,
                    None => 0,
                })
                &&& t.allow_fast == (match metadata.default_spec_position() {
                    Some(at) => metadata.partition_specs@[at].fields@.len() == 0,
                    None => true,
                })
                &&& t.requirements@ == seq![
                    TableRequirement::LastAssignedFieldIdMatch {
                        last_assigned_field_id: metadata.last_column_id,
                    },
                    TableRequirement::CurrentSchemaIdMatch {
                        current_schema_id: metadata.current_schema_id,
                    },
                ]
                &&& t.update_kind == (if overwrite {
                    SnapshotUpdateKind::FullOverwrite
                } else {
                    SnapshotUpdateKind::FastAppend
                })
            },
        },
{
    let schema_index = match metadata.current_schema_index() {
        Some(at) => at,
        None => {
            return Err(MissingSchema);
        },
    };
    let (spec_id, allow_fast) = match metadata.default_spec_index() {
        Some(at) => (
            metadata.partition_specs[at].spec_id,
            metadata.partition_specs[at].fields.len() == 0,
        ),
        None => (0, true),
    };
    let requirements = vec![
        TableRequirement::LastAssignedFieldIdMatch {
            last_assigned_field_id: metadata.last_column_id,
        },
        TableRequirement::CurrentSchemaIdMatch { current_schema_id: metadata.current_schema_id },
    ];
    let update_kind = if overwrite {
        SnapshotUpdateKind::FullOverwrite
    } else {
        SnapshotUpdateKind::FastAppend
    };
    Ok(LoadTarget { schema_index, spec_id, allow_fast, requirements, update_kind })
}

/// How a load is carried out.
#[derive(Debug, Clone, Copy, PartialEq, Eq, Structural)]
pub struct LoadShape {
    /// Whether files become part of the table as they are. Where nothing is rewritten, that is
    /// all there is to commit, even without files.
    pub adds_files: bool,
    /// How many writers rewrite files, one for each group.
    pub writers: usize,
}

/// How a load is carried out, given how many files become part of the table as they are and
/// how many groups of files are rewritten.
pub fn load_shape(fast_files: usize, groups: usize) -> (shape: LoadShape)
    ensures
        shape.writers == groups,
        shape.adds_files <==> fast_files > 0 || groups == 0,
{
    LoadShape { adds_files: fast_files > 0 || groups == 0, writers: groups }
}

/// The rows of files in all.
pub open spec fn total_rows(files: Seq<DataFile>) -> int
    decreases files.len(),
{
    if files.len() == 0 {
        0
    } else {
        total_rows(files.drop_last()) + files.last().record_count
    }
}

proof fn lemma_rows_grow(files: Seq<DataFile>, n: int)
    requires
        0 <= n <= files.len(),
    ensures
        total_rows(files.take(n)) <= total_rows(files),
    decreases files.len() - n,
{
    if n < files.len() {
        lemma_rows_grow(files, n + 1);
        assert(files.take(n + 1).drop_last() =~= files.take(n));
    } else {
        assert(files.take(n) =~= files);
    }
}

/// Files that become part of a table as they are.
#[derive(Debug)]
pub struct IcebergLoadDataFastExec {
    data_files: Vec<DataFile>,
    table_url: String,
    requirements: Vec<TableRequirement>,
    table_properties: Vec<(String, String)>,
    lakehouse_table: Option<LakehouseContext>,
}

impl IcebergLoadDataFastExec {
    pub closed spec fn spec_data_files(self) -> Vec<DataFile> {
        self.data_files
    }

    pub closed spec fn spec_table_url(self) -> String {
        self.table_url
    }

    pub closed spec fn spec_requirements(self) -> Vec<TableRequirement> {
        self.requirements
    }

    pub closed spec fn spec_table_properties(self) -> Vec<(String, String)> {
        self.table_properties
    }

    pub closed spec fn spec_lakehouse_table(self) -> Option<LakehouseContext> {
        self.lakehouse_table
    }

    pub fn new(
        data_files: Vec<DataFile>,
        table_url: String,
        requirements: Vec<TableRequirement>,
        table_properties: Vec<(String, String)>,
        lakehouse_table: Option<LakehouseContext>,
    ) -> (exec: IcebergLoadDataFastExec)
        ensures
            exec.spec_data_files() == data_files,
            exec.spec_table_url() == table_url,
            exec.spec_requirements() == requirements,
            exec.spec_table_properties() == table_properties,
            exec.spec_lakehouse_table() == lakehouse_table,
    {
        IcebergLoadDataFastExec {
            data_files,
            table_url,
            requirements,
            table_properties,
            lakehouse_table,
        }
    }

    pub fn data_files(&self) -> (files: &Vec<DataFile>)
        ensures
            *files == self.spec_data_files(),
    {
        &self.data_files
    }

    pub fn table_url(&self) -> (url: &String)
        ensures
            *url == self.spec_table_url(),
    {
        &self.table_url
    }

    pub fn requirements(&self) -> (requirements: &Vec<TableRequirement>)
        ensures
            *requirements == self.spec_requirements(),
    {
        &self.requirements
    }

    pub fn table_properties(&self) -> (properties: &Vec<(String, String)>)
        ensures
            *properties == self.spec_table_properties(),
    {
        &self.table_properties
    }

    pub fn lakehouse_table(&self) -> (table: Option<&LakehouseContext>)
        ensures
            match table {
                Some(t) => self.spec_lakehouse_table() == Some(*t),
                None => self.spec_lakehouse_table() is None,
            },
    {
        match &self.lakehouse_table {
            Some(table) => Some(table),
            None => None,
        }
    }

    /// The rows of the files in all.
    pub fn row_count(&self) -> (count: u64)
        requires
            total_rows(self.spec_data_files()@) <= u64::MAX,
        ensures
            count == total_rows(self.spec_data_files()@),
    {
        let mut count: u64 = 0;
        for i in 0..self.data_files.len()
            invariant
                total_rows(self.data_files@) <= u64::MAX,
                count == total_rows(self.data_files@.take(i as int)),
        {
            proof {
                assert(self.data_files@.take(i + 1).drop_last() =~= self.data_files@.take(
                    i as int,
                ));
                lemma_rows_grow(self.data_files@, i + 1);
            }
            count = count + self.data_files[i].record_count;
        }
        assert(self.data_files@.take(self.data_files@.len() as int) =~= self.data_files@);
        count
    }

    /// The files, and what is reported of them to the commit.
    pub fn into_output(self, operation: Operation) -> (output: (Vec<DataFile>, CommitMeta))
        requires
            total_rows(self.spec_data_files()@) <= u64::MAX,
        ensures
            output.0 == self.spec_data_files(),
            output.1.table_uri == self.spec_table_url(),
            output.1.row_count == total_rows(self.spec_data_files()@),
            output.1.operation == operation,
            output.1.requirements == self.spec_requirements(),
            output.1.table_properties == self.spec_table_properties(),
            output.1.lakehouse_table == self.spec_lakehouse_table(),
            output.1.schema is None,
            output.1.partition_spec is None,
            output.1.touched_file_paths@.len() == 0,
            output.1.overwrite_predicate is None,
            output.1.overwrite_partition_values is None,
    {
        let row_count = self.row_count();
        let meta = CommitMeta {
            table_uri: self.table_url,
            row_count,
            operation,
            requirements: self.requirements,
            table_properties: self.table_properties,
            lakehouse_table: self.lakehouse_table,
            schema: None,
            partition_spec: None,
            touched_file_paths: Vec::new(),
            overwrite_predicate: None,
            overwrite_partition_values: None,
        };
        (self.data_files, meta)
    }
}

proof fn lemma_without_leading(text: Seq<char>, c: char)
    ensures
        without_leading(text, c).len() <= text.len(),
        without_leading(text, c) == text.skip(text.len() - without_leading(text, c).len()),
        without_leading(text, c).len() > 0 ==> without_leading(text, c)[0] != c,
        forall|i: int|
            0 <= i < text.len() - without_leading(text, c).len() ==> #[trigger] text[i] == c,
    decreases text.len(),
{
    if text.len() > 0 && text[0] == c {
        let rest = text.skip(1);
        lemma_without_leading(rest, c);
        let kept = without_leading(rest, c);
        assert(kept =~= text.skip(text.len() - kept.len()));
        assert forall|i: int| 0 <= i < text.len() - kept.len() implies #[trigger] text[i] == c by {
            if i > 0 {
                assert(rest[i - 1] == text[i]);
            }
        }
    } else {
        assert(text.skip(0) =~= text);
    }
}

/// A location without a star names a directory, whether a slash ends it or not, and all files in
/// it. One with a star at some place, and none before it, names the directory that the last slash
/// before the star ends; its files must end like the location behind the stars that stand there.
pub proof fn law_globs(location: Seq<char>, star: int)
    ensures
        !location.contains('*') ==> glob_parts(location).1 is None && glob_parts(location).0 == (
        if location.len() > 0 && location.last() == '/' {
            location
        } else {
            location + "/"@
        }),
        0 <= star < location.len() && location[star] == '*' && (forall|i: int|
            0 <= i < star ==> #[trigger] location[i] != '*') ==> ({
            let (directory, suffix) = glob_parts(location);
            let tail = match suffix {
                Some(s) => s,
                None => Seq::empty(),
            };
            let n = directory.len();
            &&& n <= star
            &&& directory == location.take(n as int)
            &&& n > 0 ==> directory.last() == '/'
            &&& forall|i: int| n <= i < star ==> #[trigger] location[i] != '/'
            &&& suffix is Some <==> tail.len() > 0
            &&& tail.len() < location.len() - star
            &&& tail == location.skip(location.len() - tail.len())
            &&& tail.len() > 0 ==> tail[0] != '*'
            &&& forall|i: int| star <= i < location.len() - tail.len() ==> #[trigger] location[i] == '*'
        }),
{
    reveal_strlit("/");
    law_positions(location, '*');
    if !location.contains('*') {
        assert(location.push('/') =~= location + "/"@);
    }
    if 0 <= star < location.len() && location[star] == '*' && (forall|i: int|
        0 <= i < star ==> #[trigger] location[i] != '*') {
        assert(location.contains('*'));
        let at = first_position(location, '*')->0;
        assert(at == star) by {
            if at < star {
                assert(location[at] != '*');
            }
            if star < at {
                assert(location[star] != '*');
            }
        }
        let front = location.take(star);
        law_positions(front, '/');
        let rest = location.skip(star);
        lemma_without_leading(rest, '*');
        let tail = without_leading(rest, '*');
        assert(rest[0] == '*');
        assert(tail.len() < rest.len());
        assert(tail =~= location.skip(location.len() - tail.len()));
        assert forall|i: int| star <= i < location.len() - tail.len() implies #[trigger] location[i]
            == '*' by {
            assert(rest[i - star] == location[i]);
        }
        let directory = glob_parts(location).0;
        assert forall|i: int| directory.len() <= i < star implies #[trigger] location[i] != '/' by {
            assert(front[i] == location[i]);
            if last_position(front, '/') is None {
                assert(!front.contains('/'));
            }
        }
        if directory.len() > 0 {
            let slash = last_position(front, '/')->0;
            assert(directory.last() == front[slash]);
        }
    }
}

/// Whether a location names a single file.
pub proof fn law_single_files(location: Seq<char>)
    ensures
        is_single(location) <==> !location.contains('*') && !(location.len() > 0 && location.last()
            == '/'),
{
    law_positions(location, '*');
}

/// The first file whose location cannot be resolved is the one that is reported, and none is
/// exactly where each can be.
pub proof fn law_unresolved_files(
    files: Seq<(Seq<char>, u64)>,
    urls: Seq<Result<Seq<char>, Seq<char>>>,
)
    requires
        files.len() == urls.len(),
    ensures
        match first_unresolved(files, urls) {
            None => forall|i: int| 0 <= i < urls.len() ==> #[trigger] urls[i] is Ok,
            Some(fault) => exists|i: int|
                0 <= i < urls.len() && (#[trigger] urls[i] matches Err(reason) && fault
                    == (LoadFault::UnresolvedFile { key: files[i].0, reason })) && forall|j: int|
                    0 <= j < i ==> #[trigger] urls[j] is Ok,
        },
{
    lemma_unresolved(files, urls, files.len() as int);
    assert(files.take(files.len() as int) =~= files);
}

proof fn lemma_unresolved(
    files: Seq<(Seq<char>, u64)>,
    urls: Seq<Result<Seq<char>, Seq<char>>>,
    n: int,
)
    requires
        0 <= n <= files.len(),
        files.len() == urls.len(),
    ensures
        match first_unresolved(files.take(n), urls) {
            None => forall|i: int| 0 <= i < n ==> #[trigger] urls[i] is Ok,
            Some(fault) => exists|i: int|
                0 <= i < n && (#[trigger] urls[i] matches Err(reason) && fault
                    == (LoadFault::UnresolvedFile { key: files[i].0, reason })) && forall|j: int|
                    0 <= j < i ==> #[trigger] urls[j] is Ok,
        },
    decreases n,
{
    if n > 0 {
        lemma_unresolved(files, urls, n - 1);
        let part = files.take(n);
        assert(part.drop_last() =~= files.take(n - 1));
        assert(part.last() == files[n - 1]);
        if first_unresolved(files.take(n - 1), urls) is Some {
            let fault = first_unresolved(files.take(n - 1), urls)->0;
            let i = choose|i: int|
                0 <= i < n - 1 && (#[trigger] urls[i] matches Err(reason) && fault
                    == (LoadFault::UnresolvedFile { key: files[i].0, reason })) && forall|j: int|
                    0 <= j < i ==> #[trigger] urls[j] is Ok;
            assert(urls[i] is Err);
        } else {
            assert(urls[n - 1] is Ok || urls[n - 1] is Err);
        }
    }
}

/// The files of a load are those that were chosen, each at its location, in the order of their
/// keys.
pub proof fn law_loaded_files(
    files: Seq<(Seq<char>, u64)>,
    urls: Seq<Result<Seq<char>, Seq<char>>>,
)
    requires
        files.len() == urls.len(),
        forall|i: int| 0 <= i < urls.len() ==> #[trigger] urls[i] is Ok,
    ensures
        ({
            let loaded = by_key(located_entries(files, urls));
            &&& loaded.len() == files.len()
            &&& forall|i: int, j: int|
                0 <= i < j < loaded.len() ==> text_le(
                    (#[trigger] loaded[i]).0,
                    (#[trigger] loaded[j]).0,
                )
            &&& loaded.to_multiset() == Seq::new(
                files.len(),
                |i: int| (files[i].0, (urls[i]->Ok_0, files[i].1)),
            ).to_multiset()
        }),
{
    law_entries_are_ordered(located_entries(files, urls));
    assert(located_entries(files, urls) =~= Seq::new(
        files.len(),
        |i: int| (files[i].0, (urls[i]->Ok_0, files[i].1)),
    ));
}

/// Only files of an unpartitioned table that end in `.parquet` are candidates, and every file is
/// either one of them or rewritten.
pub proof fn law_candidates(file: SourceFile, allow_fast: bool)
    ensures
        is_candidate(allow_fast)(file) <==> allow_fast && has_suffix(file.url@, ".parquet"@),
        is_rewritten(allow_fast)(file) <==> !is_candidate(allow_fast)(file),
{
}

proof fn lemma_column_type_position(columns: Seq<ColumnType>, name: Seq<char>)
    ensures
        match column_type_position(columns, name) {
            Some(at) => 0 <= at < columns.len() && columns[at].name@ == name && forall|i: int|
                0 <= i < at ==> (#[trigger] columns[i]).name@ != name,
            None => forall|i: int| 0 <= i < columns.len() ==> (#[trigger] columns[i]).name@ != name,
        },
    decreases columns.len(),
{
    if columns.len() > 0 && columns[0].name@ != name {
        let rest = columns.skip(1);
        lemma_column_type_position(rest, name);
        let end = match column_type_position(rest, name) {
            Some(at) => at + 1,
            None => columns.len() as int,
        };
        assert forall|i: int| 0 <= i < end implies (#[trigger] columns[i]).name@ != name by {
            if i > 0 {
                assert(rest[i - 1] == columns[i]);
            }
        }
    }
}

/// A file becomes part of the table as it is exactly where its footer was read with statistics,
/// and for each column of the table the first column of that name in the file has the same type.
/// Its columns may stand in another order, and it may have others.
pub proof fn law_fast_files(footer: Footer, table_schema: Seq<ColumnType>)
    ensures
        fast_stats(footer, table_schema) is Some <==> (footer matches Footer::Read {
            columns,
            stats,
        } && stats is Some && forall|i: int|
            0 <= i < table_schema.len() ==> exists|at: int|
                0 <= at < columns@.len() && (#[trigger] columns@[at]).name@ == (
                #[trigger] table_schema[i]).name@ && columns@[at].data_type@
                    == table_schema[i].data_type@ && forall|j: int|
                    0 <= j < at ==> (#[trigger] columns@[j]).name@ != table_schema[i].name@),
        fast_stats(footer, table_schema) is Some ==> (footer matches Footer::Read {
            columns,
            stats,
        } && stats == fast_stats(footer, table_schema)),
{
    match footer {
        Footer::Read { columns, stats: Some(stats) } => {
            let held = |i: int|
                exists|at: int|
                    0 <= at < columns@.len() && (#[trigger] columns@[at]).name@
                        == table_schema[i].name@ && columns@[at].data_type@
                        == table_schema[i].data_type@ && forall|j: int|
                        0 <= j < at ==> (#[trigger] columns@[j]).name@ != table_schema[i].name@;
            assert forall|i: int| 0 <= i < table_schema.len() implies (has_column(
                columns@,
                #[trigger] table_schema[i],
            ) <==> held(i)) by {
                let name = table_schema[i].name@;
                lemma_column_type_position(columns@, name);
                if has_column(columns@, table_schema[i]) {
                    let at = column_type_position(columns@, name)->0;
                    assert(columns@[at].name@ == name);
                }
                if held(i) {
                    let at = choose|at: int|
                        0 <= at < columns@.len() && (#[trigger] columns@[at]).name@ == name
                            && columns@[at].data_type@ == table_schema[i].data_type@ && forall|j: int|
                            0 <= j < at ==> (#[trigger] columns@[j]).name@ != name;
                    let found = column_type_position(columns@, name)->0;
                    if found < at {
                        assert(columns@[found].name@ != name);
                    }
                    if at < found {
                        assert(columns@[at].name@ != name);
                    }
                }
            }
            if forall|i: int|
                0 <= i < table_schema.len() ==> has_column(columns@, #[trigger] table_schema[i]) {
                assert forall|i: int| 0 <= i < table_schema.len() implies exists|at: int|
                    0 <= at < columns@.len() && (#[trigger] columns@[at]).name@ == (
                    #[trigger] table_schema[i]).name@ && columns@[at].data_type@
                        == table_schema[i].data_type@ && forall|j: int|
                        0 <= j < at ==> (#[trigger] columns@[j]).name@ != table_schema[i].name@ by {
                    assert(has_column(columns@, table_schema[i]));
                    assert(held(i));
                }
            } else {
                let i = choose|i: int|
                    0 <= i < table_schema.len() && !has_column(columns@, #[trigger] table_schema[i]);
                assert(!held(i));
            }
        },
        _ => {},
    }
}

/// The name of a file tells JSON or Parquet by its end, whatever the case of the letters; any
/// other name is one of CSV.
pub proof fn law_formats(path: Seq<char>)
    ensures
        format_of(path) is Json <==> has_suffix_ignoring_case(path, ".json"@)
            || has_suffix_ignoring_case(path, ".jsonl"@),
        format_of(path) is Parquet <==> has_suffix_ignoring_case(path, ".parquet"@),
        compression_of(path) is Gzip <==> has_suffix_ignoring_case(path, ".gz"@),
        compression_of(path) is Bzip2 <==> has_suffix_ignoring_case(path, ".bz2"@),
        compression_of(path) is Xz <==> has_suffix_ignoring_case(path, ".xz"@),
        compression_of(path) is Zstd <==> has_suffix_ignoring_case(path, ".zst"@),
{
    reveal_strlit(".csv");
    reveal_strlit(".json");
    reveal_strlit(".jsonl");
    reveal_strlit(".parquet");
    reveal_strlit(".gz");
    reveal_strlit(".bz2");
    reveal_strlit(".xz");
    reveal_strlit(".zst");
    lemma_ends_apart(path, ".csv"@, ".json"@);
    lemma_ends_apart(path, ".csv"@, ".jsonl"@);
    lemma_ends_apart(path, ".csv"@, ".parquet"@);
    lemma_ends_apart(path, ".json"@, ".parquet"@);
    lemma_ends_apart(path, ".jsonl"@, ".parquet"@);
    lemma_ends_apart(path, ".gz"@, ".bz2"@);
    if has_suffix_ignoring_case(path, ".gz"@) && has_suffix_ignoring_case(path, ".xz"@) {
        law_suffixes_ignoring_case(path, ".gz"@);
        law_suffixes_ignoring_case(path, ".xz"@);
        assert(folded(path[path.len() - 3 + 1]) == folded('g'));
        assert(folded(path[path.len() - 3 + 1]) == folded('x'));
    }
    lemma_ends_apart(path, ".gz"@, ".zst"@);
    lemma_ends_apart(path, ".bz2"@, ".xz"@);
    lemma_ends_apart(path, ".bz2"@, ".zst"@);
    lemma_ends_apart(path, ".xz"@, ".zst"@);
}

proof fn lemma_ends_apart(path: Seq<char>, a: Seq<char>, b: Seq<char>)
    requires
        a.len() > 0,
        b.len() > 0,
        folded(a.last()) != folded(b.last()),
    ensures
        !(has_suffix_ignoring_case(path, a) && has_suffix_ignoring_case(path, b)),
{
    law_suffixes_ignoring_case(path, a);
    law_suffixes_ignoring_case(path, b);
    if has_suffix_ignoring_case(path, a) && has_suffix_ignoring_case(path, b) {
        assert(folded(path[path.len() - a.len() + (a.len() - 1)]) == folded(a[a.len() - 1]));
        assert(folded(path[path.len() - b.len() + (b.len() - 1)]) == folded(b[b.len() - 1]));
    }
}

/// The rows of files add up.
pub proof fn law_total_rows(files: Seq<DataFile>, file: DataFile)
    ensures
        total_rows(Seq::empty()) == 0,
        total_rows(files.push(file)) == total_rows(files) + file.record_count,
{
    assert(files.push(file).drop_last() =~= files);
}

/// Whether a file has the given format and compression.
pub open spec fn is_of_format(format: SourceFormat, compression: SourceCompression) -> spec_fn(
    (String, u64),
) -> bool {
    |file: (String, u64)|
        format_of(file.0@) == format && compression_of(file.0@) == compression
}

/// The files of a group keep their order, and no file of its format and compression is missing
/// from it. The first file is in the first group.
pub proof fn law_groups_keep_order(files: Seq<(String, u64)>)
    ensures
        forall|g: int|
            0 <= g < format_groups(files).len() ==> (#[trigger] format_groups(files)[g]).files
                == files.filter(
                is_of_format(format_groups(files)[g].format, format_groups(files)[g].compression),
            ) && format_groups(files)[g].files.len() > 0,
        files.len() > 0 ==> format_groups(files).len() > 0 && format_groups(files)[0].files[0]
            == files[0],
    decreases files.len(),
{
    reveal(Seq::filter);
    if files.len() > 0 {
        let (init, last) = (files.drop_last(), files.last());
        let (format, compression) = (format_of(last.0@), compression_of(last.0@));
        law_groups_keep_order(init);
        law_groups_are_uniform(init);
        let groups = format_groups(init);
        let next = format_groups(files);
        lemma_format_position(groups, format, compression);
        assert forall|g: int| 0 <= g < next.len() implies (#[trigger] next[g]).files == files.filter(
            is_of_format(next[g].format, next[g].compression),
        ) && next[g].files.len() > 0 by {
            let same = is_of_format(next[g].format, next[g].compression);
            if g < groups.len() {
                assert(groups[g].files == init.filter(same));
                match format_position(groups, format, compression) {
                    Some(at) => {
                        if g == at {
                            assert(same(last));
                        } else {
                            if g < at {
                                assert(!(groups[g].format == groups[at].format
                                    && groups[g].compression == groups[at].compression));
                            } else {
                                assert(!(groups[at].format == groups[g].format
                                    && groups[at].compression == groups[g].compression));
                            }
                            assert(!same(last));
                        }
                    },
                    None => {
                        assert(!same(last));
                    },
                }
            } else {
                assert(init.filter(same).len() == 0) by {
                    if init.filter(same).len() > 0 {
                        broadcast use vstd::seq_lib::group_filter_ensures;

                        let file = init.filter(same)[0];
                        assert(same(file));
                        assert(init.filter(same).contains(file));
                        init.lemma_filter_contains_rev(same, file);
                        let k = choose|k: int| 0 <= k < init.len() && init[k] == file;
                        lemma_format_grouped(init, k);
                    }
                }
                assert(init.filter(same).push(last) =~= seq![last]);
                assert(same(last));
            }
        }
        if init.len() > 0 {
            assert(groups[0].files.len() > 0);
            assert(next[0].files[0] == groups[0].files[0]);
        } else {
            assert(groups.len() == 0);
        }
    }
}

proof fn lemma_format_grouped(files: Seq<(String, u64)>, k: int)
    requires
        0 <= k < files.len(),
    ensures
        exists|g: int|
            0 <= g < format_groups(files).len() && (#[trigger] format_groups(files)[g]).format
                == format_of(files[k].0@) && format_groups(files)[g].compression == compression_of(
                files[k].0@,
            ),
    decreases files.len(),
{
    let (init, last) = (files.drop_last(), files.last());
    let groups = format_groups(init);
    let next = format_groups(files);
    let (format, compression) = (format_of(last.0@), compression_of(last.0@));
    lemma_format_position(groups, format, compression);
    if k < init.len() {
        lemma_format_grouped(init, k);
        let g = choose|g: int|
            0 <= g < groups.len() && (#[trigger] groups[g]).format == format_of(init[k].0@)
                && groups[g].compression == compression_of(init[k].0@);
        assert(next[g].format == groups[g].format && next[g].compression == groups[g].compression);
    } else {
        match format_position(groups, format, compression) {
            Some(at) => {
                assert(next[at].format == format && next[at].compression == compression);
            },
            None => {
                assert(next[groups.len() as int].format == format);
            },
        }
    }
}

/// Files are loaded into a table with a schema, in place of all others or beside them. They can
/// become part of it as they are only where it is unpartitioned.
pub proof fn law_load_targets(
    metadata: TableMetadata,
    overwrite: bool,
    target: Result<LoadTarget, MissingSchema>,
)
    requires
        call_ensures(load_target, (&metadata, overwrite), target),
    ensures
        target is Ok <==> metadata.current_schema_position() is Some,
        target matches Ok(t) ==> {
            &&& t.update_kind is FullOverwrite <==> overwrite
            &&& t.update_kind is FastAppend <==> !overwrite
            &&& metadata.schemas@[t.schema_index as int].schema_id == metadata.current_schema_id
            &&& metadata.default_spec_position() is Some ==> (t.allow_fast
                <==> metadata.partition_specs@[metadata.default_spec_position()->0].fields@.len()
                == 0) && t.spec_id == metadata.default_spec_id
            &&& metadata.default_spec_position() is None ==> t.allow_fast && t.spec_id == 0
        },
{
    law_current_snapshots(metadata);
}

/// A load is committed in one piece where nothing is rewritten, and otherwise has a writer for
/// each group beside the files that are added.
pub proof fn law_load_shapes(fast_files: usize, groups: usize, shape: LoadShape)
    requires
        call_ensures(load_shape, (fast_files, groups), shape),
    ensures
        shape.writers == groups,
        fast_files > 0 ==> shape.adds_files,
        groups == 0 ==> shape.adds_files,
        shape.adds_files || shape.writers > 0,
        shape.adds_files && fast_files == 0 ==> shape.writers == 0,
{
}

/// The file for a Parquet file that becomes part of the table as it is has the counts, the sizes
/// and the bounds of its footer, lies in no partition, and says nothing that the footer does not.
pub proof fn law_data_files_say_what_footers_say(
    path: String,
    stats: FooterStats,
    spec_id: i32,
    file: DataFile,
)
    requires
        call_ensures(build_data_file, (path, stats, spec_id), file),
    ensures
        file.content == DataContentType::Data,
        file.file_format == DataFileFormat::Parquet,
        file.file_path == path,
        file.partition_spec_id == spec_id,
        file.partition@.len() == 0,
        file.record_count == stats.row_count,
        file.file_size_in_bytes == stats.file_size,
        file.column_sizes == stats.column_sizes,
        file.value_counts == stats.value_counts,
        file.null_value_counts == stats.null_value_counts,
        file.lower_bounds == stats.lower_bounds,
        file.upper_bounds == stats.upper_bounds,
        file.split_offsets == stats.split_offsets,
        file.nan_value_counts@.len() == 0 && file.equality_ids@.len() == 0,
        file.sort_order_id is None && file.first_row_id is None && file.key_metadata is None,
        file.block_size_in_bytes is None && file.referenced_data_file is None,
        file.content_offset is None && file.content_size_in_bytes is None,
{
}

/// Files that are read by their format are read one by one: as many groups as files, each with
/// one file, at the place that its location stands for and in its full size.
pub proof fn law_files_are_read_one_by_one(
    files: Vec<(String, u64)>,
    scan: Result<FallbackScan, LoadError>,
    i: int,
)
    requires
        call_ensures(build_fallback_scan, (&files,), scan),
        0 <= i < files@.len(),
    ensures
        scan matches Ok(s) ==> {
            &&& s.file_groups@.len() == files@.len()
            &&& s.file_groups@[i]@.len() == 1
            &&& s.file_groups@[i]@[0].1 == files@[i].1
            &&& url_parsed(files@[i].0@) == Ok::<_, Seq<char>>(s.file_groups@[i]@[0].0@)
            &&& url_store(files@[0].0@) == Ok::<_, Seq<char>>(s.store_url@)
        },
{
    if scan is Ok {
        let s = scan->Ok_0;
        assert(holds_file(s.file_groups@[i]@, files@[i]));
    }
}

/// A file that is loaded by its own location is what the location names, with its size; one that
/// is not there is an error that says so.
pub proof fn law_single_files_are_looked_up(
    location: &str,
    key: String,
    url: String,
    size: Result<u64, String>,
    file: Result<SourceFile, LoadError>,
)
    requires
        call_ensures(single_source, (location, key, url, size), file),
    ensures
        size matches Ok(s) ==> file == Ok::<_, LoadError>(SourceFile { key, url, size: s }),
        size matches Err(reason) ==> (file matches Err(e) && e@ == (LoadFault::MissingSource {
            location: location@,
            reason: reason@,
        })),
{
}

/// Loaded files are handed on as they are, with all their rows counted, and nothing of the table
/// is changed but by them.
pub proof fn law_loaded_rows_are_reported(
    load: IcebergLoadDataFastExec,
    operation: Operation,
    output: (Vec<DataFile>, CommitMeta),
)
    requires
        call_ensures(IcebergLoadDataFastExec::into_output, (load, operation), output),
    ensures
        output.0 == load.spec_data_files(),
        output.1.row_count == total_rows(output.0@),
        output.1.operation == operation,
        output.1.table_uri == load.spec_table_url(),
        output.1.requirements == load.spec_requirements(),
        output.1.table_properties == load.spec_table_properties(),
        output.1.lakehouse_table == load.spec_lakehouse_table(),
        output.1.schema is None && output.1.partition_spec is None,
        output.1.touched_file_paths@.len() == 0,
        output.1.overwrite_predicate is None && output.1.overwrite_partition_values is None,
{
}

/// Where nothing is asked of how files end, every listed file is chosen; otherwise those that end
/// so, and no others.
pub proof fn law_chosen_files(name: Seq<char>, ending: Seq<char>, size: u64)
    ensures
        key_ends(None)((name, size)),
        key_ends(Some(ending))((name + ending, size)),
        key_ends(Some(ending))((name, size)) ==> name.len() >= ending.len() && name.skip(
            name.len() - ending.len(),
        ) == ending,
{
    assert((name + ending).skip(name.len() as int) =~= ending);
}

} // verus!
