//! Which manifests of the parent snapshot a commit keeps.

use vstd::prelude::*;
use vstd::string::*;

use crate::bytes::bytes_le;
use crate::iceberg::manifest::{FieldSummary, ManifestContentType, ManifestContents, ManifestFile};
use crate::iceberg::table::{Operation, PartitionField, PartitionSpec};
use crate::json::{parse_text_lists, parse_text_pairs};
use crate::text::joined;

verus! {

use crate::bytes::lex_le;
use crate::iceberg::contents::{optional_text, text_pairs, texts};
use crate::json::{json_text_lists, json_text_pairs, text_lists};
use vstd::utf8::encode_utf8;

/// Whether a value may be among those that a summary covers. A summary without bounds may
/// cover any value.
pub open spec fn overlaps(summary: FieldSummary, value: Seq<char>) -> bool {
    match (summary.lower_bound_bytes, summary.upper_bound_bytes) {
        (Some(lower), Some(upper)) => lex_le(lower@, encode_utf8(value)) && lex_le(
            encode_utf8(value),
            upper@,
        ),
        _ => true,
    }
}

/// Whether some of the overwritten fields may hold their value in a manifest.
pub open spec fn any_field_overlaps(
    partitions: Seq<FieldSummary>,
    predicates: Seq<(usize, Seq<char>)>,
) -> bool {
    exists|k: int|
        0 <= k < predicates.len() && (#[trigger] predicates[k]).0 < partitions.len() && overlaps(
            partitions[predicates[k].0 as int],
            predicates[k].1,
        )
}

/// Whether a manifest may hold rows of a written partition.
pub open spec fn partition_overlaps(partitions: Seq<FieldSummary>, written: Seq<Seq<char>>) -> bool {
    forall|j: int|
        0 <= j < written.len() && j < partitions.len() ==> overlaps(
            partitions[j],
            #[trigger] written[j],
        )
}

/// Whether a manifest may hold rows of one of the written partitions.
pub open spec fn any_partition_overlaps(
    partitions: Seq<FieldSummary>,
    written: Seq<Seq<Seq<char>>>,
) -> bool {
    exists|k: int| 0 <= k < written.len() && partition_overlaps(partitions, #[trigger] written[k])
}

/// Whether a predicate overwrite keeps a manifest.
pub open spec fn kept_by_fields(entry: ManifestFile, predicates: Seq<(usize, Seq<char>)>) -> bool {
    match entry.partitions {
        Some(partitions) => !any_field_overlaps(partitions@, predicates),
        None => true,
    }
}

/// Whether a dynamic overwrite keeps a manifest.
pub open spec fn kept_by_values(entry: ManifestFile, written: Seq<Seq<Seq<char>>>) -> bool {
    match entry.partitions {
        Some(partitions) => !any_partition_overlaps(partitions@, written),
        None => true,
    }
}

/// Whether a row-level operation keeps a manifest: one that lists deletes, one that could
/// not be read, and one that lists no touched file.
pub open spec fn kept_untouched(
    entry: (ManifestFile, ManifestContents),
    touched: Seq<Seq<char>>,
) -> bool {
    entry.0.content is Deletes || match entry.1 {
        ManifestContents::Unreadable => true,
        ManifestContents::Files { paths } => !exists|i: int|
            0 <= i < paths@.len() && touched.contains((#[trigger] paths@[i])@),
    }
}

/// The value under a name in a list of pairs, the last one where the name occurs twice.
pub open spec fn last_value(
    pairs: Seq<(Seq<char>, Seq<char>)>,
    name: Seq<char>,
) -> Option<Seq<char>>
    decreases pairs.len(),
{
    if pairs.len() == 0 {
        None
    } else if pairs.last().0 == name {
        Some(pairs.last().1)
    } else {
        last_value(pairs.drop_last(), name)
    }
}

/// The partition fields that a predicate names, with the values that it gives them.
pub open spec fn predicate_fields(
    pairs: Seq<(Seq<char>, Seq<char>)>,
    fields: Seq<PartitionField>,
) -> Seq<(usize, Seq<char>)>
    decreases fields.len(),
{
    if fields.len() == 0 {
        Seq::empty()
    } else {
        let init = predicate_fields(pairs, fields.drop_last());
        match last_value(pairs, fields.last().name@) {
            Some(value) => init.push(((fields.len() - 1) as usize, value)),
            None => init,
        }
    }
}

/// Positions and values, by their characters.
pub open spec fn predicates_view(predicates: Seq<(usize, String)>) -> Seq<(usize, Seq<char>)> {
    predicates.map_values(|p: (usize, String)| (p.0, p.1@))
}

fn may_hold(summary: &FieldSummary, value: &String) -> (overlap: bool)
    ensures
        overlap == overlaps(*summary, value@),
{
    match (&summary.lower_bound_bytes, &summary.upper_bound_bytes) {
        (Some(lower), Some(upper)) => {
            let bytes = value.as_str().as_bytes();
            bytes_le(lower.as_slice(), bytes) && bytes_le(bytes, upper.as_slice())
        },
        _ => true,
    }
}

fn find_last_value(pairs: &Vec<(String, String)>, name: &String) -> (value: Option<String>)
    ensures
        match value {
            Some(v) => last_value(text_pairs(pairs@), name@) == Some(v@),
            None => last_value(text_pairs(pairs@), name@) is None,
        },
{
    let mut value: Option<String> = None;
    for i in 0..pairs.len()
        invariant
            match value {
                Some(v) => last_value(text_pairs(pairs@).take(i as int), name@) == Some(v@),
                None => last_value(text_pairs(pairs@).take(i as int), name@) is None,
            },
    {
        let ghost all = text_pairs(pairs@);
        assert(all.take(i + 1).drop_last() =~= all.take(i as int));
        if pairs[i].0 == *name {
            value = Some(pairs[i].1.clone());
        }
    }
    assert(text_pairs(pairs@).take(pairs@.len() as int) =~= text_pairs(pairs@));
    value
}

/// The partition fields that a predicate names, with the values that it gives them.
pub fn field_predicates(pairs: &Vec<(String, String)>, spec: &PartitionSpec) -> (predicates: Vec<
    (usize, String),
>)
    ensures
        predicates_view(predicates@) == predicate_fields(text_pairs(pairs@), spec.fields@),
{
    let mut predicates: Vec<(usize, String)> = Vec::new();
    assert(predicates_view(predicates@) =~= Seq::<(usize, Seq<char>)>::empty());
    for i in 0..spec.fields.len()
        invariant
            predicates_view(predicates@) == predicate_fields(
                text_pairs(pairs@),
                spec.fields@.take(i as int),
            ),
    {
        assert(spec.fields@.take(i + 1).drop_last() =~= spec.fields@.take(i as int));
        match find_last_value(pairs, &spec.fields[i].name) {
            Some(value) => {
                let ghost before = predicates_view(predicates@);
                predicates.push((i, value));
                assert(predicates_view(predicates@) =~= before.push((i, value@)));
            },
            None => {},
        }
    }
    assert(spec.fields@.take(spec.fields@.len() as int) =~= spec.fields@);
    predicates
}

/// How a commit chooses the parent manifests that it keeps.
#[derive(Debug)]
pub enum ParentFilter {
    /// All manifests are kept: the new files are added to those of the table.
    KeepAll,
    /// No manifest is kept.
    ReplaceAll,
    /// Those are kept that hold none of the given values in the given partition fields.
    Fields { predicates: Vec<(usize, String)> },
    /// Those are kept that hold no row of the written partitions.
    Values { written: Vec<Vec<String>> },
    /// Those are kept that list no touched file.
    Touched { paths: Vec<String> },
}

/// How a commit chooses the parent manifests that it keeps, by its contents.
#[allow(inconsistent_fields)]
pub enum ParentChoice {
    KeepAll,
    ReplaceAll,
    Fields { predicates: Seq<(usize, Seq<char>)> },
    Values { written: Seq<Seq<Seq<char>>> },
    Touched { paths: Seq<Seq<char>> },
}

impl View for ParentFilter {
    type V = ParentChoice;

    open spec fn view(&self) -> ParentChoice {
        match self {
            ParentFilter::KeepAll => ParentChoice::KeepAll,
            ParentFilter::ReplaceAll => ParentChoice::ReplaceAll,
            ParentFilter::Fields { predicates } => ParentChoice::Fields {
                predicates: predicates_view(predicates@),
            },
            ParentFilter::Values { written } => ParentChoice::Values {
                written: text_lists(written@),
            },
            ParentFilter::Touched { paths } => ParentChoice::Touched { paths: texts(paths@) },
        }
    }
}

/// Why the parent manifests to keep could not be made out.
#[derive(Debug)]
pub enum FilterError {
    InvalidPredicate { message: String },
    InvalidPartitionValues { message: String },
    /// The manifests of the parent could not be listed.
    Unlisted { message: String },
}

/// Why the parent manifests to keep could not be made out, by its contents.
pub enum FilterFault {
    InvalidPredicate { message: Seq<char> },
    InvalidPartitionValues { message: Seq<char> },
    Unlisted { message: Seq<char> },
}

impl View for FilterError {
    type V = FilterFault;

    open spec fn view(&self) -> FilterFault {
        match self {
            FilterError::InvalidPredicate { message } => FilterFault::InvalidPredicate {
                message: message@,
            },
            FilterError::InvalidPartitionValues { message } => {
                FilterFault::InvalidPartitionValues { message: message@ }
            },
            FilterError::Unlisted { message } => FilterFault::Unlisted { message: message@ },
        }
    }
}

impl FilterFault {
    pub open spec fn text(self) -> Seq<char> {
        match self {
            FilterFault::InvalidPredicate { message } => "Invalid overwrite predicate JSON: "@
                + message,
            FilterFault::InvalidPartitionValues { message } => "Invalid partition values JSON: "@
                + message,
            FilterFault::Unlisted { message } => message,
        }
    }
}

impl FilterError {
    /// The message of the error.
    pub fn message(&self) -> (text: String)
        ensures
            text@ == self@.text(),
    {
        match self {
            FilterError::InvalidPredicate { message } => joined(
                "Invalid overwrite predicate JSON: ",
                message.as_str(),
            ),
            FilterError::InvalidPartitionValues { message } => joined(
                "Invalid partition values JSON: ",
                message.as_str(),
            ),
            FilterError::Unlisted { message } => message.clone(),
        }
    }
}

/// How a predicate overwrite chooses, given the pairs of the predicate. A predicate that
/// names no partition field replaces everything.
pub fn filter_by_pairs(pairs: &Vec<(String, String)>, spec: &PartitionSpec) -> (filter: ParentFilter)
    ensures
        ({
            let predicates = predicate_fields(text_pairs(pairs@), spec.fields@);
            if predicates.len() == 0 {
                filter is ReplaceAll
            } else {
                filter matches ParentFilter::Fields { predicates: p } && predicates_view(p@)
                    == predicates
            }
        }),
{
    let predicates = field_predicates(pairs, spec);
    if predicates.len() == 0 {
        ParentFilter::ReplaceAll
    } else {
        ParentFilter::Fields { predicates }
    }
}

/// How a dynamic overwrite chooses, given the partitions that were written. Without any,
/// everything is replaced.
pub fn filter_by_partitions(written: Vec<Vec<String>>) -> (filter: ParentFilter)
    ensures
        if written@.len() == 0 {
            filter is ReplaceAll
        } else {
            filter == (ParentFilter::Values { written })
        },
{
    if written.len() == 0 {
        ParentFilter::ReplaceAll
    } else {
        ParentFilter::Values { written }
    }
}

/// How a commit chooses the parent manifests that it keeps. An append keeps them all. An
/// overwrite goes by its predicate, or else by the partitions that it wrote, or else by the
/// files that it touched. A delete and a replacement keep none.
pub open spec fn parent_choice(
    operation: Operation,
    overwrite_predicate: Option<Seq<char>>,
    overwrite_partition_values: Option<Seq<char>>,
    touched: Seq<Seq<char>>,
    fields: Seq<PartitionField>,
) -> Result<ParentChoice, FilterFault> {
    match operation {
        Operation::Append => Ok(ParentChoice::KeepAll),
        Operation::Delete | Operation::Replace => Ok(ParentChoice::ReplaceAll),
        Operation::Overwrite => match (overwrite_predicate, overwrite_partition_values) {
            (Some(json), _) => match json_text_pairs(json) {
                Err(message) => Err(FilterFault::InvalidPredicate { message }),
                Ok(pairs) => Ok(
                    if predicate_fields(pairs, fields).len() == 0 {
                        ParentChoice::ReplaceAll
                    } else {
                        ParentChoice::Fields { predicates: predicate_fields(pairs, fields) }
                    },
                ),
            },
            (None, Some(json)) => match json_text_lists(json) {
                Err(message) => Err(FilterFault::InvalidPartitionValues { message }),
                Ok(written) => Ok(
                    if written.len() == 0 {
                        ParentChoice::ReplaceAll
                    } else {
                        ParentChoice::Values { written }
                    },
                ),
            },
            (None, None) => Ok(
                if touched.len() == 0 {
                    ParentChoice::ReplaceAll
                } else {
                    ParentChoice::Touched { paths: touched }
                },
            ),
        },
    }
}

/// How a commit chooses the parent manifests that it keeps.
pub fn parent_filter(
    operation: Operation,
    overwrite_predicate: &Option<String>,
    overwrite_partition_values: &Option<String>,
    touched_file_paths: Vec<String>,
    spec: &PartitionSpec,
) -> (filter: Result<ParentFilter, FilterError>)
    ensures
        operation is Append ==> (filter matches Ok(f) && f is KeepAll),
        operation is Delete || operation is Replace ==> (filter matches Ok(f) && f is ReplaceAll),
        match parent_choice(
            operation,
            optional_text(*overwrite_predicate),
            optional_text(*overwrite_partition_values),
            texts(touched_file_paths@),
            spec.fields@,
        ) {
            Ok(choice) => filter matches Ok(f) && f@ == choice,
            Err(fault) => filter matches Err(e) && e@ == fault,
        },
{
    match operation {
        Operation::Append => {
            return Ok(ParentFilter::KeepAll);
        },
        Operation::Delete | Operation::Replace => {
            return Ok(ParentFilter::ReplaceAll);
        },
        Operation::Overwrite => {},
    }
    match overwrite_predicate {
        Some(json) => match parse_text_pairs(json.as_str()) {
            Ok(pairs) => Ok(filter_by_pairs(&pairs, spec)),
            Err(message) => Err(FilterError::InvalidPredicate { message }),
        },
        None => match overwrite_partition_values {
            Some(json) => match parse_text_lists(json.as_str()) {
                Ok(written) => {
                    assert(text_lists(written@).len() == written@.len());
                    Ok(filter_by_partitions(written))
                },
                Err(message) => Err(FilterError::InvalidPartitionValues { message }),
            },
            None => if touched_file_paths.len() == 0 {
                Ok(ParentFilter::ReplaceAll)
            } else {
                Ok(ParentFilter::Touched { paths: touched_file_paths })
            },
        },
    }
}

fn matches_fields(partitions: &Vec<FieldSummary>, predicates: &Vec<(usize, String)>) -> (any: bool)
    ensures
        any == any_field_overlaps(partitions@, predicates_view(predicates@)),
{
    let ghost view = predicates_view(predicates@);
    for k in 0..predicates.len()
        invariant
            view == predicates_view(predicates@),
            forall|n: int|
                0 <= n < k ==> !((#[trigger] view[n]).0 < partitions@.len() && overlaps(
                    partitions@[view[n].0 as int],
                    view[n].1,
                )),
    {
        let at: usize = predicates[k].0;
        assert(view[k as int] == (at, predicates@[k as int].1@));
        if at < partitions.len() && may_hold(&partitions[at], &predicates[k].1) {
            return true;
        }
    }
    false
}

fn matches_partition(partitions: &Vec<FieldSummary>, written: &Vec<String>) -> (all: bool)
    ensures
        all == partition_overlaps(partitions@, texts(written@)),
{
    let ghost view = texts(written@);
    for j in 0..written.len()
        invariant
            view == texts(written@),
            forall|n: int|
                0 <= n < j && n < partitions@.len() ==> overlaps(partitions@[n], #[trigger] view[n]),
    {
        assert(view[j as int] == written@[j as int]@);
        if j < partitions.len() && !may_hold(&partitions[j], &written[j]) {
            return false;
        }
    }
    true
}

fn matches_partitions(partitions: &Vec<FieldSummary>, written: &Vec<Vec<String>>) -> (any: bool)
    ensures
        any == any_partition_overlaps(partitions@, text_lists(written@)),
{
    let ghost view = text_lists(written@);
    for k in 0..written.len()
        invariant
            view == text_lists(written@),
            forall|n: int| 0 <= n < k ==> !partition_overlaps(partitions@, #[trigger] view[n]),
    {
        assert(view[k as int] == texts(written@[k as int]@));
        if matches_partition(partitions, &written[k]) {
            return true;
        }
    }
    false
}

/// The parent manifests that a predicate overwrite keeps, in order: those whose partition
/// bounds exclude every given value, and those without bounds to go by.
pub fn filter_parent_manifest_entries(
    entries: Vec<ManifestFile>,
    predicates: &Vec<(usize, String)>,
) -> (kept: Vec<ManifestFile>)
    ensures
        kept@ == entries@.filter(
            |entry: ManifestFile| kept_by_fields(entry, predicates_view(predicates@)),
        ),
{
    let ghost keep = |entry: ManifestFile| kept_by_fields(entry, predicates_view(predicates@));
    let ghost all = entries@;
    let mut kept: Vec<ManifestFile> = Vec::new();
    for entry in iter: entries
        invariant
            iter.seq() == all,
            keep == (|entry: ManifestFile| kept_by_fields(entry, predicates_view(predicates@))),
            kept@ == all.take(iter.index()).filter(keep),
    {
        let ghost n = iter.index();
        proof {
            reveal(Seq::filter);
            assert(all.take(n + 1).drop_last() =~= all.take(n));
            assert(all.take(n + 1).last() == entry);
        }
        let drop_it = match &entry.partitions {
            Some(partitions) => matches_fields(partitions, predicates),
            None => false,
        };
        if !drop_it {
            kept.push(entry);
        }
    }
    assert(all.take(all.len() as int) =~= all);
    kept
}

/// The parent manifests that a dynamic overwrite keeps, in order: those whose partition
/// bounds exclude every written partition, and those without bounds to go by.
pub fn filter_parent_manifest_entries_by_values(
    entries: Vec<ManifestFile>,
    written: &Vec<Vec<String>>,
) -> (kept: Vec<ManifestFile>)
    ensures
        kept@ == entries@.filter(
            |entry: ManifestFile| kept_by_values(entry, text_lists(written@)),
        ),
{
    let ghost keep = |entry: ManifestFile| kept_by_values(entry, text_lists(written@));
    let ghost all = entries@;
    let mut kept: Vec<ManifestFile> = Vec::new();
    for entry in iter: entries
        invariant
            iter.seq() == all,
            keep == (|entry: ManifestFile| kept_by_values(entry, text_lists(written@))),
            kept@ == all.take(iter.index()).filter(keep),
    {
        let ghost n = iter.index();
        proof {
            reveal(Seq::filter);
            assert(all.take(n + 1).drop_last() =~= all.take(n));
            assert(all.take(n + 1).last() == entry);
        }
        let drop_it = match &entry.partitions {
            Some(partitions) => matches_partitions(partitions, written),
            None => false,
        };
        if !drop_it {
            kept.push(entry);
        }
    }
    assert(all.take(all.len() as int) =~= all);
    kept
}

/// Whether a text is in a list.
pub fn contains_text(list: &Vec<String>, text: &String) -> (found: bool)
    ensures
        found == texts(list@).contains(text@),
{
    for i in 0..list.len()
        invariant
            forall|j: int| 0 <= j < i ==> texts(list@)[j] != text@,
    {
        if list[i] == *text {
            assert(texts(list@)[i as int] == text@);
            return true;
        }
    }
    false
}

/// The manifests of a list whose entries are given with their contents.
pub open spec fn manifests(entries: Seq<(ManifestFile, ManifestContents)>) -> Seq<ManifestFile> {
    entries.map_values(|entry: (ManifestFile, ManifestContents)| entry.0)
}

/// The parent manifests that a row-level operation keeps, in order: those that list none of
/// the touched files. Manifests of deletes, and those that could not be read, are kept.
pub fn compute_untouched_manifest_entries(
    entries: Vec<(ManifestFile, ManifestContents)>,
    touched_file_paths: &Vec<String>,
) -> (untouched: Vec<ManifestFile>)
    ensures
        untouched@ == manifests(
            entries@.filter(
                |entry: (ManifestFile, ManifestContents)|
                    kept_untouched(entry, texts(touched_file_paths@)),
            ),
        ),
{
    let ghost touched = texts(touched_file_paths@);
    let ghost keep = |entry: (ManifestFile, ManifestContents)|
        kept_untouched(entry, texts(touched_file_paths@));
    let ghost all = entries@;
    let mut untouched: Vec<ManifestFile> = Vec::new();
    assert(untouched@ =~= manifests(all.take(0).filter(keep))) by {
        reveal(Seq::filter);
    }
    for entry in iter: entries
        invariant
            iter.seq() == all,
            touched == texts(touched_file_paths@),
            keep == (|entry: (ManifestFile, ManifestContents)|
                kept_untouched(entry, texts(touched_file_paths@))),
            untouched@ == manifests(all.take(iter.index()).filter(keep)),
    {
        let ghost n = iter.index();
        proof {
            reveal(Seq::filter);
            assert(all.take(n + 1).drop_last() =~= all.take(n));
            assert(all.take(n + 1).last() == entry);
        }
        let ghost before = all.take(n).filter(keep);
        let (manifest, contents) = entry;
        let is_data = matches!(manifest.content, ManifestContentType::Data);
        let mut touches = false;
        if is_data {
            match &contents {
                ManifestContents::Files { paths } => {
                    for i in 0..paths.len()
                        invariant
                            touched == texts(touched_file_paths@),
                            touches <==> exists|j: int|
                                0 <= j < i && touched.contains((#[trigger] paths@[j])@),
                    {
                        if contains_text(touched_file_paths, &paths[i]) {
                            touches = true;
                        }
                    }
                },
                ManifestContents::Unreadable => {},
            }
        }
        if !touches {
            untouched.push(manifest);
            assert(untouched@ =~= manifests(before.push(entry)));
        }
    }
    assert(all.take(all.len() as int) =~= all);
    untouched
}

/// What came of listing the manifests of the parent snapshot.
#[derive(Debug)]
pub enum ParentListing {
    /// The parent snapshot names no list.
    Absent,
    /// The manifests, with what is known of their files.
    Listed { entries: Vec<(ManifestFile, ManifestContents)> },
    /// They could not be listed.
    Failed { message: String },
}

/// The manifests of the parent that a new snapshot carries forward.
#[derive(Debug)]
pub enum ParentManifests {
    /// All of them.
    All,
    /// These and no others.
    Only { entries: Vec<ManifestFile> },
    /// Nothing is said of them.
    Unsaid,
}

/// The manifests of the parent that a new snapshot carries forward, by their contents.
pub enum CarriedManifests {
    All,
    Only { entries: Seq<ManifestFile> },
    Unsaid,
}

impl View for ParentManifests {
    type V = CarriedManifests;

    open spec fn view(&self) -> CarriedManifests {
        match self {
            ParentManifests::All => CarriedManifests::All,
            ParentManifests::Only { entries } => CarriedManifests::Only { entries: entries@ },
            ParentManifests::Unsaid => CarriedManifests::Unsaid,
        }
    }
}

/// The manifests of the parent that a choice keeps. Where they cannot be listed, a row-level
/// operation falls back to full replacement, and an overwrite by predicate or by partitions
/// fails.
pub open spec fn carried_manifests(choice: ParentChoice, listing: ParentListing) -> Result<
    CarriedManifests,
    FilterFault,
> {
    match choice {
        ParentChoice::KeepAll => Ok(CarriedManifests::All),
        ParentChoice::ReplaceAll => Ok(CarriedManifests::Only { entries: Seq::empty() }),
        ParentChoice::Fields { predicates } => match listing {
            ParentListing::Absent => Ok(CarriedManifests::Only { entries: Seq::empty() }),
            ParentListing::Listed { entries } => Ok(
                CarriedManifests::Only {
                    entries: manifests(entries@).filter(
                        |entry: ManifestFile| kept_by_fields(entry, predicates),
                    ),
                },
            ),
            ParentListing::Failed { message } => Err(FilterFault::Unlisted { message: message@ }),
        },
        ParentChoice::Values { written } => match listing {
            ParentListing::Absent => Ok(CarriedManifests::Only { entries: Seq::empty() }),
            ParentListing::Listed { entries } => Ok(
                CarriedManifests::Only {
                    entries: manifests(entries@).filter(
                        |entry: ManifestFile| kept_by_values(entry, written),
                    ),
                },
            ),
            ParentListing::Failed { message } => Err(FilterFault::Unlisted { message: message@ }),
        },
        ParentChoice::Touched { paths } => Ok(
            CarriedManifests::Only {
                entries: match listing {
                    ParentListing::Listed { entries } => manifests(
                        entries@.filter(
                            |entry: (ManifestFile, ManifestContents)| kept_untouched(entry, paths),
                        ),
                    ),
                    _ => Seq::empty(),
                },
            },
        ),
    }
}

fn without_contents(entries: Vec<(ManifestFile, ManifestContents)>) -> (files: Vec<ManifestFile>)
    ensures
        files@ == manifests(entries@),
{
    let ghost all = entries@;
    let mut files: Vec<ManifestFile> = Vec::new();
    for entry in iter: entries
        invariant
            iter.seq() == all,
            files@ == manifests(all.take(iter.index())),
    {
        let ghost n = iter.index();
        let ghost before = files@;
        files.push(entry.0);
        assert(manifests(all.take(n + 1)) =~= before.push(entry.0));
    }
    assert(all.take(all.len() as int) =~= all);
    files
}

/// The manifests of the parent that a commit carries forward, given how it chooses them and
/// what came of listing them.
pub fn parent_manifests(filter: ParentFilter, listing: ParentListing) -> (parents: Result<
    ParentManifests,
    FilterError,
>)
    ensures
        match carried_manifests(filter@, listing) {
            Ok(carried) => parents matches Ok(p) && p@ == carried,
            Err(fault) => parents matches Err(e) && e@ == fault,
        },
{
    match filter {
        ParentFilter::KeepAll => Ok(ParentManifests::All),
        ParentFilter::ReplaceAll => Ok(ParentManifests::Only { entries: Vec::new() }),
        ParentFilter::Fields { predicates } => match listing {
            ParentListing::Absent => Ok(ParentManifests::Only { entries: Vec::new() }),
            ParentListing::Listed { entries } => Ok(
                ParentManifests::Only {
                    entries: filter_parent_manifest_entries(
                        without_contents(entries),
                        &predicates,
                    ),
                },
            ),
            ParentListing::Failed { message } => Err(FilterError::Unlisted { message }),
        },
        ParentFilter::Values { written } => match listing {
            ParentListing::Absent => Ok(ParentManifests::Only { entries: Vec::new() }),
            ParentListing::Listed { entries } => Ok(
                ParentManifests::Only {
                    entries: filter_parent_manifest_entries_by_values(
                        without_contents(entries),
                        &written,
                    ),
                },
            ),
            ParentListing::Failed { message } => Err(FilterError::Unlisted { message }),
        },
        ParentFilter::Touched { paths } => match listing {
            ParentListing::Listed { entries } => Ok(
                ParentManifests::Only {
                    entries: compute_untouched_manifest_entries(entries, &paths),
                },
            ),
            _ => Ok(ParentManifests::Only { entries: Vec::new() }),
        },
    }
}

/// An append loses no manifest of the table, whatever it says of overwriting and whatever came
/// of listing them.
pub proof fn law_appends_keep_the_table(
    overwrite_predicate: Option<Seq<char>>,
    overwrite_partition_values: Option<Seq<char>>,
    touched: Seq<Seq<char>>,
    fields: Seq<PartitionField>,
    listing: ParentListing,
)
    ensures
        parent_choice(
            Operation::Append,
            overwrite_predicate,
            overwrite_partition_values,
            touched,
            fields,
        ) matches Ok(choice) && carried_manifests(choice, listing) == Ok::<_, FilterFault>(
            CarriedManifests::All,
        ),
{
}

/// A manifest that a row-level operation keeps lists none of the touched files, unless it
/// lists deletes or could not be read; and a manifest that lists none of them is kept.
pub proof fn law_untouched_manifests_are_kept(
    entries: Seq<(ManifestFile, ManifestContents)>,
    touched: Seq<Seq<char>>,
)
    ensures
        ({
            let kept = entries.filter(
                |entry: (ManifestFile, ManifestContents)| kept_untouched(entry, touched),
            );
            &&& forall|i: int| 0 <= i < kept.len() ==> kept_untouched(#[trigger] kept[i], touched)
            &&& forall|i: int|
                0 <= i < entries.len() && kept_untouched(#[trigger] entries[i], touched)
                    ==> kept.contains(entries[i])
        }),
{
    broadcast use vstd::seq_lib::group_filter_ensures;

    let keep = |entry: (ManifestFile, ManifestContents)| kept_untouched(entry, touched);
    let kept = entries.filter(keep);
    assert forall|i: int| 0 <= i < kept.len() implies kept_untouched(#[trigger] kept[i], touched) by {
        assert(keep(kept[i]));
    }
    assert forall|i: int|
        0 <= i < entries.len() && kept_untouched(#[trigger] entries[i], touched) implies kept.contains(
        entries[i],
    ) by {
        assert(keep(entries[i]));
    }
}

/// Whether a value lies outside the bounds of a summary: below the lower or above the upper one.
/// No value lies outside a summary that lacks a bound.
pub open spec fn lies_outside(summary: FieldSummary, value: Seq<char>) -> bool {
    &&& summary.lower_bound_bytes is Some
    &&& summary.upper_bound_bytes is Some
    &&& !lex_le(summary.lower_bound_bytes->0@, encode_utf8(value)) || !lex_le(
        encode_utf8(value),
        summary.upper_bound_bytes->0@,
    )
}

/// Whether some field of a written partition has a value outside the bounds of its summary.
pub open spec fn some_field_outside(partitions: Seq<FieldSummary>, values: Seq<Seq<char>>) -> bool {
    exists|j: int|
        0 <= j < values.len() && j < partitions.len() && lies_outside(
            partitions[j],
            #[trigger] values[j],
        )
}

/// Whether a manifest cannot hold a row of any written partition: of each of them some field has
/// a value outside the bounds of the manifest. Of a manifest without summaries nothing is known.
pub open spec fn excludes_partitions(entry: ManifestFile, written: Seq<Seq<Seq<char>>>) -> bool {
    entry.partitions matches Some(partitions) ==> forall|k: int|
        0 <= k < written.len() ==> some_field_outside(partitions@, #[trigger] written[k])
}

/// Whether a manifest cannot hold any of the values that a predicate gives to its fields.
pub open spec fn excludes_values(
    entry: ManifestFile,
    predicates: Seq<(usize, Seq<char>)>,
) -> bool {
    entry.partitions matches Some(partitions) ==> forall|k: int|
        0 <= k < predicates.len() ==> (#[trigger] predicates[k]).0 >= partitions@.len()
            || lies_outside(partitions@[predicates[k].0 as int], predicates[k].1)
}

/// A dynamic overwrite drops no manifest that cannot hold a row of a written partition, and keeps
/// no other one but those of which nothing is known: the manifests that it carries forward are
/// exactly those, in their order.
pub proof fn law_dynamic_overwrites_keep_other_partitions(
    written: Seq<Seq<Seq<char>>>,
    entries: Vec<(ManifestFile, ManifestContents)>,
)
    ensures
        carried_manifests(
            ParentChoice::Values { written },
            ParentListing::Listed { entries },
        ) matches Ok(CarriedManifests::Only { entries: kept }) && kept == entries@.map_values(
            |entry: (ManifestFile, ManifestContents)| entry.0,
        ).filter(|entry: ManifestFile| excludes_partitions(entry, written)),
{
    let kept_ones = |entry: ManifestFile| kept_by_values(entry, written);
    let excluded = |entry: ManifestFile| excludes_partitions(entry, written);
    assert forall|entry: ManifestFile| #[trigger] kept_ones(entry) == excluded(entry) by {
        if entry.partitions is Some {
            let partitions = entry.partitions->0@;
            if any_partition_overlaps(partitions, written) {
                let k = choose|k: int|
                    0 <= k < written.len() && partition_overlaps(partitions, #[trigger] written[k]);
                assert forall|j: int|
                    0 <= j < written[k].len() && j < partitions.len() implies !lies_outside(
                    partitions[j],
                    #[trigger] written[k][j],
                ) by {
                    assert(overlaps(partitions[j], written[k][j]));
                }
                assert(!some_field_outside(partitions, written[k]));
            } else {
                assert forall|k: int| 0 <= k < written.len() implies some_field_outside(
                    partitions,
                    #[trigger] written[k],
                ) by {
                    assert(!partition_overlaps(partitions, written[k]));
                    let j = choose|j: int|
                        0 <= j < written[k].len() && j < partitions.len() && !overlaps(
                            partitions[j],
                            #[trigger] written[k][j],
                        );
                    assert(lies_outside(partitions[j], written[k][j]));
                }
            }
        }
    }
    assert(kept_ones =~= excluded);
    assert(manifests(entries@) =~= entries@.map_values(
        |entry: (ManifestFile, ManifestContents)| entry.0,
    ));
}

/// A predicate overwrite drops no manifest that cannot hold any of the given values, and keeps no
/// other one but those of which nothing is known.
pub proof fn law_predicate_overwrites_keep_other_values(
    predicates: Seq<(usize, Seq<char>)>,
    entries: Vec<(ManifestFile, ManifestContents)>,
)
    ensures
        carried_manifests(
            ParentChoice::Fields { predicates },
            ParentListing::Listed { entries },
        ) matches Ok(CarriedManifests::Only { entries: kept }) && kept == entries@.map_values(
            |entry: (ManifestFile, ManifestContents)| entry.0,
        ).filter(|entry: ManifestFile| excludes_values(entry, predicates)),
{
    let kept_ones = |entry: ManifestFile| kept_by_fields(entry, predicates);
    let excluded = |entry: ManifestFile| excludes_values(entry, predicates);
    assert forall|entry: ManifestFile| #[trigger] kept_ones(entry) == excluded(entry) by {
        if entry.partitions is Some {
            let partitions = entry.partitions->0@;
            assert forall|k: int|
                0 <= k < predicates.len() && (#[trigger] predicates[k]).0 < partitions.len() implies (
            overlaps(partitions[predicates[k].0 as int], predicates[k].1) <==> !lies_outside(
                partitions[predicates[k].0 as int],
                predicates[k].1,
            )) by {}
            if any_field_overlaps(partitions, predicates) {
                let k = choose|k: int|
                    0 <= k < predicates.len() && (#[trigger] predicates[k]).0 < partitions.len()
                        && overlaps(partitions[predicates[k].0 as int], predicates[k].1);
                assert(!excludes_values(entry, predicates));
            }
        }
    }
    assert(kept_ones =~= excluded);
    assert(manifests(entries@) =~= entries@.map_values(
        |entry: (ManifestFile, ManifestContents)| entry.0,
    ));
}

/// A row-level operation drops exactly the manifests of data that were read and list one of the
/// touched files.
pub proof fn law_row_level_operations_drop_touched_manifests(
    paths: Seq<Seq<char>>,
    entries: Vec<(ManifestFile, ManifestContents)>,
)
    ensures
        carried_manifests(
            ParentChoice::Touched { paths },
            ParentListing::Listed { entries },
        ) matches Ok(CarriedManifests::Only { entries: kept }) && kept == entries@.filter(
            |entry: (ManifestFile, ManifestContents)|
                !(entry.0.content == ManifestContentType::Data && (
                entry.1 matches ManifestContents::Files { paths: listed } && exists|i: int, j: int|
                    0 <= i < listed@.len() && 0 <= j < paths.len() && (#[trigger] listed@[i])@
                        == #[trigger] paths[j])),
        ).map_values(|entry: (ManifestFile, ManifestContents)| entry.0),
{
    let kept_ones = |entry: (ManifestFile, ManifestContents)| kept_untouched(entry, paths);
    let untouched = |entry: (ManifestFile, ManifestContents)|
        !(entry.0.content == ManifestContentType::Data && (entry.1 matches ManifestContents::Files {
            paths: listed,
        } && exists|i: int, j: int|
            0 <= i < listed@.len() && 0 <= j < paths.len() && (#[trigger] listed@[i])@
                == #[trigger] paths[j]));
    assert forall|entry: (ManifestFile, ManifestContents)| #[trigger] kept_ones(entry)
        == untouched(entry) by {
        match entry.1 {
            ManifestContents::Files { paths: listed } => {
                if exists|i: int| 0 <= i < listed@.len() && paths.contains((#[trigger] listed@[i])@) {
                    let i = choose|i: int|
                        0 <= i < listed@.len() && paths.contains((#[trigger] listed@[i])@);
                    let j = choose|j: int| 0 <= j < paths.len() && paths[j] == listed@[i]@;
                    assert(listed@[i]@ == paths[j]);
                }
                if exists|i: int, j: int|
                    0 <= i < listed@.len() && 0 <= j < paths.len() && (#[trigger] listed@[i])@
                        == #[trigger] paths[j] {
                    let (i, j) = choose|i: int, j: int|
                        0 <= i < listed@.len() && 0 <= j < paths.len() && (#[trigger] listed@[i])@
                            == #[trigger] paths[j];
                    assert(paths.contains(listed@[i]@));
                }
            },
            ManifestContents::Unreadable => {},
        }
    }
    assert(kept_ones =~= untouched);
    assert(manifests(entries@.filter(kept_ones)) =~= entries@.filter(kept_ones).map_values(
        |entry: (ManifestFile, ManifestContents)| entry.0,
    ));
}

/// A full replacement carries nothing forward, and needs no list for that. Where the list of the
/// parent cannot be had, only a row-level operation goes on, as a full replacement; where the
/// parent has none, there is nothing to carry forward.
pub proof fn law_unlisted_parents(choice: ParentChoice, message: String, listing: ParentListing)
    ensures
        ({
            let none = Ok::<_, FilterFault>(CarriedManifests::Only { entries: Seq::empty() });
            let failed = ParentListing::Failed { message };
            &&& carried_manifests(ParentChoice::ReplaceAll, listing) == none
            &&& !(choice is KeepAll) ==> carried_manifests(choice, ParentListing::Absent) == none
            &&& choice is Touched ==> carried_manifests(choice, failed) == none
            &&& choice is Fields || choice is Values ==> carried_manifests(choice, failed) == Err::<
                CarriedManifests,
                _,
            >(FilterFault::Unlisted { message: message@ })
        }),
{
}

/// The value that a predicate gives to a name is that of the last pair with the name, and there
/// is one exactly where some pair has the name.
proof fn lemma_last_value(pairs: Seq<(Seq<char>, Seq<char>)>, name: Seq<char>)
    ensures
        last_value(pairs, name) is None <==> forall|k: int|
            0 <= k < pairs.len() ==> (#[trigger] pairs[k]).0 != name,
        last_value(pairs, name) matches Some(value) ==> exists|k: int|
            0 <= k < pairs.len() && #[trigger] pairs[k] == (name, value) && forall|m: int|
                k < m < pairs.len() ==> (#[trigger] pairs[m]).0 != name,
    decreases pairs.len(),
{
    if pairs.len() > 0 {
        let init = pairs.drop_last();
        lemma_last_value(init, name);
        let last = pairs.len() - 1;
        if pairs[last].0 == name {
            assert(pairs[last] == (name, pairs[last].1));
        } else {
            if last_value(init, name) is Some {
                let value = last_value(init, name)->0;
                let k = choose|k: int|
                    0 <= k < init.len() && #[trigger] init[k] == (name, value) && forall|m: int|
                        k < m < init.len() ==> (#[trigger] init[m]).0 != name;
                assert(pairs[k] == (name, value));
                assert forall|m: int| k < m < pairs.len() implies (#[trigger] pairs[m]).0 != name by {
                    if m < last {
                        assert(init[m].0 != name);
                    }
                }
            } else {
                assert forall|k: int| 0 <= k < pairs.len() implies (#[trigger] pairs[k]).0
                    != name by {
                    if k < last {
                        assert(init[k].0 != name);
                    }
                }
            }
        }
    }
}

/// A predicate is about exactly those fields of the partition spec that it names, in their order,
/// each with the value that the predicate gives it last.
pub proof fn law_predicates_name_partition_fields(
    pairs: Seq<(Seq<char>, Seq<char>)>,
    fields: Seq<PartitionField>,
)
    requires
        fields.len() <= usize::MAX,
    ensures
        forall|a: int, b: int|
            0 <= a < b < predicate_fields(pairs, fields).len() ==> (#[trigger] predicate_fields(
                pairs,
                fields,
            )[a]).0 < (#[trigger] predicate_fields(pairs, fields)[b]).0,
        forall|a: int|
            0 <= a < predicate_fields(pairs, fields).len() ==> {
                let (at, value) = #[trigger] predicate_fields(pairs, fields)[a];
                &&& at < fields.len()
                &&& exists|k: int|
                    0 <= k < pairs.len() && #[trigger] pairs[k] == (fields[at as int].name@, value)
                        && forall|m: int|
                        k < m < pairs.len() ==> (#[trigger] pairs[m]).0 != fields[at as int].name@
            },
        forall|i: int, k: int|
            0 <= i < fields.len() && 0 <= k < pairs.len() && (#[trigger] pairs[k]).0 == (
            #[trigger] fields[i]).name@ ==> exists|a: int|
                0 <= a < predicate_fields(pairs, fields).len() && (#[trigger] predicate_fields(
                    pairs,
                    fields,
                )[a]).0 == i,
    decreases fields.len(),
{
    if fields.len() > 0 {
        let init = fields.drop_last();
        let last = fields.len() - 1;
        law_predicates_name_partition_fields(pairs, init);
        lemma_last_value(pairs, fields.last().name@);
        let before = predicate_fields(pairs, init);
        let after = predicate_fields(pairs, fields);
        assert forall|a: int| 0 <= a < after.len() implies ({
            let (at, value) = #[trigger] after[a];
            &&& at < fields.len()
            &&& exists|k: int|
                0 <= k < pairs.len() && #[trigger] pairs[k] == (fields[at as int].name@, value)
                    && forall|m: int|
                    k < m < pairs.len() ==> (#[trigger] pairs[m]).0 != fields[at as int].name@
        }) by {
            if a < before.len() {
                assert(after[a] == before[a]);
                assert(init[before[a].0 as int] == fields[before[a].0 as int]);
            }
        }
        assert forall|a: int, b: int| 0 <= a < b < after.len() implies (#[trigger] after[a]).0 < (
        #[trigger] after[b]).0 by {
            assert(after[a] == before[a]);
            if b < before.len() {
                assert(after[b] == before[b]);
            } else {
                assert(before[a].0 < init.len());
            }
        }
        assert forall|i: int, k: int|
            0 <= i < fields.len() && 0 <= k < pairs.len() && (#[trigger] pairs[k]).0 == (
            #[trigger] fields[i]).name@ implies exists|a: int|
            0 <= a < after.len() && (#[trigger] after[a]).0 == i by {
            if i < last {
                assert(init[i] == fields[i]);
                let a = choose|a: int| 0 <= a < before.len() && (#[trigger] before[a]).0 == i;
                assert(after[a].0 == i);
            } else {
                assert(after[before.len() as int].0 == i);
            }
        }
    }
}

/// What decides which manifests a commit keeps: an append keeps all of them, and a delete and a
/// replacement none. An overwrite goes by its predicate where it has one, by its partitions where
/// it has those alone, and otherwise by the files that it touched. It keeps none where the
/// predicate names no field of the partition spec, or nothing was written or touched.
pub proof fn law_operations_choose_parents(
    operation: Operation,
    predicate: Option<Seq<char>>,
    values: Option<Seq<char>>,
    touched: Seq<Seq<char>>,
    fields: Seq<PartitionField>,
)
    requires
        fields.len() <= usize::MAX,
    ensures
        ({
            let choice = parent_choice(operation, predicate, values, touched, fields);
            &&& operation == Operation::Append ==> choice == Ok::<_, FilterFault>(
                ParentChoice::KeepAll,
            )
            &&& operation == Operation::Delete || operation == Operation::Replace ==> choice
                == Ok::<_, FilterFault>(ParentChoice::ReplaceAll)
            &&& operation == Operation::Overwrite && predicate is Some ==> match json_text_pairs(
                predicate->0,
            ) {
                Err(message) => choice == Err::<ParentChoice, _>(
                    FilterFault::InvalidPredicate { message },
                ),
                Ok(pairs) => if exists|i: int, k: int|
                    0 <= i < fields.len() && 0 <= k < pairs.len() && (#[trigger] pairs[k]).0 == (
                    #[trigger] fields[i]).name@ {
                    choice matches Ok(ParentChoice::Fields { predicates }) && predicates
                        == predicate_fields(pairs, fields)
                } else {
                    choice == Ok::<_, FilterFault>(ParentChoice::ReplaceAll)
                },
            }
            &&& operation == Operation::Overwrite && predicate is None && values is Some
                ==> match json_text_lists(values->0) {
                Err(message) => choice == Err::<ParentChoice, _>(
                    FilterFault::InvalidPartitionValues { message },
                ),
                Ok(written) => choice == Ok::<_, FilterFault>(
                    if written.len() > 0 {
                        ParentChoice::Values { written }
                    } else {
                        ParentChoice::ReplaceAll
                    },
                ),
            }
            &&& operation == Operation::Overwrite && predicate is None && values is None ==> choice
                == Ok::<_, FilterFault>(
                if touched.len() > 0 {
                    ParentChoice::Touched { paths: touched }
                } else {
                    ParentChoice::ReplaceAll
                },
            )
        }),
{
    if predicate is Some && json_text_pairs(predicate->0) is Ok {
        let pairs = json_text_pairs(predicate->0)->Ok_0;
        let named = predicate_fields(pairs, fields);
        law_predicates_name_partition_fields(pairs, fields);
        if named.len() > 0 {
            let (at, value) = named[0];
            let k = choose|k: int|
                0 <= k < pairs.len() && #[trigger] pairs[k] == (fields[at as int].name@, value)
                    && forall|m: int|
                    k < m < pairs.len() ==> (#[trigger] pairs[m]).0 != fields[at as int].name@;
            assert(pairs[k].0 == fields[at as int].name@);
        }
    }
}

} // verus!
