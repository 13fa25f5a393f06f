//! The files in which the versions of a table's metadata are kept.

use vstd::prelude::*;
use vstd::string::*;

use crate::iceberg::identifiers::{random_uuid, uuid_text};
use crate::text::{decimal_text, zero_padded_text};

verus! {

use crate::iceberg::identifiers::{is_random_uuid, uuid_display};
use crate::text::{decimal, zero_padded};

/// When a file was last changed: seconds since the epoch, and nanoseconds within the second.
#[derive(Debug, Clone, Copy, PartialEq, Eq, Structural)]
pub struct FileTimestamp {
    pub seconds: i64,
    pub nanos: u32,
}

/// Whether a moment comes before another.
pub open spec fn earlier(a: FileTimestamp, b: FileTimestamp) -> bool {
    a.seconds < b.seconds || (a.seconds == b.seconds && a.nanos < b.nanos)
}

/// Returns true when a candidate metadata file's timestamp precedes the known
/// current-metadata timestamp. A file with a higher version but an older timestamp than the
/// current metadata cannot be from a concurrent write: it is stale (left over from a
/// previous table of the same name).
pub fn is_stale_metadata_file(
    candidate_timestamp: FileTimestamp,
    current_metadata_timestamp: FileTimestamp,
) -> (stale: bool)
    ensures
        stale == earlier(candidate_timestamp, current_metadata_timestamp),
{
    candidate_timestamp.seconds < current_metadata_timestamp.seconds || (
    candidate_timestamp.seconds == current_metadata_timestamp.seconds && candidate_timestamp.nanos
        < current_metadata_timestamp.nanos)
}

/// A file in the metadata directory of a table.
#[derive(Debug)]
pub struct ListedFile {
    pub path: String,
    /// The version of the metadata that the name of the file stands for.
    pub version: Option<i32>,
    pub modified: FileTimestamp,
}

/// The listed files that hold the given version.
pub open spec fn of_version(version: i32) -> spec_fn(ListedFile) -> bool {
    |file: ListedFile| file.version == Some(version)
}

/// The listed files that hold the given version, in order.
pub fn metadata_files_for_version(files: Vec<ListedFile>, version: i32) -> (matches: Vec<ListedFile>)
    ensures
        matches@ == files@.filter(of_version(version)),
{
    let ghost all = files@;
    let mut matches: Vec<ListedFile> = Vec::new();
    for file in iter: files
        invariant
            iter.seq() == all,
            matches@ == all.take(iter.index()).filter(of_version(version)),
    {
        let ghost n = iter.index();
        proof {
            reveal(Seq::filter);
            assert(all.take(n + 1).drop_last() =~= all.take(n));
            assert(all.take(n + 1).last() == file);
        }
        let wanted = match file.version {
            Some(v) => v == version,
            None => false,
        };
        if wanted {
            matches.push(file);
        }
    }
    assert(all.take(all.len() as int) =~= all);
    matches
}

/// Whether one of the files was written while the current metadata was already there.
pub fn any_concurrent(files: &Vec<ListedFile>, current: FileTimestamp) -> (any: bool)
    ensures
        any <==> exists|i: int|
            0 <= i < files@.len() && !earlier((#[trigger] files@[i]).modified, current),
{
    for i in 0..files.len()
        invariant
            forall|j: int| 0 <= j < i ==> earlier((#[trigger] files@[j]).modified, current),
    {
        if !is_stale_metadata_file(files[i].modified, current) {
            return true;
        }
    }
    false
}

/// Whether one of the files is another than the one that was written.
pub fn any_other(files: &Vec<ListedFile>, written: &String) -> (any: bool)
    ensures
        any <==> exists|i: int| 0 <= i < files@.len() && (#[trigger] files@[i]).path@ != written@,
{
    for i in 0..files.len()
        invariant
            forall|j: int| 0 <= j < i ==> (#[trigger] files@[j]).path@ == written@,
    {
        if files[i].path != *written {
            return true;
        }
    }
    false
}

/// The name of the file for a version of the metadata: by the version alone, or by the
/// version and an identifier where several writers may write the same version.
pub open spec fn metadata_file(
    version: nat,
    identifier: Option<Seq<char>>,
    extension: Seq<char>,
) -> Seq<char> {
    match identifier {
        Some(id) => "metadata/"@ + zero_padded(decimal(version), 5) + "-"@ + id + extension,
        None => "metadata/v"@ + decimal(version) + extension,
    }
}

/// The name of the file for a version of the metadata.
pub fn metadata_file_name(version: u32, identifier: Option<String>, extension: &str) -> (name: String)
    ensures
        name@ == metadata_file(
            version as nat,
            match identifier {
                Some(id) => Some(id@),
                None => None,
            },
            extension@,
        ),
{
    match identifier {
        Some(id) => {
            let mut name = "metadata/".to_owned();
            name.append(zero_padded_text(version as u64, 5).as_str());
            name.append("-");
            name.append(id.as_str());
            name.append(extension);
            name
        },
        None => {
            let mut name = "metadata/v".to_owned();
            name.append(decimal_text(version as u64).as_str());
            name.append(extension);
            name
        },
    }
}

/// The name of a new file for a version of the metadata, with a fresh identifier where one
/// is wanted.
pub fn new_metadata_file_name(version: u32, with_identifier: bool, extension: &str) -> (name: String)
    ensures
        !with_identifier ==> name@ == metadata_file(version as nat, None, extension@),
        with_identifier ==> exists|id: u128|
            is_random_uuid(id) && name@ == metadata_file(
                version as nat,
                Some(#[trigger] uuid_display(id)),
                extension@,
            ),
{
    let identifier = if with_identifier {
        Some(uuid_text(random_uuid()))
    } else {
        None
    };
    metadata_file_name(version, identifier, extension)
}

/// What follows the last slash of a path.
pub open spec fn last_segment(path: Seq<char>) -> Seq<char>
    decreases path.len(),
{
    if path.len() == 0 || path.last() == '/' {
        Seq::empty()
    } else {
        last_segment(path.drop_last()).push(path.last())
    }
}

/// What follows the last slash of a path.
pub fn last_segment_text(path: &str) -> (segment: String)
    ensures
        segment@ == last_segment(path@),
{
    let n: usize = path.unicode_len();
    let mut start: usize = n;
    while start > 0 && path.get_char(start - 1) != '/'
        invariant
            n == path@.len(),
            start <= n,
            forall|i: int| start <= i < n ==> path@[i] != '/',
        decreases start,
    {
        start = start - 1;
    }
    proof {
        lemma_last_segment(path@, start as int);
    }
    path.substring_char(start, n).to_owned()
}

proof fn lemma_last_segment(path: Seq<char>, start: int)
    requires
        0 <= start <= path.len(),
        forall|i: int| start <= i < path.len() ==> path[i] != '/',
        start == 0 || path[start - 1] == '/',
    ensures
        last_segment(path) == path.subrange(start, path.len() as int),
    decreases path.len() - start,
{
    if start < path.len() {
        let init = path.drop_last();
        lemma_last_segment(init, start);
        assert(path.subrange(start, path.len() as int) =~= init.subrange(
            start,
            init.len() as int,
        ).push(path.last()));
    } else {
        assert(path.subrange(start, path.len() as int) =~= Seq::<char>::empty());
    }
}

/// What the version hint holds once a version of the metadata is written: the name of its
/// file where that holds an identifier, else the number of the version.
pub fn version_hint(version: u32, with_identifier: bool, file: &str) -> (hint: String)
    ensures
        hint@ == (if with_identifier {
            last_segment(file@)
        } else {
            decimal(version as nat)
        }),
{
    if with_identifier {
        last_segment_text(file)
    } else {
        decimal_text(version as u64)
    }
}

/// The version that follows the one of the current metadata file; a table without a version is
/// at zero.
pub open spec fn following_version(current: Option<u32>) -> nat {
    match current {
        Some(version) => version as nat + 1,
        None => 1,
    }
}

/// The version of the metadata that a commit writes: the one that follows the version of the
/// current metadata file, which is zero where its name does not tell.
pub fn next_metadata_version(current: Option<u32>) -> (version: u32)
    requires
        current matches Some(v) ==> v < u32::MAX,
    ensures
        version == following_version(current),
{
    match current {
        Some(version) => version + 1,
        None => 1,
    }
}

/// The metadata that a commit writes.
#[derive(Debug)]
pub struct NextMetadata {
    pub version: u32,
    /// The name of the file.
    pub file: String,
    /// What the version hint holds once the file is written.
    pub hint: String,
}

/// Where a commit writes its metadata, given the version of the current metadata file: to a file
/// of the version that follows, which the hint then stands for.
pub fn next_metadata(current: Option<u32>, with_identifier: bool, extension: &str) -> (next:
    NextMetadata)
    requires
        current matches Some(v) ==> v < u32::MAX,
    ensures
        next.version == following_version(current),
        !with_identifier ==> next.file@ == metadata_file(
            following_version(current),
            None,
            extension@,
        ) && next.hint@ == decimal(following_version(current)),
        with_identifier ==> next.hint@ == last_segment(next.file@) && exists|id: u128|
            is_random_uuid(id) && next.file@ == metadata_file(
                following_version(current),
                Some(#[trigger] uuid_display(id)),
                extension@,
            ),
{
    let version: u32 = next_metadata_version(current);
    let file = new_metadata_file_name(version, with_identifier, extension);
    let hint = version_hint(version, with_identifier, file.as_str());
    NextMetadata { version, file, hint }
}

/// Of two different moments exactly one comes before the other, a moment of an earlier second
/// does, and what comes before an earlier moment comes before a later one.
pub proof fn law_moments_are_ordered(a: FileTimestamp, b: FileTimestamp, c: FileTimestamp)
    ensures
        !(earlier(a, b) && earlier(b, a)),
        a != b ==> earlier(a, b) || earlier(b, a),
        !earlier(a, a),
        a.seconds < b.seconds ==> earlier(a, b),
        a.seconds == b.seconds ==> (earlier(a, b) <==> a.nanos < b.nanos),
        earlier(a, b) && earlier(b, c) ==> earlier(a, c),
{
}

/// The last segment of a path holds no slash, and what comes before it ends in one or is
/// nothing.
pub proof fn law_last_segments(path: Seq<char>)
    ensures
        !last_segment(path).contains('/'),
        last_segment(path).len() <= path.len(),
        path == path.take(path.len() - last_segment(path).len()) + last_segment(path),
        last_segment(path).len() < path.len() ==> path[path.len() - last_segment(path).len() - 1]
            == '/',
    decreases path.len(),
{
    let segment = last_segment(path);
    if path.len() == 0 || path.last() == '/' {
        assert(path =~= path.take(path.len() as int) + segment);
    } else {
        let init = path.drop_last();
        law_last_segments(init);
        let before = last_segment(init);
        assert(path =~= path.take(path.len() - segment.len()) + segment) by {
            assert(init =~= init.take(init.len() - before.len()) + before);
            assert(path =~= init.push(path.last()));
            assert(path.take(path.len() - segment.len()) =~= init.take(init.len() - before.len()));
        }
        if segment.contains('/') {
            let i = choose|i: int| 0 <= i < segment.len() && segment[i] == '/';
            if i < before.len() {
                assert(before[i] == '/');
            }
        }
    }
}

/// The version that a commit writes follows the current one; the first is one.
pub proof fn law_versions_follow(current: Option<u32>)
    ensures
        current matches Some(version) ==> following_version(current) == version + 1,
        current is None ==> following_version(current) == 1,
{
}

/// The name of a file without an identifier tells its version, and that of one with an identifier
/// the version in five digits at least, and the identifier.
pub proof fn law_metadata_file_names(version: nat, identifier: Seq<char>, extension: Seq<char>)
    ensures
        metadata_file(version, None, extension) == "metadata/v"@ + decimal(version) + extension,
        metadata_file(version, Some(identifier), extension) == "metadata/"@ + zero_padded(
            decimal(version),
            5,
        ) + "-"@ + identifier + extension,
{
}

/// The files of a version are those whose name stands for it, and all of those.
pub proof fn law_files_of_a_version(files: Vec<ListedFile>, version: i32, matches: Vec<ListedFile>)
    requires
        call_ensures(metadata_files_for_version, (files, version), matches),
    ensures
        forall|file: ListedFile| #[trigger]
            matches@.contains(file) <==> files@.contains(file) && file.version == Some(version),
{
    broadcast use vstd::seq_lib::group_filter_ensures;

    let wanted = of_version(version);
    assert forall|file: ListedFile| #[trigger] files@.filter(wanted).contains(file) <==> files@.contains(
        file,
    ) && file.version == Some(version) by {
        if files@.filter(wanted).contains(file) {
            let i = choose|i: int|
                0 <= i < files@.filter(wanted).len() && files@.filter(wanted)[i] == file;
            assert(wanted(files@.filter(wanted)[i]));
            files@.lemma_filter_contains_rev(wanted, file);
        }
        if files@.contains(file) && file.version == Some(version) {
            let i = choose|i: int| 0 <= i < files@.len() && files@[i] == file;
            assert(files@.filter(wanted).contains(files@[i]));
        }
    }
}

/// A file that is as young as the current metadata, or younger, was written beside it; where all
/// are older, none was.
pub proof fn law_younger_files_are_concurrent(
    files: Vec<ListedFile>,
    current: FileTimestamp,
    any: bool,
    i: int,
)
    requires
        call_ensures(any_concurrent, (&files, current), any),
        0 <= i < files@.len(),
    ensures
        files@[i].modified.seconds > current.seconds ==> any,
        files@[i].modified == current ==> any,
        (forall|j: int|
            0 <= j < files@.len() ==> (#[trigger] files@[j]).modified.seconds < current.seconds)
            ==> !any,
{
    assert(!earlier(files@[i].modified, current) ==> any);
}

/// A file at another place than the one that was written is told of, and that one itself is not.
pub proof fn law_other_files_are_found(
    files: Vec<ListedFile>,
    written: String,
    any: bool,
    i: int,
)
    requires
        call_ensures(any_other, (&files, &written), any),
        0 <= i < files@.len(),
    ensures
        files@[i].path@ != written@ ==> any,
        files@.len() == 1 && files@[0].path@ == written@ ==> !any,
{
}

/// The next metadata has the version after the current one, or the first. Without an identifier
/// the hint is that version; with one it is the name of the file.
pub proof fn law_next_metadata(
    current: Option<u32>,
    with_identifier: bool,
    extension: &str,
    next: NextMetadata,
)
    requires
        call_ensures(next_metadata, (current, with_identifier, extension), next),
        current matches Some(version) ==> version < u32::MAX,
    ensures
        current matches Some(version) ==> next.version == version + 1,
        current is None ==> next.version == 1,
        !with_identifier ==> next.hint@ == decimal(next.version as nat) && next.file@
            == "metadata/v"@ + decimal(next.version as nat) + extension@,
        with_identifier ==> next.hint@ == last_segment(next.file@),
{
}

} // verus!
