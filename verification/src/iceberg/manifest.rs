//! Manifests: the lists of files that a snapshot is made of.

use vstd::prelude::*;

use crate::iceberg::table::DataFile;

verus! {

#[derive(Debug, Clone, Copy, PartialEq, Eq, Structural)]
pub enum ManifestContentType {
    Data,
    Deletes,
}

#[derive(Debug, Clone, Copy, PartialEq, Eq, Structural)]
pub enum ManifestStatus {
    Existing,
    Added,
    Deleted,
}

/// The range of the values of one partition field over the files of a manifest.
#[derive(Debug)]
pub struct FieldSummary {
    pub contains_null: bool,
    pub lower_bound_bytes: Option<Vec<u8>>,
    pub upper_bound_bytes: Option<Vec<u8>>,
}

/// A manifest as the manifest list of a snapshot names it.
#[derive(Debug)]
pub struct ManifestFile {
    pub manifest_path: String,
    pub manifest_length: i64,
    pub partition_spec_id: i32,
    pub content: ManifestContentType,
    pub sequence_number: i64,
    pub min_sequence_number: i64,
    pub added_snapshot_id: i64,
    pub partitions: Option<Vec<FieldSummary>>,
}

/// A file as a manifest lists it.
#[derive(Debug)]
pub struct ManifestEntry {
    pub status: ManifestStatus,
    pub snapshot_id: Option<i64>,
    pub sequence_number: Option<i64>,
    pub data_file: DataFile,
}

/// What is known of the files in a manifest.
#[derive(Debug)]
pub enum ManifestContents {
    /// The manifest could not be read.
    Unreadable,
    /// The paths of the files that the manifest lists.
    Files { paths: Vec<String> },
}

} // verus!
