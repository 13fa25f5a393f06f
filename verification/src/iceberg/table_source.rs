//! Tables as sources of plans.

use vstd::prelude::*;
use vstd::string::*;

use crate::affix::eq_ignore_case;
use crate::iceberg::columns::{add_column, project_column, MERGE_FILE_COLUMN};

verus! {

use crate::affix::folded_text;
use crate::iceberg::columns::{projected, with_column};
use crate::iceberg::contents::{optional_text, texts};

/// A table as a source of rows, which may be tagged with the files that they come from.
#[derive(Debug)]
pub struct IcebergTableSource<P> {
    provider: P,
    /// When set, each row is tagged with its source file path in a column of this name (used
    /// by row-level operations for targeted rewrite).
    file_column: Option<String>,
}

impl<P> IcebergTableSource<P> {
    pub closed spec fn spec_provider(self) -> P {
        self.provider
    }

    pub closed spec fn spec_file_column(self) -> Option<String> {
        self.file_column
    }

    pub fn new(provider: P) -> (source: IcebergTableSource<P>)
        ensures
            source.spec_provider() == provider,
            source.spec_file_column() is None,
    {
        IcebergTableSource { provider, file_column: None }
    }

    pub fn provider(&self) -> (provider: &P)
        ensures
            *provider == self.spec_provider(),
    {
        &self.provider
    }

    /// The column that tells which file a row comes from, where rows are tagged.
    pub fn file_column_name(&self) -> (name: Option<&String>)
        ensures
            match name {
                Some(n) => self.spec_file_column() == Some(*n),
                None => self.spec_file_column() is None,
            },
    {
        match &self.file_column {
            Some(name) => Some(name),
            None => None,
        }
    }

    /// The same source, with its rows tagged.
    pub fn with_file_column(self, name: &str) -> (source: IcebergTableSource<P>)
        ensures
            source.spec_provider() == self.spec_provider(),
            optional_text(source.spec_file_column()) == Some(name@),
    {
        IcebergTableSource { provider: self.provider, file_column: Some(name.to_owned()) }
    }

    /// The columns of the source, given those of the table: the file path comes last, unless
    /// the table has a column of that name.
    pub fn schema(&self, columns: Vec<String>) -> (schema: Vec<String>)
        ensures
            texts(schema@) == (match self.spec_file_column() {
                Some(name) => with_column(texts(columns@), name@),
                None => texts(columns@),
            }),
    {
        match &self.file_column {
            Some(name) => add_column(columns, name.as_str()),
            None => columns,
        }
    }

    /// The source and the projection of a scan whose rows are changed: the rows are tagged, and
    /// the file path is among the columns that are read. Nothing is changed where the rows are
    /// tagged already.
    pub fn ensure_update_metadata_columns(
        self,
        columns: Vec<String>,
        projection: Option<Vec<usize>>,
    ) -> (scan: (IcebergTableSource<P>, Option<Vec<usize>>))
        ensures
            scan.0.spec_provider() == self.spec_provider(),
            match self.spec_file_column() {
                Some(_) => scan.0 == self && scan.1 == projection,
                None => optional_text(scan.0.spec_file_column()) == Some(MERGE_FILE_COLUMN@) && (
                match projection {
                    None => scan.1 is None,
                    Some(p) => scan.1 matches Some(q) && q@ == projected(
                        p@,
                        with_column(texts(columns@), MERGE_FILE_COLUMN@),
                        MERGE_FILE_COLUMN@,
                    ),
                }),
            },
    {
        if self.file_column.is_some() {
            return (self, projection);
        }
        let source = self.with_file_column(MERGE_FILE_COLUMN);
        let schema = source.schema(columns);
        let projection = match projection {
            Some(projection) => Some(project_column(projection, &schema, MERGE_FILE_COLUMN)),
            None => None,
        };
        (source, projection)
    }

    /// Whether filters stay above the scan: where rows are tagged, all files are read and no
    /// filter is applied on the way.
    pub fn keeps_filters(&self) -> (keeps: bool)
        ensures
            keeps <==> self.spec_file_column() is Some,
    {
        self.file_column.is_some()
    }
}

/// A node of a logical plan.
#[derive(Debug)]
pub enum ExtensionNode {
    /// A write to a table of this format.
    IcebergWrite,
    /// Rows of a table of the given format are changed.
    RowLevelWrite { target_format: String },
    Other,
}

/// Who plans a node.
#[derive(Debug, Clone, Copy, PartialEq, Eq, Structural)]
pub enum ExtensionPlan {
    Write,
    RowLevelWrite,
    /// The node is left to others.
    NotMine,
}

/// Why a node is not planned.
#[derive(Debug, Clone, Copy, PartialEq, Eq, Structural)]
pub enum ExtensionError {
    LogicalInputs,
    PhysicalInputs,
}

impl ExtensionError {
    pub open spec fn spec_message(self) -> Seq<char> {
        match self {
            ExtensionError::LogicalInputs => {
                "IcebergWriteNode requires exactly one logical input"@
            },
            ExtensionError::PhysicalInputs => {
                "IcebergWriteNode requires exactly one physical input"@
            },
        }
    }

    pub fn message(&self) -> (text: String)
        ensures
            text@ == self.spec_message(),
    {
        match self {
            ExtensionError::LogicalInputs => {
                "IcebergWriteNode requires exactly one logical input".to_owned()
            },
            ExtensionError::PhysicalInputs => {
                "IcebergWriteNode requires exactly one physical input".to_owned()
            },
        }
    }
}

/// How a table is scanned.
#[derive(Debug, Clone, Copy, PartialEq, Eq, Structural)]
pub enum TableScanPlan {
    /// The table is of another kind.
    NotMine,
    /// The table has no snapshot, and so no rows.
    Empty,
    /// The files are found in the manifests and read one by one, with their paths.
    ByDataFiles,
    /// The provider scans the table.
    Provider,
}

pub struct IcebergPhysicalPlanner;

impl IcebergPhysicalPlanner {
    /// Who plans a node with so many inputs.
    pub fn plan_extension(
        &self,
        node: &ExtensionNode,
        logical_inputs: usize,
        physical_inputs: usize,
    ) -> (plan: Result<ExtensionPlan, ExtensionError>)
        ensures
            plan == (match *node {
                ExtensionNode::IcebergWrite => if logical_inputs != 1 {
                    Err(ExtensionError::LogicalInputs)
                } else if physical_inputs != 1 {
                    Err(ExtensionError::PhysicalInputs)
                } else {
                    Ok(ExtensionPlan::Write)
                },
                ExtensionNode::RowLevelWrite { target_format } => Ok(
                    if folded_text(target_format@) == folded_text("iceberg"@) {
                        ExtensionPlan::RowLevelWrite
                    } else {
                        ExtensionPlan::NotMine
                    },
                ),
                ExtensionNode::Other => Ok(ExtensionPlan::NotMine),
            }),
    {
        match node {
            ExtensionNode::IcebergWrite => {
                if logical_inputs != 1 {
                    Err(ExtensionError::LogicalInputs)
                } else if physical_inputs != 1 {
                    Err(ExtensionError::PhysicalInputs)
                } else {
                    Ok(ExtensionPlan::Write)
                }
            },
            ExtensionNode::RowLevelWrite { target_format } => {
                if eq_ignore_case(target_format.as_str(), "iceberg") {
                    Ok(ExtensionPlan::RowLevelWrite)
                } else {
                    Ok(ExtensionPlan::NotMine)
                }
            },
            ExtensionNode::Other => Ok(ExtensionPlan::NotMine),
        }
    }

    /// How a table is scanned. Where rows are tagged with their files, the files are read one
    /// by one.
    pub fn plan_table_scan<P>(
        &self,
        source: Option<&IcebergTableSource<P>>,
        has_snapshot: bool,
    ) -> (plan: TableScanPlan)
        ensures
            plan == (match source {
                None => TableScanPlan::NotMine,
                Some(s) => if s.spec_file_column() is None {
                    TableScanPlan::Provider
                } else if has_snapshot {
                    TableScanPlan::ByDataFiles
                } else {
                    TableScanPlan::Empty
                },
            }),
    {
        match source {
            None => TableScanPlan::NotMine,
            Some(source) => {
                if source.file_column.is_none() {
                    TableScanPlan::Provider
                } else if has_snapshot {
                    TableScanPlan::ByDataFiles
                } else {
                    TableScanPlan::Empty
                }
            },
        }
    }
}

/// A scan by data files is planned exactly where rows are to be tagged with their files and the
/// table has a snapshot. A table of another kind is left alone.
pub proof fn law_scans_are_planned<P>(
    planner: IcebergPhysicalPlanner,
    source: IcebergTableSource<P>,
    has_snapshot: bool,
    plan: TableScanPlan,
    other: TableScanPlan,
)
    requires
        call_ensures(
            IcebergPhysicalPlanner::plan_table_scan::<P>,
            (&planner, Some(&source), has_snapshot),
            plan,
        ),
        call_ensures(
            IcebergPhysicalPlanner::plan_table_scan::<P>,
            (&planner, None, has_snapshot),
            other,
        ),
    ensures
        plan is Provider <==> source.spec_file_column() is None,
        plan is ByDataFiles <==> source.spec_file_column() is Some && has_snapshot,
        plan is Empty <==> source.spec_file_column() is Some && !has_snapshot,
        other is NotMine,
{
}

/// A write to a table of this format is planned where it has one input of each kind; rows of
/// tables of this format are changed whatever the case of its name. All else is left to others.
pub proof fn law_extensions_are_planned(
    planner: IcebergPhysicalPlanner,
    node: ExtensionNode,
    logical: usize,
    physical: usize,
    plan: Result<ExtensionPlan, ExtensionError>,
)
    requires
        call_ensures(
            IcebergPhysicalPlanner::plan_extension,
            (&planner, &node, logical, physical),
            plan,
        ),
    ensures
        plan == Ok::<_, ExtensionError>(ExtensionPlan::Write) <==> node is IcebergWrite && logical
            == 1 && physical == 1,
        plan is Err ==> node is IcebergWrite,
        plan == Ok::<_, ExtensionError>(ExtensionPlan::RowLevelWrite) <==> (
        node matches ExtensionNode::RowLevelWrite { target_format } && folded_text(target_format@)
            == folded_text("iceberg"@)),
        node is Other ==> plan == Ok::<_, ExtensionError>(ExtensionPlan::NotMine),
{
}

} // verus!
