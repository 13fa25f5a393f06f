//! What must hold of a table before a commit goes through.

use vstd::prelude::*;
use vstd::string::*;

use crate::iceberg::identifiers::{shown_id_text, shown_uuid_text, uuid_text};
use crate::iceberg::table::{TableMetadata, TableRequirement, MAIN_BRANCH};
use crate::string_map::str_eq;
use crate::text::signed_decimal_text;

verus! {

use crate::assoc::value_of;
use crate::iceberg::identifiers::{shown_id, shown_uuid, uuid_display};
use crate::iceberg::table::SnapshotReference;
use crate::text::signed_decimal;

/// The part of the metadata that a requirement is about.
#[derive(Debug, Clone, Copy, PartialEq, Eq, Structural)]
pub enum Checked {
    FieldId,
    SchemaId,
    Snapshot,
    Uuid,
    PartitionId,
    SpecId,
    SortOrder,
}

/// The requirement that does not hold.
#[derive(Debug)]
#[allow(inconsistent_fields)]
pub enum RequirementError {
    /// The table exists though it must not.
    AlreadyExists,
    /// There is no metadata to check.
    MissingMetadata { checked: Checked },
    FieldId { expected: i32, found: i32 },
    SchemaId { expected: i32, found: i32 },
    Snapshot { ref_name: String, expected: Option<i64>, found: Option<i64> },
    Uuid { expected: u128, found: Option<u128> },
    PartitionId { expected: i32, found: i32 },
    SpecId { expected: i32, found: i32 },
    SortOrder { expected: i64, found: i64 },
}

/// A requirement that does not hold, by its contents.
#[allow(inconsistent_fields)]
pub enum RequirementFault {
    AlreadyExists,
    MissingMetadata { checked: Checked },
    FieldId { expected: i32, found: i32 },
    SchemaId { expected: i32, found: i32 },
    Snapshot { ref_name: Seq<char>, expected: Option<i64>, found: Option<i64> },
    Uuid { expected: u128, found: Option<u128> },
    PartitionId { expected: i32, found: i32 },
    SpecId { expected: i32, found: i32 },
    SortOrder { expected: i64, found: i64 },
}

impl View for RequirementError {
    type V = RequirementFault;

    open spec fn view(&self) -> RequirementFault {
        match self {
            RequirementError::AlreadyExists => RequirementFault::AlreadyExists,
            RequirementError::MissingMetadata { checked } => RequirementFault::MissingMetadata {
                checked: *checked,
            },
            RequirementError::FieldId { expected, found } => RequirementFault::FieldId {
                expected: *expected,
                found: *found,
            },
            RequirementError::SchemaId { expected, found } => RequirementFault::SchemaId {
                expected: *expected,
                found: *found,
            },
            RequirementError::Snapshot { ref_name, expected, found } => RequirementFault::Snapshot {
                ref_name: ref_name@,
                expected: *expected,
                found: *found,
            },
            RequirementError::Uuid { expected, found } => RequirementFault::Uuid {
                expected: *expected,
                found: *found,
            },
            RequirementError::PartitionId { expected, found } => RequirementFault::PartitionId {
                expected: *expected,
                found: *found,
            },
            RequirementError::SpecId { expected, found } => RequirementFault::SpecId {
                expected: *expected,
                found: *found,
            },
            RequirementError::SortOrder { expected, found } => RequirementFault::SortOrder {
                expected: *expected,
                found: *found,
            },
        }
    }
}

/// The part of the metadata that a requirement is about; `None` of the one that wants no
/// metadata at all.
pub open spec fn checked_part(requirement: TableRequirement) -> Option<Checked> {
    match requirement {
        TableRequirement::NotExist => None,
        TableRequirement::UuidMatch { .. } => Some(Checked::Uuid),
        TableRequirement::RefSnapshotIdMatch { .. } => Some(Checked::Snapshot),
        TableRequirement::LastAssignedFieldIdMatch { .. } => Some(Checked::FieldId),
        TableRequirement::CurrentSchemaIdMatch { .. } => Some(Checked::SchemaId),
        TableRequirement::LastAssignedPartitionIdMatch { .. } => Some(Checked::PartitionId),
        TableRequirement::DefaultSpecIdMatch { .. } => Some(Checked::SpecId),
        TableRequirement::DefaultSortOrderIdMatch { .. } => Some(Checked::SortOrder),
    }
}

/// The snapshot that a reference stands for: the current snapshot for the main branch. A
/// negative id stands for none.
pub open spec fn referenced_snapshot(
    current_snapshot_id: Option<i64>,
    refs: Seq<(Seq<char>, SnapshotReference)>,
    ref_name: Seq<char>,
) -> Option<i64> {
    let actual = if ref_name == MAIN_BRANCH@ {
        current_snapshot_id
    } else {
        match value_of(refs, ref_name) {
            Some(reference) => Some(reference.snapshot_id),
            None => None,
        }
    };
    match actual {
        Some(id) if id >= 0 => Some(id),
        _ => None,
    }
}

/// What is wrong with existing metadata, where a requirement does not hold of it.
pub open spec fn metadata_fault(
    metadata: TableMetadata,
    requirement: TableRequirement,
) -> Option<RequirementFault> {
    match requirement {
        TableRequirement::NotExist => Some(RequirementFault::AlreadyExists),
        TableRequirement::UuidMatch { uuid } => if metadata.table_uuid == Some(uuid) {
            None
        } else {
            Some(RequirementFault::Uuid { expected: uuid, found: metadata.table_uuid })
        },
        TableRequirement::RefSnapshotIdMatch { ref_name, snapshot_id } => {
            let found = referenced_snapshot(
                metadata.current_snapshot_id,
                metadata.refs@,
                ref_name@,
            );
            if found == snapshot_id {
                None
            } else {
                Some(
                    RequirementFault::Snapshot {
                        ref_name: ref_name@,
                        expected: snapshot_id,
                        found,
                    },
                )
            }
        },
        TableRequirement::LastAssignedFieldIdMatch { last_assigned_field_id } => {
            if metadata.last_column_id == last_assigned_field_id {
                None
            } else {
                Some(
                    RequirementFault::FieldId {
                        expected: last_assigned_field_id,
                        found: metadata.last_column_id,
                    },
                )
            }
        },
        TableRequirement::CurrentSchemaIdMatch { current_schema_id } => {
            if metadata.current_schema_id == current_schema_id {
                None
            } else {
                Some(
                    RequirementFault::SchemaId {
                        expected: current_schema_id,
                        found: metadata.current_schema_id,
                    },
                )
            }
        },
        TableRequirement::LastAssignedPartitionIdMatch { last_assigned_partition_id } => {
            if metadata.last_partition_id == last_assigned_partition_id {
                None
            } else {
                Some(
                    RequirementFault::PartitionId {
                        expected: last_assigned_partition_id,
                        found: metadata.last_partition_id,
                    },
                )
            }
        },
        TableRequirement::DefaultSpecIdMatch { default_spec_id } => {
            if metadata.default_spec_id == default_spec_id {
                None
            } else {
                Some(
                    RequirementFault::SpecId {
                        expected: default_spec_id,
                        found: metadata.default_spec_id,
                    },
                )
            }
        },
        TableRequirement::DefaultSortOrderIdMatch { default_sort_order_id } => {
            let found = match metadata.default_sort_order_id {
                Some(id) => id as i64,
                None => 0i64,
            };
            if found == default_sort_order_id {
                None
            } else {
                Some(RequirementFault::SortOrder { expected: default_sort_order_id, found })
            }
        },
    }
}

/// What is wrong, where a requirement does not hold of a table.
pub open spec fn requirement_fault(
    metadata: Option<&TableMetadata>,
    requirement: TableRequirement,
) -> Option<RequirementFault> {
    match metadata {
        Some(m) => metadata_fault(*m, requirement),
        None => match checked_part(requirement) {
            Some(checked) => Some(RequirementFault::MissingMetadata { checked }),
            None => None,
        },
    }
}

/// The first thing that is wrong, where not all requirements hold.
pub open spec fn first_fault(
    metadata: Option<&TableMetadata>,
    requirements: Seq<TableRequirement>,
) -> Option<RequirementFault>
    decreases requirements.len(),
{
    if requirements.len() == 0 {
        None
    } else {
        match first_fault(metadata, requirements.drop_last()) {
            Some(fault) => Some(fault),
            None => requirement_fault(metadata, requirements.last()),
        }
    }
}

/// The snapshot that a reference stands for.
pub fn resolve_reference(metadata: &TableMetadata, ref_name: &str) -> (id: Option<i64>)
    ensures
        id == referenced_snapshot(metadata.current_snapshot_id, metadata.refs@, ref_name@),
{
    let actual = if str_eq(ref_name, MAIN_BRANCH) {
        metadata.current_snapshot_id
    } else {
        match metadata.refs.get(ref_name) {
            Some(reference) => Some(reference.snapshot_id),
            None => None,
        }
    };
    match actual {
        Some(id) => if id >= 0 {
            Some(id)
        } else {
            None
        },
        None => None,
    }
}

fn check_metadata(metadata: &TableMetadata, requirement: &TableRequirement) -> (result: Result<
    (),
    RequirementError,
>)
    ensures
        match result {
            Ok(()) => metadata_fault(*metadata, *requirement) is None,
            Err(e) => metadata_fault(*metadata, *requirement) == Some(e@),
        },
{
    match requirement {
        TableRequirement::NotExist => Err(RequirementError::AlreadyExists),
        TableRequirement::UuidMatch { uuid } => {
            let matches = match metadata.table_uuid {
                Some(found) => found == *uuid,
                None => false,
            };
            if matches {
                Ok(())
            } else {
                Err(RequirementError::Uuid { expected: *uuid, found: metadata.table_uuid })
            }
        },
        TableRequirement::RefSnapshotIdMatch { ref_name, snapshot_id } => {
            let found = resolve_reference(metadata, ref_name.as_str());
            if found == *snapshot_id {
                Ok(())
            } else {
                Err(
                    RequirementError::Snapshot {
                        ref_name: ref_name.clone(),
                        expected: *snapshot_id,
                        found,
                    },
                )
            }
        },
        TableRequirement::LastAssignedFieldIdMatch { last_assigned_field_id } => {
            if metadata.last_column_id == *last_assigned_field_id {
                Ok(())
            } else {
                Err(
                    RequirementError::FieldId {
                        expected: *last_assigned_field_id,
                        found: metadata.last_column_id,
                    },
                )
            }
        },
        TableRequirement::CurrentSchemaIdMatch { current_schema_id } => {
            if metadata.current_schema_id == *current_schema_id {
                Ok(())
            } else {
                Err(
                    RequirementError::SchemaId {
                        expected: *current_schema_id,
                        found: metadata.current_schema_id,
                    },
                )
            }
        },
        TableRequirement::LastAssignedPartitionIdMatch { last_assigned_partition_id } => {
            if metadata.last_partition_id == *last_assigned_partition_id {
                Ok(())
            } else {
                Err(
                    RequirementError::PartitionId {
                        expected: *last_assigned_partition_id,
                        found: metadata.last_partition_id,
                    },
                )
            }
        },
        TableRequirement::DefaultSpecIdMatch { default_spec_id } => {
            if metadata.default_spec_id == *default_spec_id {
                Ok(())
            } else {
                Err(
                    RequirementError::SpecId {
                        expected: *default_spec_id,
                        found: metadata.default_spec_id,
                    },
                )
            }
        },
        TableRequirement::DefaultSortOrderIdMatch { default_sort_order_id } => {
            let found: i64 = match metadata.default_sort_order_id {
                Some(id) => id as i64,
                None => 0,
            };
            if found == *default_sort_order_id {
                Ok(())
            } else {
                Err(RequirementError::SortOrder { expected: *default_sort_order_id, found })
            }
        },
    }
}

fn missing_part(requirement: &TableRequirement) -> (part: Option<Checked>)
    ensures
        part == checked_part(*requirement),
{
    match requirement {
        TableRequirement::NotExist => None,
        TableRequirement::UuidMatch { .. } => Some(Checked::Uuid),
        TableRequirement::RefSnapshotIdMatch { .. } => Some(Checked::Snapshot),
        TableRequirement::LastAssignedFieldIdMatch { .. } => Some(Checked::FieldId),
        TableRequirement::CurrentSchemaIdMatch { .. } => Some(Checked::SchemaId),
        TableRequirement::LastAssignedPartitionIdMatch { .. } => Some(Checked::PartitionId),
        TableRequirement::DefaultSpecIdMatch { .. } => Some(Checked::SpecId),
        TableRequirement::DefaultSortOrderIdMatch { .. } => Some(Checked::SortOrder),
    }
}

/// Checks the requirements of a commit, in order, against the metadata of the table. A
/// table that does not exist has none.
pub fn validate_requirements(
    table_meta: Option<&TableMetadata>,
    requirements: &Vec<TableRequirement>,
) -> (result: Result<(), RequirementError>)
    ensures
        match result {
            Ok(()) => first_fault(table_meta, requirements@) is None,
            Err(e) => first_fault(table_meta, requirements@) == Some(e@),
        },
{
    for i in 0..requirements.len()
        invariant
            first_fault(table_meta, requirements@.take(i as int)) is None,
    {
        proof {
            assert(requirements@.take(i + 1).drop_last() =~= requirements@.take(i as int));
        }
        match table_meta {
            Some(metadata) => match check_metadata(metadata, &requirements[i]) {
                Ok(()) => {},
                Err(e) => {
                    proof {
                        lemma_first_fault_prefix(table_meta, requirements@, i + 1);
                    }
                    return Err(e);
                },
            },
            None => match missing_part(&requirements[i]) {
                Some(checked) => {
                    proof {
                        lemma_first_fault_prefix(table_meta, requirements@, i + 1);
                    }
                    return Err(RequirementError::MissingMetadata { checked });
                },
                None => {},
            },
        }
    }
    assert(requirements@.take(requirements@.len() as int) =~= requirements@);
    Ok(())
}

/// What is first wrong with some of the requirements is first wrong with all of them.
pub proof fn lemma_first_fault_prefix(
    metadata: Option<&TableMetadata>,
    requirements: Seq<TableRequirement>,
    n: int,
)
    requires
        0 <= n <= requirements.len(),
    ensures
        first_fault(metadata, requirements.take(n)) is Some ==> first_fault(metadata, requirements)
            == first_fault(metadata, requirements.take(n)),
    decreases requirements.len() - n,
{
    if n < requirements.len() {
        assert(requirements.take(n + 1).drop_last() =~= requirements.take(n));
        lemma_first_fault_prefix(metadata, requirements, n + 1);
    } else {
        assert(requirements.take(n) =~= requirements);
    }
}

/// All requirements hold exactly when each of them does.
pub proof fn law_requirements_hold_together(
    metadata: Option<&TableMetadata>,
    requirements: Seq<TableRequirement>,
)
    ensures
        first_fault(metadata, requirements) is None <==> forall|i: int|
            0 <= i < requirements.len() ==> requirement_fault(
                metadata,
                #[trigger] requirements[i],
            ) is None,
    decreases requirements.len(),
{
    if requirements.len() > 0 {
        let init = requirements.drop_last();
        law_requirements_hold_together(metadata, init);
        if first_fault(metadata, requirements) is None {
            assert forall|i: int| 0 <= i < requirements.len() implies requirement_fault(
                metadata,
                #[trigger] requirements[i],
            ) is None by {
                if i < init.len() {
                    assert(requirement_fault(metadata, init[i]) is None);
                }
            }
        } else if first_fault(metadata, init) is Some {
            let i = choose|i: int|
                0 <= i < init.len() && requirement_fault(metadata, #[trigger] init[i]) is Some;
            assert(requirement_fault(metadata, requirements[i]) is Some);
        } else {
            assert(requirement_fault(metadata, requirements[requirements.len() - 1]) is Some);
        }
    }
}

/// The name of the requirement, as it shows in messages.
pub open spec fn checked_name(checked: Checked) -> Seq<char> {
    match checked {
        Checked::FieldId => "field id"@,
        Checked::SchemaId => "schema"@,
        Checked::Snapshot => "snapshot"@,
        Checked::Uuid => "UUID"@,
        Checked::PartitionId => "partition id"@,
        Checked::SpecId => "partition spec"@,
        Checked::SortOrder => "sort order"@,
    }
}

/// The message that says what was expected and what was found.
pub open spec fn mismatch_text(what: Seq<char>, expected: Seq<char>, found: Seq<char>) -> Seq<char> {
    "Iceberg commit failed: expected "@ + what + " "@ + expected + " but found "@ + found
        + ". Reload table metadata and retry."@
}

/// The message of a requirement that does not hold.
pub open spec fn fault_text(fault: RequirementFault) -> Seq<char> {
    match fault {
        RequirementFault::AlreadyExists => {
            "Iceberg table already exists but commit asserted non-existence."@
        },
        RequirementFault::MissingMetadata { checked } => {
            "Iceberg table metadata missing while validating "@ + checked_name(checked)
                + " requirement"@
        },
        RequirementFault::FieldId { expected, found } => mismatch_text(
            "last assigned field id"@,
            signed_decimal(expected as int),
            signed_decimal(found as int),
        ),
        RequirementFault::SchemaId { expected, found } => mismatch_text(
            "current schema id"@,
            signed_decimal(expected as int),
            signed_decimal(found as int),
        ),
        RequirementFault::Snapshot { ref_name, expected, found } => {
            "Iceberg commit failed: reference '"@ + ref_name + "' expected snapshot "@ + shown_id(
                expected,
            ) + " but found "@ + shown_id(found)
        },
        RequirementFault::Uuid { expected, found } => mismatch_text(
            "table UUID"@,
            uuid_display(expected),
            shown_uuid(found),
        ),
        RequirementFault::PartitionId { expected, found } => mismatch_text(
            "last assigned partition id"@,
            signed_decimal(expected as int),
            signed_decimal(found as int),
        ),
        RequirementFault::SpecId { expected, found } => mismatch_text(
            "default partition spec id"@,
            signed_decimal(expected as int),
            signed_decimal(found as int),
        ),
        RequirementFault::SortOrder { expected, found } => mismatch_text(
            "default sort order id"@,
            signed_decimal(expected as int),
            signed_decimal(found as int),
        ),
    }
}

fn mismatch_message(what: &str, expected: String, found: String) -> (text: String)
    ensures
        text@ == mismatch_text(what@, expected@, found@),
{
    let mut text = "Iceberg commit failed: expected ".to_owned();
    text.append(what);
    text.append(" ");
    text.append(expected.as_str());
    text.append(" but found ");
    text.append(found.as_str());
    text.append(". Reload table metadata and retry.");
    text
}

impl RequirementError {
    /// The message of the error.
    pub fn message(&self) -> (text: String)
        ensures
            text@ == fault_text(self@),
    {
        match self {
            RequirementError::AlreadyExists => {
                "Iceberg table already exists but commit asserted non-existence.".to_owned()
            },
            RequirementError::MissingMetadata { checked } => {
                let mut text = "Iceberg table metadata missing while validating ".to_owned();
                text.append(
                    match checked {
                        Checked::FieldId => "field id",
                        Checked::SchemaId => "schema",
                        Checked::Snapshot => "snapshot",
                        Checked::Uuid => "UUID",
                        Checked::PartitionId => "partition id",
                        Checked::SpecId => "partition spec",
                        Checked::SortOrder => "sort order",
                    },
                );
                text.append(" requirement");
                text
            },
            RequirementError::FieldId { expected, found } => mismatch_message(
                "last assigned field id",
                signed_decimal_text(*expected as i64),
                signed_decimal_text(*found as i64),
            ),
            RequirementError::SchemaId { expected, found } => mismatch_message(
                "current schema id",
                signed_decimal_text(*expected as i64),
                signed_decimal_text(*found as i64),
            ),
            RequirementError::Snapshot { ref_name, expected, found } => {
                let mut text = "Iceberg commit failed: reference '".to_owned();
                text.append(ref_name.as_str());
                text.append("' expected snapshot ");
                text.append(shown_id_text(*expected).as_str());
                text.append(" but found ");
                text.append(shown_id_text(*found).as_str());
                text
            },
            RequirementError::Uuid { expected, found } => mismatch_message(
                "table UUID",
                uuid_text(*expected),
                shown_uuid_text(*found),
            ),
            RequirementError::PartitionId { expected, found } => mismatch_message(
                "last assigned partition id",
                signed_decimal_text(*expected as i64),
                signed_decimal_text(*found as i64),
            ),
            RequirementError::SpecId { expected, found } => mismatch_message(
                "default partition spec id",
                signed_decimal_text(*expected as i64),
                signed_decimal_text(*found as i64),
            ),
            RequirementError::SortOrder { expected, found } => mismatch_message(
                "default sort order id",
                signed_decimal_text(*expected),
                signed_decimal_text(*found),
            ),
        }
    }
}

/// A table that is not there meets only the requirement that it is not there.
pub proof fn law_missing_tables_meet_no_requirement(requirement: TableRequirement)
    ensures
        requirement_fault(None, requirement) is None <==> requirement is NotExist,
        requirement_fault(None, requirement) matches Some(fault) ==> fault is MissingMetadata,
{
}

/// The snapshot that a reference stands for is, for `main`, the current one, and otherwise the
/// one that the table has under the name. A negative id is none.
pub proof fn law_referenced_snapshots(metadata: TableMetadata, ref_name: Seq<char>, id: i64)
    ensures
        ({
            let found = referenced_snapshot(
                metadata.current_snapshot_id,
                metadata.refs@,
                ref_name,
            );
            &&& ref_name == "main"@ ==> (found == Some(id) <==> id >= 0
                && metadata.current_snapshot_id == Some(id))
            &&& ref_name != "main"@ ==> (found == Some(id) <==> id >= 0 && (value_of(
                metadata.refs@,
                ref_name,
            ) matches Some(reference) && reference.snapshot_id == id))
        }),
{
}

/// What each requirement wants of a table that is there.
pub proof fn law_requirements_of_tables(metadata: TableMetadata, requirement: TableRequirement)
    ensures
        requirement_fault(Some(&metadata), requirement) is None <==> match requirement {
            TableRequirement::NotExist => false,
            TableRequirement::UuidMatch { uuid } => metadata.table_uuid == Some(uuid),
            TableRequirement::RefSnapshotIdMatch { ref_name, snapshot_id } => {
                let held = if ref_name@ == "main"@ {
                    metadata.current_snapshot_id
                } else {
                    match value_of(metadata.refs@, ref_name@) {
                        Some(reference) => Some(reference.snapshot_id),
                        None => None,
                    }
                };
                match snapshot_id {
                    Some(id) => id >= 0 && held == Some(id),
                    None => held is None || held->0 < 0,
                }
            },
            TableRequirement::LastAssignedFieldIdMatch { last_assigned_field_id } => {
                metadata.last_column_id == last_assigned_field_id
            },
            TableRequirement::CurrentSchemaIdMatch { current_schema_id } => {
                metadata.current_schema_id == current_schema_id
            },
            TableRequirement::LastAssignedPartitionIdMatch { last_assigned_partition_id } => {
                metadata.last_partition_id == last_assigned_partition_id
            },
            TableRequirement::DefaultSpecIdMatch { default_spec_id } => {
                metadata.default_spec_id == default_spec_id
            },
            TableRequirement::DefaultSortOrderIdMatch { default_sort_order_id } => {
                match metadata.default_sort_order_id {
                    Some(id) => id == default_sort_order_id,
                    None => default_sort_order_id == 0,
                }
            },
        },
{
}

/// The fault that is reported is that of the first requirement that does not hold.
pub proof fn law_first_faults_are_reported(
    metadata: Option<&TableMetadata>,
    requirements: Seq<TableRequirement>,
)
    ensures
        first_fault(metadata, requirements) is Some ==> exists|i: int|
            0 <= i < requirements.len() && requirement_fault(metadata, #[trigger] requirements[i])
                == first_fault(metadata, requirements) && forall|j: int|
                0 <= j < i ==> requirement_fault(metadata, #[trigger] requirements[j]) is None,
    decreases requirements.len(),
{
    if requirements.len() > 0 {
        let init = requirements.drop_last();
        law_first_faults_are_reported(metadata, init);
        law_requirements_hold_together(metadata, init);
        if first_fault(metadata, init) is Some {
            let i = choose|i: int|
                0 <= i < init.len() && requirement_fault(metadata, #[trigger] init[i])
                    == first_fault(metadata, init) && forall|j: int|
                    0 <= j < i ==> requirement_fault(metadata, #[trigger] init[j]) is None;
            assert(requirements[i] == init[i]);
            assert forall|j: int| 0 <= j < i implies requirement_fault(
                metadata,
                #[trigger] requirements[j],
            ) is None by {
                assert(requirements[j] == init[j]);
            }
        } else {
            let last = requirements.len() - 1;
            assert(requirement_fault(metadata, requirements[last]) == first_fault(
                metadata,
                requirements,
            ));
            assert forall|j: int| 0 <= j < last implies requirement_fault(
                metadata,
                #[trigger] requirements[j],
            ) is None by {
                assert(requirements[j] == init[j]);
            }
        }
    }
}

/// Each requirement on metadata is about the part of it that its own fault names.
pub proof fn law_requirements_are_about_their_parts(
    requirement: TableRequirement,
    metadata: TableMetadata,
)
    requires
        metadata_fault(metadata, requirement) is Some,
    ensures
        match metadata_fault(metadata, requirement)->0 {
            RequirementFault::AlreadyExists => checked_part(requirement) is None,
            RequirementFault::Uuid { .. } => checked_part(requirement) == Some(Checked::Uuid),
            RequirementFault::Snapshot { .. } => checked_part(requirement) == Some(
                Checked::Snapshot,
            ),
            RequirementFault::FieldId { .. } => checked_part(requirement) == Some(Checked::FieldId),
            RequirementFault::SchemaId { .. } => checked_part(requirement) == Some(
                Checked::SchemaId,
            ),
            RequirementFault::PartitionId { .. } => checked_part(requirement) == Some(
                Checked::PartitionId,
            ),
            RequirementFault::SpecId { .. } => checked_part(requirement) == Some(Checked::SpecId),
            RequirementFault::SortOrder { .. } => checked_part(requirement) == Some(
                Checked::SortOrder,
            ),
            RequirementFault::MissingMetadata { .. } => false,
        },
{
}

} // verus!
