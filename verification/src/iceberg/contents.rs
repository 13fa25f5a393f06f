//! The contents of the parts of a commit, and whether two of them are the same.

use vstd::prelude::*;

use crate::iceberg::table::{
    FormatVersion, PartitionField, PartitionSpec, Schema, SchemaField, TableRequirement,
};

verus! {

/// A field of a schema, by its contents.
pub struct SchemaFieldView {
    pub id: i32,
    pub name: Seq<char>,
    pub field_type: Seq<char>,
    pub required: bool,
}

impl View for SchemaField {
    type V = SchemaFieldView;

    open spec fn view(&self) -> SchemaFieldView {
        SchemaFieldView {
            id: self.id,
            name: self.name@,
            field_type: self.field_type@,
            required: self.required,
        }
    }
}

/// A schema, by its contents.
#[verifier::ext_equal]
pub struct SchemaView {
    pub schema_id: i32,
    pub fields: Seq<SchemaFieldView>,
    pub highest_field_id: i32,
    pub min_format_version: FormatVersion,
}

impl View for Schema {
    type V = SchemaView;

    open spec fn view(&self) -> SchemaView {
        SchemaView {
            schema_id: self.schema_id,
            fields: self.fields@.map_values(|field: SchemaField| field@),
            highest_field_id: self.highest_field_id,
            min_format_version: self.min_format_version,
        }
    }
}

/// A field of a partition spec, by its contents.
pub struct PartitionFieldView {
    pub source_id: i32,
    pub field_id: i32,
    pub name: Seq<char>,
    pub transform: Seq<char>,
}

impl View for PartitionField {
    type V = PartitionFieldView;

    open spec fn view(&self) -> PartitionFieldView {
        PartitionFieldView {
            source_id: self.source_id,
            field_id: self.field_id,
            name: self.name@,
            transform: self.transform@,
        }
    }
}

/// A partition spec, by its contents.
#[verifier::ext_equal]
pub struct PartitionSpecView {
    pub spec_id: i32,
    pub fields: Seq<PartitionFieldView>,
}

impl View for PartitionSpec {
    type V = PartitionSpecView;

    open spec fn view(&self) -> PartitionSpecView {
        PartitionSpecView {
            spec_id: self.spec_id,
            fields: self.fields@.map_values(|field: PartitionField| field@),
        }
    }
}

/// A requirement, by its contents.
pub enum RequirementView {
    NotExist,
    UuidMatch { uuid: u128 },
    RefSnapshotIdMatch { ref_name: Seq<char>, snapshot_id: Option<i64> },
    LastAssignedFieldIdMatch { last_assigned_field_id: i32 },
    CurrentSchemaIdMatch { current_schema_id: i32 },
    LastAssignedPartitionIdMatch { last_assigned_partition_id: i32 },
    DefaultSpecIdMatch { default_spec_id: i32 },
    DefaultSortOrderIdMatch { default_sort_order_id: i64 },
}

impl View for TableRequirement {
    type V = RequirementView;

    open spec fn view(&self) -> RequirementView {
        match self {
            TableRequirement::NotExist => RequirementView::NotExist,
            TableRequirement::UuidMatch { uuid } => RequirementView::UuidMatch { uuid: *uuid },
            TableRequirement::RefSnapshotIdMatch { ref_name, snapshot_id } => {
                RequirementView::RefSnapshotIdMatch {
                    ref_name: ref_name@,
                    snapshot_id: *snapshot_id,
                }
            },
            TableRequirement::LastAssignedFieldIdMatch { last_assigned_field_id } => {
                RequirementView::LastAssignedFieldIdMatch {
                    last_assigned_field_id: *last_assigned_field_id,
                }
            },
            TableRequirement::CurrentSchemaIdMatch { current_schema_id } => {
                RequirementView::CurrentSchemaIdMatch { current_schema_id: *current_schema_id }
            },
            TableRequirement::LastAssignedPartitionIdMatch { last_assigned_partition_id } => {
                RequirementView::LastAssignedPartitionIdMatch {
                    last_assigned_partition_id: *last_assigned_partition_id,
                }
            },
            TableRequirement::DefaultSpecIdMatch { default_spec_id } => {
                RequirementView::DefaultSpecIdMatch { default_spec_id: *default_spec_id }
            },
            TableRequirement::DefaultSortOrderIdMatch { default_sort_order_id } => {
                RequirementView::DefaultSortOrderIdMatch {
                    default_sort_order_id: *default_sort_order_id,
                }
            },
        }
    }
}

/// Texts, by their characters.
pub open spec fn texts(list: Seq<String>) -> Seq<Seq<char>> {
    list.map_values(|text: String| text@)
}

/// Pairs of texts, by their characters.
pub open spec fn text_pairs(list: Seq<(String, String)>) -> Seq<(Seq<char>, Seq<char>)> {
    list.map_values(|pair: (String, String)| (pair.0@, pair.1@))
}

/// Requirements, by their contents.
pub open spec fn requirement_views(list: Seq<TableRequirement>) -> Seq<RequirementView> {
    list.map_values(|requirement: TableRequirement| requirement@)
}

/// An optional text, by its characters.
pub open spec fn optional_text(text: Option<String>) -> Option<Seq<char>> {
    match text {
        Some(t) => Some(t@),
        None => None,
    }
}

/// Whether two texts are the same.
pub fn same_optional_text(a: &Option<String>, b: &Option<String>) -> (same: bool)
    ensures
        same == (optional_text(*a) == optional_text(*b)),
{
    match (a, b) {
        (Some(x), Some(y)) => *x == *y,
        (None, None) => true,
        _ => false,
    }
}

/// Whether two lists of texts are the same.
pub fn same_texts(a: &Vec<String>, b: &Vec<String>) -> (same: bool)
    ensures
        same == (texts(a@) == texts(b@)),
{
    if a.len() != b.len() {
        assert(texts(a@).len() != texts(b@).len());
        return false;
    }
    for i in 0..a.len()
        invariant
            a@.len() == b@.len(),
            forall|j: int| 0 <= j < i ==> texts(a@)[j] == texts(b@)[j],
    {
        if a[i] != b[i] {
            assert(texts(a@)[i as int] != texts(b@)[i as int]);
            return false;
        }
    }
    assert(texts(a@) =~= texts(b@));
    true
}

/// Whether two lists of pairs of texts are the same.
pub fn same_text_pairs(a: &Vec<(String, String)>, b: &Vec<(String, String)>) -> (same: bool)
    ensures
        same == (text_pairs(a@) == text_pairs(b@)),
{
    if a.len() != b.len() {
        assert(text_pairs(a@).len() != text_pairs(b@).len());
        return false;
    }
    for i in 0..a.len()
        invariant
            a@.len() == b@.len(),
            forall|j: int| 0 <= j < i ==> text_pairs(a@)[j] == text_pairs(b@)[j],
    {
        if !(a[i].0 == b[i].0 && a[i].1 == b[i].1) {
            assert(text_pairs(a@)[i as int] != text_pairs(b@)[i as int]);
            return false;
        }
    }
    assert(text_pairs(a@) =~= text_pairs(b@));
    true
}

/// Whether two requirements are the same.
pub fn same_requirement(a: &TableRequirement, b: &TableRequirement) -> (same: bool)
    ensures
        same == (a@ == b@),
{
    match (a, b) {
        (TableRequirement::NotExist, TableRequirement::NotExist) => true,
        (TableRequirement::UuidMatch { uuid: x }, TableRequirement::UuidMatch { uuid: y }) => *x
            == *y,
        (
            TableRequirement::RefSnapshotIdMatch { ref_name: n, snapshot_id: x },
            TableRequirement::RefSnapshotIdMatch { ref_name: m, snapshot_id: y },
        ) => *n == *m && *x == *y,
        (
            TableRequirement::LastAssignedFieldIdMatch { last_assigned_field_id: x },
            TableRequirement::LastAssignedFieldIdMatch { last_assigned_field_id: y },
        ) => *x == *y,
        (
            TableRequirement::CurrentSchemaIdMatch { current_schema_id: x },
            TableRequirement::CurrentSchemaIdMatch { current_schema_id: y },
        ) => *x == *y,
        (
            TableRequirement::LastAssignedPartitionIdMatch { last_assigned_partition_id: x },
            TableRequirement::LastAssignedPartitionIdMatch { last_assigned_partition_id: y },
        ) => *x == *y,
        (
            TableRequirement::DefaultSpecIdMatch { default_spec_id: x },
            TableRequirement::DefaultSpecIdMatch { default_spec_id: y },
        ) => *x == *y,
        (
            TableRequirement::DefaultSortOrderIdMatch { default_sort_order_id: x },
            TableRequirement::DefaultSortOrderIdMatch { default_sort_order_id: y },
        ) => *x == *y,
        _ => false,
    }
}

/// Whether two lists of requirements are the same.
pub fn same_requirements(a: &Vec<TableRequirement>, b: &Vec<TableRequirement>) -> (same: bool)
    ensures
        same == (requirement_views(a@) == requirement_views(b@)),
{
    if a.len() != b.len() {
        assert(requirement_views(a@).len() != requirement_views(b@).len());
        return false;
    }
    for i in 0..a.len()
        invariant
            a@.len() == b@.len(),
            forall|j: int| 0 <= j < i ==> requirement_views(a@)[j] == requirement_views(b@)[j],
    {
        if !same_requirement(&a[i], &b[i]) {
            assert(requirement_views(a@)[i as int] != requirement_views(b@)[i as int]);
            return false;
        }
    }
    assert(requirement_views(a@) =~= requirement_views(b@));
    true
}

/// Whether two schemas are the same.
pub fn same_schema(a: &Schema, b: &Schema) -> (same: bool)
    ensures
        same == (a@ == b@),
{
    if !(a.schema_id == b.schema_id && a.highest_field_id == b.highest_field_id
        && a.min_format_version == b.min_format_version) {
        return false;
    }
    if a.fields.len() != b.fields.len() {
        assert(a@.fields.len() != b@.fields.len());
        return false;
    }
    for i in 0..a.fields.len()
        invariant
            a.fields@.len() == b.fields@.len(),
            forall|j: int| 0 <= j < i ==> a@.fields[j] == b@.fields[j],
    {
        let x = &a.fields[i];
        let y = &b.fields[i];
        if !(x.id == y.id && x.name == y.name && x.field_type == y.field_type && x.required
            == y.required) {
            assert(a@.fields[i as int] != b@.fields[i as int]);
            return false;
        }
    }
    assert(a@.fields =~= b@.fields);
    true
}

/// Whether two partition specs are the same.
pub fn same_partition_spec(a: &PartitionSpec, b: &PartitionSpec) -> (same: bool)
    ensures
        same == (a@ == b@),
{
    if a.spec_id != b.spec_id {
        return false;
    }
    if a.fields.len() != b.fields.len() {
        assert(a@.fields.len() != b@.fields.len());
        return false;
    }
    for i in 0..a.fields.len()
        invariant
            a.fields@.len() == b.fields@.len(),
            forall|j: int| 0 <= j < i ==> a@.fields[j] == b@.fields[j],
    {
        let x = &a.fields[i];
        let y = &b.fields[i];
        if !(x.source_id == y.source_id && x.field_id == y.field_id && x.name == y.name
            && x.transform == y.transform) {
            assert(a@.fields[i as int] != b@.fields[i as int]);
            return false;
        }
    }
    assert(a@.fields =~= b@.fields);
    true
}

/// A copy of a list of pairs of texts.
pub fn duplicate_pairs(items: &Vec<(String, String)>) -> (copy: Vec<(String, String)>)
    ensures
        copy@ == items@,
{
    let mut copy: Vec<(String, String)> = Vec::new();
    for i in 0..items.len()
        invariant
            copy@ == items@.take(i as int),
    {
        copy.push((items[i].0.clone(), items[i].1.clone()));
        assert(copy@ =~= items@.take(i + 1));
    }
    assert(items@.take(items@.len() as int) =~= items@);
    copy
}

/// A copy of a list of texts.
pub fn duplicate_texts(items: &Vec<String>) -> (copy: Vec<String>)
    ensures
        copy@ == items@,
{
    let mut copy: Vec<String> = Vec::new();
    for i in 0..items.len()
        invariant
            copy@ == items@.take(i as int),
    {
        copy.push(items[i].clone());
        assert(copy@ =~= items@.take(i + 1));
    }
    assert(items@.take(items@.len() as int) =~= items@);
    copy
}

} // verus!
