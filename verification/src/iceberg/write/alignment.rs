//! Bringing the columns of a batch in line with those of a table.

use vstd::prelude::*;
use vstd::string::*;

use crate::iceberg::columns::find_column;
use crate::string_map::str_eq;

verus! {

use crate::iceberg::columns::{column_position, law_column_positions};
use crate::iceberg::contents::texts;

/// A column of a table.
#[derive(Debug)]
pub struct TableColumn {
    pub name: String,
    pub nullable: bool,
}

/// A field of the schema of a table, with its default values as text.
#[derive(Debug)]
pub struct DefaultedField {
    pub name: String,
    pub write_default: Option<String>,
    pub initial_default: Option<String>,
}

/// Where the values of a column come from.
#[derive(Debug)]
pub enum ColumnSource {
    /// The column of the batch at the given position.
    Batch { index: usize },
    /// The same default value in all rows.
    DefaultValue { literal: String },
    /// No value in any row.
    Null,
}

/// Why a batch cannot be brought in line.
#[derive(Debug)]
pub enum AlignError {
    /// The schema of the table does not know the column.
    UnknownColumn { column: String },
    /// The column must have values and has none.
    MissingColumn { column: String },
}

impl AlignError {
    pub open spec fn spec_message(self) -> Seq<char> {
        match self {
            AlignError::UnknownColumn { column } => "Column '"@ + column@
                + "' missing from Iceberg schema during alignment"@,
            AlignError::MissingColumn { column } => "Column '"@ + column@
                + "' is required but missing in input batch and has no default value"@,
        }
    }

    pub fn message(&self) -> (text: String)
        ensures
            text@ == self.spec_message(),
    {
        let mut text = "Column '".to_owned();
        match self {
            AlignError::UnknownColumn { column } => {
                text.append(column.as_str());
                text.append("' missing from Iceberg schema during alignment");
            },
            AlignError::MissingColumn { column } => {
                text.append(column.as_str());
                text.append("' is required but missing in input batch and has no default value");
            },
        }
        text
    }
}

/// The default value of a field: that for writes comes first.
pub open spec fn default_of(field: DefaultedField) -> Option<String> {
    match field.write_default {
        Some(literal) => Some(literal),
        None => field.initial_default,
    }
}

/// The position of the first field with the given name.
pub open spec fn field_position(fields: Seq<DefaultedField>, name: Seq<char>) -> Option<int>
    decreases fields.len(),
{
    if fields.len() == 0 {
        None
    } else if fields[0].name@ == name {
        Some(0)
    } else {
        match field_position(fields.skip(1), name) {
            Some(at) => Some(at + 1),
            None => None,
        }
    }
}

fn find_field(fields: &Vec<DefaultedField>, name: &str) -> (at: Option<usize>)
    ensures
        match at {
            Some(i) => field_position(fields@, name@) == Some(i as int) && i < fields@.len(),
            None => field_position(fields@, name@) is None,
        },
{
    assert(fields@.skip(0) =~= fields@);
    for i in 0..fields.len()
        invariant
            field_position(fields@, name@) == (match field_position(fields@.skip(i as int), name@) {
                Some(at) => Some(at + i),
                None => None,
            }),
    {
        assert(fields@.skip(i as int)[0] == fields@[i as int]);
        assert(fields@.skip(i as int).skip(1) =~= fields@.skip(i + 1));
        if str_eq(fields[i].name.as_str(), name) {
            return Some(i);
        }
    }
    None
}

/// Where the values of a column come from: the batch where it has the column, or else the
/// default value of the field, or else there are none. A column that must have values then
/// cannot be brought in line, nor can one that the schema does not know.
pub open spec fn column_source(
    batch: Seq<Seq<char>>,
    column: TableColumn,
    fields: Seq<DefaultedField>,
) -> Result<ColumnSource, AlignError> {
    match column_position(batch, column.name@) {
        Some(at) => Ok(ColumnSource::Batch { index: at as usize }),
        None => match field_position(fields, column.name@) {
            None => Err(AlignError::UnknownColumn { column: column.name }),
            Some(at) => match default_of(fields[at]) {
                Some(literal) => Ok(ColumnSource::DefaultValue { literal }),
                None => if column.nullable {
                    Ok(ColumnSource::Null)
                } else {
                    Err(AlignError::MissingColumn { column: column.name })
                },
            },
        },
    }
}

fn source_of(batch: &Vec<String>, column: &TableColumn, fields: &Vec<DefaultedField>) -> (source:
    Result<ColumnSource, AlignError>)
    ensures
        source == column_source(texts(batch@), *column, fields@),
{
    match find_column(batch, column.name.as_str()) {
        Some(index) => Ok(ColumnSource::Batch { index }),
        None => match find_field(fields, column.name.as_str()) {
            None => Err(AlignError::UnknownColumn { column: column.name.clone() }),
            Some(at) => {
                let literal = match &fields[at].write_default {
                    Some(literal) => Some(literal.clone()),
                    None => match &fields[at].initial_default {
                        Some(literal) => Some(literal.clone()),
                        None => None,
                    },
                };
                match literal {
                    Some(literal) => Ok(ColumnSource::DefaultValue { literal }),
                    None => {
                        if column.nullable {
                            Ok(ColumnSource::Null)
                        } else {
                            Err(AlignError::MissingColumn { column: column.name.clone() })
                        }
                    },
                }
            },
        },
    }
}

/// Where the values of each column of a table come from, in order, or why a batch cannot be
/// brought in line: the reason of the first such column.
pub fn align_batch_with_table_schema(
    batch: &Vec<String>,
    table_schema: &Vec<TableColumn>,
    fields: &Vec<DefaultedField>,
) -> (sources: Result<Vec<ColumnSource>, AlignError>)
    ensures
        match sources {
            Ok(s) => {
                &&& s@.len() == table_schema@.len()
                &&& forall|i: int|
                    0 <= i < s@.len() ==> column_source(texts(batch@), table_schema@[i], fields@)
                        == Ok::<_, AlignError>(#[trigger] s@[i])
            },
            Err(e) => exists|i: int|
                #![trigger table_schema@[i]]
                0 <= i < table_schema@.len() && column_source(
                    texts(batch@),
                    table_schema@[i],
                    fields@,
                ) == Err::<ColumnSource, _>(e) && forall|j: int|
                    0 <= j < i ==> column_source(
                        texts(batch@),
                        #[trigger] table_schema@[j],
                        fields@,
                    ) is Ok,
        },
{
    let mut sources: Vec<ColumnSource> = Vec::new();
    for i in 0..table_schema.len()
        invariant
            sources@.len() == i,
            forall|j: int|
                0 <= j < i ==> column_source(texts(batch@), table_schema@[j], fields@) == Ok::<
                    _,
                    AlignError,
                >(#[trigger] sources@[j]),
    {
        match source_of(batch, &table_schema[i], fields) {
            Ok(source) => {
                sources.push(source);
            },
            Err(e) => {
                proof {
                    assert forall|j: int| 0 <= j < i implies column_source(
                        texts(batch@),
                        #[trigger] table_schema@[j],
                        fields@,
                    ) is Ok by {
                        assert(column_source(texts(batch@), table_schema@[j], fields@) == Ok::<
                            _,
                            AlignError,
                        >(sources@[j]));
                    }
                    assert(column_source(texts(batch@), table_schema@[i as int], fields@) == Err::<
                        ColumnSource,
                        _,
                    >(e));
                }
                return Err(e);
            },
        }
    }
    Ok(sources)
}

proof fn lemma_field_position(fields: Seq<DefaultedField>, name: Seq<char>)
    ensures
        match field_position(fields, name) {
            Some(at) => 0 <= at < fields.len() && fields[at].name@ == name && forall|i: int|
                0 <= i < at ==> (#[trigger] fields[i]).name@ != name,
            None => forall|i: int| 0 <= i < fields.len() ==> (#[trigger] fields[i]).name@ != name,
        },
    decreases fields.len(),
{
    if fields.len() > 0 && fields[0].name@ != name {
        let rest = fields.skip(1);
        lemma_field_position(rest, name);
        let end = match field_position(rest, name) {
            Some(at) => at + 1,
            None => fields.len() as int,
        };
        assert forall|i: int| 0 <= i < end implies (#[trigger] fields[i]).name@ != name by {
            if i > 0 {
                assert(rest[i - 1] == fields[i]);
            }
        }
    }
}

/// A column that the batch has is taken from it, whatever the schema says of it: from the first
/// column with its name.
pub proof fn law_columns_come_from_the_batch(
    batch: Seq<Seq<char>>,
    column: TableColumn,
    fields: Seq<DefaultedField>,
    at: int,
)
    requires
        0 <= at < batch.len(),
        batch[at] == column.name@,
        forall|i: int| 0 <= i < at ==> #[trigger] batch[i] != column.name@,
        batch.len() <= usize::MAX,
    ensures
        column_source(batch, column, fields) == Ok::<_, AlignError>(
            ColumnSource::Batch { index: at as usize },
        ),
{
    law_column_positions(batch, column.name@);
    let found = column_position(batch, column.name@)->0;
    if found < at {
        assert(batch[found] != column.name@);
    }
}

/// A column that the batch lacks gets the default of the first field with its name: that for
/// writes, or else the initial one. Without a default it has no values where it may have none,
/// and is an error where it must have some. A column without a field is an error.
pub proof fn law_missing_columns_get_defaults(
    batch: Seq<Seq<char>>,
    column: TableColumn,
    fields: Seq<DefaultedField>,
    at: int,
)
    requires
        forall|i: int| 0 <= i < batch.len() ==> #[trigger] batch[i] != column.name@,
    ensures
        ({
            let source = column_source(batch, column, fields);
            let known = 0 <= at < fields.len() && fields[at].name@ == column.name@ && forall|i: int|
                0 <= i < at ==> (#[trigger] fields[i]).name@ != column.name@;
            &&& (known && fields[at].write_default is Some) ==> source == Ok::<_, AlignError>(
                ColumnSource::DefaultValue { literal: fields[at].write_default->0 },
            )
            &&& (known && fields[at].write_default is None && fields[at].initial_default is Some)
                ==> source == Ok::<_, AlignError>(
                ColumnSource::DefaultValue { literal: fields[at].initial_default->0 },
            )
            &&& (known && fields[at].write_default is None && fields[at].initial_default is None
                && column.nullable) ==> source == Ok::<_, AlignError>(ColumnSource::Null)
            &&& (known && fields[at].write_default is None && fields[at].initial_default is None
                && !column.nullable) ==> source == Err::<ColumnSource, _>(
                AlignError::MissingColumn { column: column.name },
            )
            &&& (forall|i: int|
                0 <= i < fields.len() ==> (#[trigger] fields[i]).name@ != column.name@) ==> source
                == Err::<ColumnSource, _>(AlignError::UnknownColumn { column: column.name })
        }),
{
    law_column_positions(batch, column.name@);
    if column_position(batch, column.name@) is Some {
        assert(batch[column_position(batch, column.name@)->0] != column.name@);
    }
    lemma_field_position(fields, column.name@);
    if field_position(fields, column.name@) is Some {
        let found = field_position(fields, column.name@)->0;
        assert(fields[found].name@ == column.name@);
        if 0 <= at < fields.len() && fields[at].name@ == column.name@ && (forall|i: int|
            0 <= i < at ==> (#[trigger] fields[i]).name@ != column.name@) {
            if found < at {
                assert(fields[found].name@ != column.name@);
            }
            if at < found {
                assert(fields[at].name@ != column.name@);
            }
        }
    }
}

/// A batch gets a source for every column of the table, in their order, or fails with what is wrong
/// with the first column that has none.
pub proof fn law_every_column_has_a_source(
    batch: Vec<String>,
    table_schema: Vec<TableColumn>,
    fields: Vec<DefaultedField>,
    sources: Result<Vec<ColumnSource>, AlignError>,
    i: int,
)
    requires
        call_ensures(align_batch_with_table_schema, (&batch, &table_schema, &fields), sources),
        0 <= i < table_schema@.len(),
    ensures
        sources matches Ok(s) ==> s@.len() == table_schema@.len() && column_source(
            texts(batch@),
            table_schema@[i],
            fields@,
        ) == Ok::<_, AlignError>(s@[i]),
        column_source(texts(batch@), table_schema@[i], fields@) is Err ==> sources is Err,
{
    if sources is Ok {
        let source = sources->Ok_0@[i];
        assert(column_source(texts(batch@), table_schema@[i], fields@) == Ok::<_, AlignError>(source));
    }
}

} // verus!
