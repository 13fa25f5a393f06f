//! Temporary views.

use vstd::prelude::*;
use vstd::string::*;

use crate::catalog::error::{CatalogError, CatalogObject};
use crate::string_map::StringMap;

verus! {

use crate::assoc::{distinct_keys, dropped, has_key, lemma_dropped, lemma_stored, stored, value_of};
use crate::catalog::error::CatalogFault;

/// A column of a table or a view.
#[derive(Debug)]
pub struct TableColumnStatus {
    pub name: String,
    pub data_type: String,
    pub nullable: bool,
    pub comment: Option<String>,
    pub default_value: Option<String>,
    pub generated_always_as: Option<String>,
    pub identity: Option<String>,
    pub is_partition: bool,
    pub is_bucket: bool,
    pub is_cluster: bool,
}

/// A column of the plan of a view.
#[derive(Debug)]
pub struct PlanField {
    pub name: String,
    pub data_type: String,
    pub nullable: bool,
}

/// What is said of a column of a temporary view.
#[derive(Debug)]
pub struct TemporaryViewColumn {
    pub comment: Option<String>,
}

/// A temporary view, with its plan `P` and its source `S`.
#[derive(Debug)]
pub struct TemporaryView<P, S> {
    plan: P,
    columns: Vec<TableColumnStatus>,
    comment: Option<String>,
    properties: Vec<(String, String)>,
    source: Option<S>,
}

impl<P, S> TemporaryView<P, S> {
    pub closed spec fn spec_plan(self) -> P {
        self.plan
    }

    pub closed spec fn spec_columns(self) -> Seq<TableColumnStatus> {
        self.columns@
    }

    pub closed spec fn spec_comment(self) -> Option<String> {
        self.comment
    }

    pub closed spec fn spec_properties(self) -> Seq<(String, String)> {
        self.properties@
    }

    pub closed spec fn spec_source(self) -> Option<S> {
        self.source
    }

    #[must_use]
    pub fn plan(&self) -> (plan: &P)
        ensures
            *plan == self.spec_plan(),
    {
        &self.plan
    }

    #[must_use]
    pub fn columns(&self) -> (columns: &Vec<TableColumnStatus>)
        ensures
            columns@ == self.spec_columns(),
    {
        &self.columns
    }

    #[must_use]
    pub fn comment(&self) -> (comment: Option<&String>)
        ensures
            match comment {
                Some(c) => self.spec_comment() == Some(*c),
                None => self.spec_comment() is None,
            },
    {
        match &self.comment {
            Some(comment) => Some(comment),
            None => None,
        }
    }

    #[must_use]
    pub fn properties(&self) -> (properties: &Vec<(String, String)>)
        ensures
            properties@ == self.spec_properties(),
    {
        &self.properties
    }

    #[must_use]
    pub fn source(&self) -> (source: Option<&S>)
        ensures
            match source {
                Some(s) => self.spec_source() == Some(*s),
                None => self.spec_source() is None,
            },
    {
        match &self.source {
            Some(source) => Some(source),
            None => None,
        }
    }
}

/// What a temporary view is made of.
#[derive(Debug)]
pub struct CreateTemporaryViewOptions<P, S> {
    pub input: P,
    /// The columns of the input.
    pub fields: Vec<PlanField>,
    /// What is said of the columns; empty for nothing.
    pub columns: Vec<TemporaryViewColumn>,
    pub if_not_exists: bool,
    pub replace: bool,
    pub comment: Option<String>,
    pub properties: Vec<(String, String)>,
    pub source: Option<S>,
}

impl<P, S> CreateTemporaryViewOptions<P, S> {
    /// Whether as many columns are spoken of as the input has, or none at all.
    pub open spec fn columns_fit(self) -> bool {
        self.columns@.len() == 0 || self.columns@.len() == self.fields@.len()
    }
}

/// A column of a view: as the input has it, with the comment that was given for it.
pub open spec fn view_column(field: PlanField, comment: Option<String>) -> TableColumnStatus {
    TableColumnStatus {
        name: field.name,
        data_type: field.data_type,
        nullable: field.nullable,
        comment,
        default_value: None,
        generated_always_as: None,
        identity: None,
        is_partition: false,
        is_bucket: false,
        is_cluster: false,
    }
}

/// The comment that was given for a column.
pub open spec fn column_comment(columns: Seq<TemporaryViewColumn>, i: int) -> Option<String> {
    if columns.len() == 0 {
        None
    } else {
        columns[i].comment
    }
}

/// Whether a view is made of the given options.
pub open spec fn is_view_of<P, S>(
    view: TemporaryView<P, S>,
    options: CreateTemporaryViewOptions<P, S>,
) -> bool {
    &&& view.spec_plan() == options.input
    &&& view.spec_columns().len() == options.fields@.len()
    &&& forall|i: int|
        0 <= i < options.fields@.len() ==> #[trigger] view.spec_columns()[i] == view_column(
            options.fields@[i],
            column_comment(options.columns@, i),
        )
    &&& view.spec_comment() == options.comment
    &&& view.spec_properties() == options.properties@
    &&& view.spec_source() == options.source
}

/// The columns of a view.
fn view_columns(fields: &Vec<PlanField>, columns: &Vec<TemporaryViewColumn>) -> (statuses: Vec<
    TableColumnStatus,
>)
    requires
        columns@.len() == 0 || columns@.len() == fields@.len(),
    ensures
        statuses@.len() == fields@.len(),
        forall|i: int|
            0 <= i < fields@.len() ==> #[trigger] statuses@[i] == view_column(
                fields@[i],
                column_comment(columns@, i),
            ),
{
    let mut statuses: Vec<TableColumnStatus> = Vec::new();
    for i in 0..fields.len()
        invariant
            columns@.len() == 0 || columns@.len() == fields@.len(),
            statuses@.len() == i,
            forall|j: int|
                0 <= j < i ==> #[trigger] statuses@[j] == view_column(
                    fields@[j],
                    column_comment(columns@, j),
                ),
    {
        let comment: Option<String> = if columns.len() == 0 {
            None
        } else {
            match &columns[i].comment {
                Some(comment) => Some(comment.clone()),
                None => None,
            }
        };
        let field = &fields[i];
        statuses.push(
            TableColumnStatus {
                name: field.name.clone(),
                data_type: field.data_type.clone(),
                nullable: field.nullable,
                comment,
                default_value: None,
                generated_always_as: None,
                identity: None,
                is_partition: false,
                is_bucket: false,
                is_cluster: false,
            },
        );
    }
    statuses
}

/// Those of the items whose flags are set, in order.
pub open spec fn flagged<T>(items: Seq<T>, flags: Seq<bool>) -> Seq<T>
    decreases items.len(),
{
    if items.len() == 0 {
        Seq::empty()
    } else {
        let before = flagged(items.drop_last(), flags);
        if flags[items.len() - 1] {
            before.push(items.last())
        } else {
            before
        }
    }
}

/// The views after one is made of the given options, and whether that succeeds. A view that is
/// there stays where it may be there, and is replaced only where it may be.
pub open spec fn view_made<P, S>(
    before: Seq<(Seq<char>, TemporaryView<P, S>)>,
    after: Seq<(Seq<char>, TemporaryView<P, S>)>,
    name: Seq<char>,
    options: CreateTemporaryViewOptions<P, S>,
    succeeds: bool,
) -> bool {
    if has_key(before, name) && (options.if_not_exists || !options.replace) {
        after == before && succeeds == options.if_not_exists
    } else if !options.columns_fit() {
        after == before && !succeeds
    } else {
        succeeds && exists|view: TemporaryView<P, S>|
            is_view_of(view, options) && after == #[trigger] stored(before, name, view)
    }
}

/// The views after one is removed, and whether that succeeds: a view that is not there can be
/// removed only where it need not be there.
pub open spec fn view_removed<P, S>(
    before: Seq<(Seq<char>, TemporaryView<P, S>)>,
    after: Seq<(Seq<char>, TemporaryView<P, S>)>,
    name: Seq<char>,
    if_exists: bool,
    succeeds: bool,
) -> bool {
    if has_key(before, name) {
        succeeds && after == dropped(before, name)
    } else {
        succeeds == if_exists && after == before
    }
}

/// The temporary views of a session, or those of all sessions.
#[derive(Debug)]
pub struct TemporaryViewManager<P, S> {
    views: StringMap<TemporaryView<P, S>>,
}

impl<P, S> View for TemporaryViewManager<P, S> {
    type V = Seq<(Seq<char>, TemporaryView<P, S>)>;

    closed spec fn view(&self) -> Seq<(Seq<char>, TemporaryView<P, S>)> {
        self.views@
    }
}

impl<P, S> Default for TemporaryViewManager<P, S> {
    fn default() -> (manager: TemporaryViewManager<P, S>)
        ensures
            manager@.len() == 0,
            distinct_keys(manager@),
    {
        TemporaryViewManager::new()
    }
}

impl<P, S> TemporaryViewManager<P, S> {
    #[must_use]
    pub fn new() -> (manager: TemporaryViewManager<P, S>)
        ensures
            manager@.len() == 0,
            distinct_keys(manager@),
    {
        TemporaryViewManager { views: StringMap::new() }
    }

    /// Creates a view.
    ///
    /// # Errors
    /// Returns an error if the temporary view already exists or if column count mismatches.
    pub fn create_view(&mut self, name: String, options: CreateTemporaryViewOptions<P, S>) -> (
    result: Result<(), CatalogError>)
        ensures
            ({
                let exists = has_key(old(self)@, name@);
                if exists && options.if_not_exists {
                    result is Ok && final(self)@ == old(self)@
                } else if exists && !options.replace {
                    (result matches Err(e) && e@ == CatalogFault::AlreadyExists(
                        CatalogObject::TemporaryView,
                        name@,
                    )) && final(self)@ == old(self)@
                } else if !options.columns_fit() {
                    (result matches Err(e) && e@ == CatalogFault::InvalidArgument(
                        "temporary view column count do not match input schema"@,
                    )) && final(self)@ == old(self)@
                } else {
                    result is Ok && exists|view: TemporaryView<P, S>|
                        is_view_of(view, options) && final(self)@ == #[trigger] stored(
                            old(self)@,
                            name@,
                            view,
                        )
                }
            }),
            view_made(old(self)@, final(self)@, name@, options, result is Ok),
            distinct_keys(old(self)@),
            distinct_keys(final(self)@),
    {
        if self.views.contains_key(name.as_str()) {
            if options.if_not_exists {
                return Ok(());
            } else if !options.replace {
                return Err(CatalogError::AlreadyExists(CatalogObject::TemporaryView, name));
            }
        }
        if options.columns.len() != 0 && options.fields.len() != options.columns.len() {
            return Err(
                CatalogError::InvalidArgument(
                    "temporary view column count do not match input schema".to_owned(),
                ),
            );
        }
        let columns = view_columns(&options.fields, &options.columns);
        let view = TemporaryView {
            plan: options.input,
            columns,
            comment: options.comment,
            properties: options.properties,
            source: options.source,
        };
        assert(is_view_of(view, options));
        self.views.insert(name, view);
        Ok(())
    }

    /// Removes a view.
    ///
    /// # Errors
    /// Returns an error if the temporary view does not exist and `if_exists` is false.
    pub fn drop_view(&mut self, name: &str, if_exists: bool) -> (result: Result<(), CatalogError>)
        ensures
            match result {
                Ok(_) => (has_key(old(self)@, name@) || if_exists) && final(self)@ == dropped(
                    old(self)@,
                    name@,
                ),
                Err(e) => !has_key(old(self)@, name@) && !if_exists && e@
                    == CatalogFault::NotFound(CatalogObject::TemporaryView, name@) && final(self)@
                    == old(self)@,
            },
            view_removed(old(self)@, final(self)@, name@, if_exists, result is Ok),
            distinct_keys(old(self)@),
            distinct_keys(final(self)@),
    {
        if !self.views.contains_key(name) && !if_exists {
            return Err(CatalogError::NotFound(CatalogObject::TemporaryView, name.to_owned()));
        }
        self.views.remove(name);
        Ok(())
    }

    /// The view with the given name.
    ///
    /// # Errors
    /// Returns an error if the temporary view does not exist.
    pub fn get_view(&self, name: &str) -> (view: Result<&TemporaryView<P, S>, CatalogError>)
        ensures
            match view {
                Ok(v) => value_of(self@, name@) == Some(*v),
                Err(e) => !has_key(self@, name@) && e@ == CatalogFault::NotFound(
                    CatalogObject::TemporaryView,
                    name@,
                ),
            },
            distinct_keys(self@),
    {
        match self.views.get(name) {
            Some(view) => Ok(view),
            None => Err(CatalogError::NotFound(CatalogObject::TemporaryView, name.to_owned())),
        }
    }

    /// The views whose names are asked for, in the order of their creation.
    pub fn list_views<F: Fn(&String) -> bool>(&self, wanted: F) -> (listed: Vec<
        (&String, &TemporaryView<P, S>),
    >)
        requires
            forall|name: &String| #[trigger] call_requires(wanted, (name,)),
        ensures
            exists|flags: Seq<bool>|
                #![trigger flagged(self@, flags)]
                flags.len() == self@.len() && listed_views(listed@) == flagged(self@, flags)
                    && forall|i: int|
                    0 <= i < flags.len() ==> name_matches(wanted, self@[i].0, #[trigger] flags[i]),
            distinct_keys(self@),
    {
        let mut listed: Vec<(&String, &TemporaryView<P, S>)> = Vec::new();
        let n: usize = self.views.len();
        let ghost mut flags: Seq<bool> = Seq::empty();
        assert(listed_views(listed@) =~= flagged(self@.take(0), flags));
        for i in 0..n
            invariant
                n == self@.len(),
                self@ == self.views@,
                flags.len() == i,
                forall|name: &String| #[trigger] call_requires(wanted, (name,)),
                listed_views(listed@) == flagged(self@.take(i as int), flags),
                forall|j: int|
                    0 <= j < i ==> name_matches(wanted, self@[j].0, #[trigger] flags[j]),
        {
            let (name, view) = self.views.entry(i);
            let matched: bool = wanted(name);
            let ghost before = listed_views(listed@);
            proof {
                let longer = flags.push(matched);
                lemma_flagged_prefix(self@.take(i as int), flags, longer);
                assert(self@.take(i + 1).drop_last() =~= self@.take(i as int));
                assert(name_matches(wanted, self@[i as int].0, matched));
                flags = longer;
            }
            if matched {
                listed.push((name, view));
                assert(listed_views(listed@) =~= before.push(self@[i as int]));
            }
        }
        assert(self@.take(n as int) =~= self@);
        listed
    }
}

/// Whether asking for a name can have given the answer.
pub open spec fn name_matches<F: Fn(&String) -> bool>(
    wanted: F,
    name: Seq<char>,
    answer: bool,
) -> bool {
    exists|asked: &String| asked@ == name && #[trigger] call_ensures(wanted, (asked,), answer)
}

/// Listed views, with their names by their characters.
pub open spec fn listed_views<P, S>(listed: Seq<(&String, &TemporaryView<P, S>)>) -> Seq<
    (Seq<char>, TemporaryView<P, S>),
> {
    listed.map_values(|entry: (&String, &TemporaryView<P, S>)| (entry.0@, *entry.1))
}

/// Flags behind those of the items do not matter.
proof fn lemma_flagged_prefix<T>(items: Seq<T>, flags: Seq<bool>, more: Seq<bool>)
    requires
        items.len() <= flags.len() <= more.len(),
        forall|i: int| 0 <= i < items.len() ==> flags[i] == more[i],
    ensures
        flagged(items, flags) == flagged(items, more),
    decreases items.len(),
{
    if items.len() > 0 {
        lemma_flagged_prefix(items.drop_last(), flags, more);
    }
}

/// A view that was created is found under its name, and other views stay what they are.
pub proof fn law_created_views_are_found<P, S>(
    views: Seq<(Seq<char>, TemporaryView<P, S>)>,
    name: Seq<char>,
    view: TemporaryView<P, S>,
    other: Seq<char>,
)
    requires
        distinct_keys(views),
    ensures
        value_of(stored(views, name, view), name) == Some(view),
        other != name ==> value_of(stored(views, name, view), other) == value_of(views, other),
{
    lemma_stored(views, name, view);
}

/// A view that was removed is not found any more, and other views stay what they are.
pub proof fn law_dropped_views_are_gone<P, S>(
    views: Seq<(Seq<char>, TemporaryView<P, S>)>,
    name: Seq<char>,
    other: Seq<char>,
)
    requires
        distinct_keys(views),
    ensures
        !has_key(dropped(views, name), name),
        other != name ==> value_of(dropped(views, name), other) == value_of(views, other),
{
    lemma_dropped(views, name);
}

/// The flagged items are those with a flag, in their order.
pub proof fn law_flagged_items<T>(items: Seq<T>, item: T, flags: Seq<bool>)
    requires
        items.len() < flags.len(),
    ensures
        flagged(Seq::<T>::empty(), flags).len() == 0,
        flags[items.len() as int] ==> flagged(items.push(item), flags) == flagged(items, flags)
            + seq![item],
        !flags[items.len() as int] ==> flagged(items.push(item), flags) == flagged(items, flags),
{
    assert(items.push(item).drop_last() =~= items);
    assert(flagged(items, flags).push(item) =~= flagged(items, flags) + seq![item]);
}

/// A column of a view has the name, the type and the nullability of its field and nothing else,
/// but for a comment: its own, or none where columns have no comments at all.
pub proof fn law_view_columns(field: PlanField, columns: Seq<TemporaryViewColumn>, i: int)
    ensures
        ({
            let column = view_column(field, column_comment(columns, i));
            &&& column.name == field.name
            &&& column.data_type == field.data_type
            &&& column.nullable == field.nullable
            &&& column.default_value is None && column.generated_always_as is None
                && column.identity is None
            &&& !column.is_partition && !column.is_bucket && !column.is_cluster
            &&& columns.len() == 0 ==> column.comment is None
            &&& columns.len() > 0 ==> column.comment == columns[i].comment
        }),
{
}

/// Making a view leaves all others as they are. A view that is there already is kept unless it is
/// to be replaced, and is an error unless it may be there; a new one is found under its name, made
/// of what was asked for.
pub proof fn law_made_views<P, S>(
    before: Seq<(Seq<char>, TemporaryView<P, S>)>,
    after: Seq<(Seq<char>, TemporaryView<P, S>)>,
    name: Seq<char>,
    options: CreateTemporaryViewOptions<P, S>,
    succeeds: bool,
    other: Seq<char>,
    i: int,
)
    requires
        distinct_keys(before),
        view_made(before, after, name, options, succeeds),
    ensures
        other != name ==> value_of(after, other) == value_of(before, other),
        has_key(before, name) && options.if_not_exists ==> succeeds && after == before,
        has_key(before, name) && !options.if_not_exists && !options.replace ==> !succeeds && after
            == before,
        !succeeds ==> after == before,
        options.columns_fit() && (!has_key(before, name) || (options.replace
            && !options.if_not_exists)) ==> succeeds && (value_of(after, name) matches Some(view)
            && view.spec_plan() == options.input && view.spec_comment() == options.comment
            && view.spec_properties() == options.properties@ && view.spec_source()
            == options.source && view.spec_columns().len() == options.fields@.len() && (0 <= i
            < options.fields@.len() ==> view.spec_columns()[i].name == options.fields@[i].name)),
        !options.columns_fit() && !has_key(before, name) ==> !succeeds,
{
    if options.columns_fit() && (!has_key(before, name) || (options.replace
        && !options.if_not_exists)) {
        let view = choose|view: TemporaryView<P, S>|
            is_view_of(view, options) && after == #[trigger] stored(before, name, view);
        lemma_stored(before, name, view);
        if 0 <= i < options.fields@.len() {
            assert(view.spec_columns()[i] == view_column(
                options.fields@[i],
                column_comment(options.columns@, i),
            ));
        }
    }
}

/// A view that is removed is gone, and all others stay. One that is not there can be removed only
/// where it need not be.
pub proof fn law_removed_views<P, S>(
    before: Seq<(Seq<char>, TemporaryView<P, S>)>,
    after: Seq<(Seq<char>, TemporaryView<P, S>)>,
    name: Seq<char>,
    if_exists: bool,
    succeeds: bool,
    other: Seq<char>,
)
    requires
        distinct_keys(before),
        view_removed(before, after, name, if_exists, succeeds),
    ensures
        succeeds <==> has_key(before, name) || if_exists,
        !has_key(after, name),
        other != name ==> value_of(after, other) == value_of(before, other),
{
    if has_key(before, name) {
        lemma_dropped(before, name);
    }
}

/// A view is found exactly where there is one of its name, and what is missing is named.
pub proof fn law_found_views<P, S>(
    manager: TemporaryViewManager<P, S>,
    name: &str,
    view: Result<&TemporaryView<P, S>, CatalogError>,
)
    requires
        call_ensures(TemporaryViewManager::<P, S>::get_view, (&manager, name), view),
    ensures
        view matches Ok(v) ==> value_of(manager@, name@) == Some(*v),
        view matches Err(e) ==> !has_key(manager@, name@) && e@ == CatalogFault::NotFound(
            CatalogObject::TemporaryView,
            name@,
        ),
{
}

/// Columns may be spoken of all together or not at all.
pub proof fn law_columns_that_fit<P, S>(options: CreateTemporaryViewOptions<P, S>)
    ensures
        options.columns@.len() == 0 ==> options.columns_fit(),
        options.columns@.len() == options.fields@.len() ==> options.columns_fit(),
        0 < options.columns@.len() < options.fields@.len() ==> !options.columns_fit(),
        options.columns@.len() > options.fields@.len() ==> !options.columns_fit(),
{
}

} // verus!
