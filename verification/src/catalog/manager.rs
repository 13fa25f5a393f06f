//! Looking up and listing tables and views.

use vstd::prelude::*;
use vstd::string::*;

use crate::catalog::error::{CatalogError, CatalogObject};

verus! {

use crate::catalog::error::CatalogFault;
use crate::catalog::temp_view::flagged;

/// Where a table or view is looked up.
#[derive(Debug, Clone, Copy, PartialEq, Eq, Structural)]
pub enum Lookup {
    TemporaryView,
    GlobalTemporaryView,
    Table,
    View,
}

/// What comes next when a table or view is looked up.
#[derive(Debug)]
pub enum LookupStep<T> {
    Look(Lookup),
    Answer(Result<T, CatalogError>),
}

/// An answer, by the contents of its error.
pub open spec fn answer_view<T>(answer: Result<T, CatalogError>) -> Result<T, CatalogFault> {
    match answer {
        Ok(found) => Ok(found),
        Err(e) => Err(e@),
    }
}

/// What comes next, by the contents of its error.
pub enum LookupStepView<T> {
    Look(Lookup),
    Answer(Result<T, CatalogFault>),
}

impl<T> View for LookupStep<T> {
    type V = LookupStepView<T>;

    open spec fn view(&self) -> LookupStepView<T> {
        match *self {
            LookupStep::Look(lookup) => LookupStepView::Look(lookup),
            LookupStep::Answer(answer) => LookupStepView::Answer(answer_view(answer)),
        }
    }
}

/// The first lookup behind that among temporary views.
pub open spec fn persistent_lookup(parts: int, in_global_database: bool) -> Lookup {
    if parts > 0 && in_global_database {
        Lookup::GlobalTemporaryView
    } else {
        Lookup::Table
    }
}

/// The first lookup: a single name may be that of a temporary view.
pub open spec fn first_lookup(parts: int, in_global_database: bool) -> Lookup {
    if parts == 1 {
        Lookup::TemporaryView
    } else {
        persistent_lookup(parts, in_global_database)
    }
}

/// The first lookup, given of how many parts the reference consists and whether all but the
/// last are the name of the database for global temporary views.
pub fn start_lookup(parts: usize, in_global_database: bool) -> (lookup: Lookup)
    ensures
        lookup == first_lookup(parts as int, in_global_database),
{
    if parts == 1 {
        Lookup::TemporaryView
    } else if parts > 0 && in_global_database {
        Lookup::GlobalTemporaryView
    } else {
        Lookup::Table
    }
}

/// That nothing with the given name was found.
pub open spec fn nothing_found(name: Seq<char>) -> CatalogFault {
    CatalogFault::NotFound(
        CatalogObject::Table,
        "[TABLE_OR_VIEW_NOT_FOUND] Table or view not found: "@ + name,
    )
}

/// The last part of a reference.
pub open spec fn last_part(reference: Seq<String>) -> Seq<char> {
    if reference.len() > 0 {
        reference.last()@
    } else {
        "<unknown>"@
    }
}

/// What comes after a lookup. What was found is the answer. Where nothing was found, a lookup
/// among temporary views goes on elsewhere, and one among tables goes on among views. A catalog
/// without views has none by that name.
pub open spec fn lookup_step<T>(
    reference: Seq<String>,
    in_global_database: bool,
    lookup: Lookup,
    outcome: Result<T, CatalogError>,
) -> LookupStepView<T> {
    match outcome {
        Ok(found) => LookupStepView::Answer(Ok(found)),
        Err(e) => match (lookup, e@) {
            (Lookup::TemporaryView, CatalogFault::NotFound(_, _)) => LookupStepView::Look(
                persistent_lookup(reference.len() as int, in_global_database),
            ),
            (Lookup::Table, CatalogFault::NotFound(_, _)) => LookupStepView::Look(Lookup::View),
            (Lookup::View, CatalogFault::NotFound(_, name)) => LookupStepView::Answer(
                Err(nothing_found(name)),
            ),
            (Lookup::View, CatalogFault::NotSupported(_)) => LookupStepView::Answer(
                Err(nothing_found(last_part(reference))),
            ),
            (_, fault) => LookupStepView::Answer(Err(fault)),
        },
    }
}

fn not_found<T>(name: &str) -> (step: LookupStep<T>)
    ensures
        step@ == LookupStepView::<T>::Answer(Err(nothing_found(name@))),
{
    let mut text = "[TABLE_OR_VIEW_NOT_FOUND] Table or view not found: ".to_owned();
    text.append(name);
    LookupStep::Answer(Err(CatalogError::NotFound(CatalogObject::Table, text)))
}

/// What comes after a lookup, given its outcome.
pub fn next_lookup<T>(
    reference: &Vec<String>,
    in_global_database: bool,
    lookup: Lookup,
    outcome: Result<T, CatalogError>,
) -> (step: LookupStep<T>)
    ensures
        step@ == lookup_step(reference@, in_global_database, lookup, outcome),
{
    match outcome {
        Ok(found) => LookupStep::Answer(Ok(found)),
        Err(CatalogError::NotFound(object, name)) => match lookup {
            Lookup::TemporaryView => {
                if reference.len() > 0 && in_global_database {
                    LookupStep::Look(Lookup::GlobalTemporaryView)
                } else {
                    LookupStep::Look(Lookup::Table)
                }
            },
            Lookup::GlobalTemporaryView => LookupStep::Answer(
                Err(CatalogError::NotFound(object, name)),
            ),
            Lookup::Table => LookupStep::Look(Lookup::View),
            Lookup::View => not_found(name.as_str()),
        },
        Err(CatalogError::NotSupported(message)) => match lookup {
            Lookup::View => {
                if reference.len() > 0 {
                    not_found(reference[reference.len() - 1].as_str())
                } else {
                    not_found("<unknown>")
                }
            },
            _ => LookupStep::Answer(Err(CatalogError::NotSupported(message))),
        },
        Err(e) => LookupStep::Answer(Err(e)),
    }
}

/// How many lookups can still follow.
pub open spec fn lookups_left(lookup: Lookup) -> nat {
    match lookup {
        Lookup::TemporaryView => 2,
        Lookup::Table => 1,
        _ => 0,
    }
}

/// A lookup ends: every further one leaves fewer to come, and none is made behind one that
/// found something.
pub proof fn law_lookups_end<T>(
    reference: Seq<String>,
    in_global_database: bool,
    lookup: Lookup,
    outcome: Result<T, CatalogError>,
)
    ensures
        match lookup_step(reference, in_global_database, lookup, outcome) {
            LookupStepView::Look(next) => outcome is Err && lookups_left(next) < lookups_left(
                lookup,
            ),
            LookupStepView::Answer(answer) => outcome is Ok <==> answer is Ok,
        },
{
}

/// A name that neither a temporary view nor a table nor a view has is answered with that it was
/// not found, whether or not the catalog has views.
pub proof fn law_missing_names_are_reported<T>(reference: Seq<String>, outcome: Result<T, CatalogError>)
    requires
        outcome matches Err(e) && (e@ is NotFound || e@ is NotSupported),
    ensures
        lookup_step(reference, false, Lookup::View, outcome) matches LookupStepView::Answer(
            Err(CatalogFault::NotFound(object, _)),
        ) && object == CatalogObject::Table,
{
}

/// The tables and views of a database, as they were listed.
#[derive(Debug)]
pub enum DatabaseListing<T> {
    /// The database is that for global temporary views.
    GlobalTemporary(Result<Vec<T>, CatalogError>),
    Persistent { tables: Result<Vec<T>, CatalogError>, views: Result<Vec<T>, CatalogError> },
}

/// What was listed, by the contents of its error.
pub open spec fn listed<T>(list: Result<Vec<T>, CatalogError>) -> Result<Seq<T>, CatalogFault> {
    match list {
        Ok(items) => Ok(items@),
        Err(e) => Err(e@),
    }
}

/// Two lists behind one another, or the first error among them.
pub open spec fn listed_together<T>(
    first: Result<Seq<T>, CatalogFault>,
    second: Result<Seq<T>, CatalogFault>,
) -> Result<Seq<T>, CatalogFault> {
    match (first, second) {
        (Err(fault), _) => Err(fault),
        (Ok(_), Err(fault)) => Err(fault),
        (Ok(a), Ok(b)) => Ok(a + b),
    }
}

/// The views of a database. A catalog that has no views, or not that database, has none.
pub open spec fn views_or_none<T>(views: Result<Seq<T>, CatalogFault>) -> Result<
    Seq<T>,
    CatalogFault,
> {
    match views {
        Err(CatalogFault::NotSupported(_)) => Ok(Seq::empty()),
        Err(CatalogFault::NotFound(_, _)) => Ok(Seq::empty()),
        _ => views,
    }
}

/// What is listed of a database.
pub open spec fn database_list<T>(listing: DatabaseListing<T>) -> Result<Seq<T>, CatalogFault> {
    match listing {
        DatabaseListing::GlobalTemporary(views) => listed(views),
        DatabaseListing::Persistent { tables, views } => listed_together(
            listed(tables),
            views_or_none(listed(views)),
        ),
    }
}

fn list_together<T>(first: Result<Vec<T>, CatalogError>, second: Result<Vec<T>, CatalogError>) -> (
    list: Result<Vec<T>, CatalogError>)
    ensures
        listed(list) == listed_together(listed(first), listed(second)),
{
    match first {
        Err(e) => Err(e),
        Ok(items) => match second {
            Err(e) => Err(e),
            Ok(more) => {
                let mut all = items;
                let mut rest = more;
                all.append(&mut rest);
                Ok(all)
            },
        },
    }
}

/// The tables and views of a database and the temporary views, which are there in every
/// database.
pub fn list_tables_and_views<T>(
    listing: DatabaseListing<T>,
    temporary_views: Result<Vec<T>, CatalogError>,
) -> (list: Result<Vec<T>, CatalogError>)
    ensures
        listed(list) == listed_together(database_list(listing), listed(temporary_views)),
{
    let database = match listing {
        DatabaseListing::GlobalTemporary(views) => views,
        DatabaseListing::Persistent { tables, views } => {
            // Catalogs without views refuse to list them, which stands for having none.
            let views = match views {
                Ok(views) => Ok(views),
                Err(CatalogError::NotSupported(_)) | Err(CatalogError::NotFound(_, _)) => Ok(
                    Vec::new(),
                ),
                Err(e) => Err(e),
            };
            list_together(tables, views)
        },
    };
    list_together(database, temporary_views)
}

/// A catalog without views still lists its tables.
pub proof fn law_tables_are_listed_without_views<T>(
    tables: Vec<T>,
    views: Result<Vec<T>, CatalogError>,
    temporary_views: Vec<T>,
)
    requires
        views matches Err(e) && (e@ is NotSupported || e@ is NotFound),
    ensures
        listed_together(
            database_list(DatabaseListing::Persistent { tables: Ok(tables), views }),
            listed(Ok(temporary_views)),
        ) == Ok::<_, CatalogFault>(tables@ + temporary_views@),
{
    assert(tables@ + Seq::<T>::empty() =~= tables@);
}

/// Those of the tables whose names match, in order.
pub fn list_tables<T>(tables: Vec<T>, wanted: &Vec<bool>) -> (list: Vec<T>)
    requires
        tables@.len() == wanted@.len(),
    ensures
        list@ == flagged(tables@, wanted@),
{
    let mut list: Vec<T> = Vec::new();
    assert(list@ =~= flagged(tables@.take(0), wanted@));
    let ghost all = tables@;
    let n: usize = wanted.len();
    let mut i: usize = 0;
    for table in iter: tables
        invariant
            iter.seq() == all,
            i == iter.index(),
            n == wanted@.len(),
            all.len() == n,
            list@ == flagged(all.take(i as int), wanted@),
    {
        assert(all.take(i + 1).drop_last() =~= all.take(i as int));
        if wanted[i] {
            list.push(table);
        }
        i = i + 1;
    }
    assert(all.take(all.len() as int) =~= all);
    list
}

/// The catalogs of a session.
#[derive(Debug)]
pub struct CatalogManager;

impl CatalogManager {
    /// What has to be known of a table before it is created: what its catalog says, where the
    /// name of the table leads to one.
    pub fn create_table_metadata_requirement<R>(
        resolved: Result<Result<R, CatalogError>, CatalogError>,
    ) -> (requirement: Result<R, CatalogError>)
        ensures
            requirement == (match resolved {
                Ok(answer) => answer,
                Err(e) => Err(e),
            }),
    {
        match resolved {
            Ok(answer) => answer,
            Err(e) => Err(e),
        }
    }
}

/// A name is looked for among temporary views where it has one part. What is not found there, and
/// any other name, is looked for among global temporary views where its database is theirs, and
/// otherwise among tables and then among views.
pub proof fn law_names_are_looked_for<T>(
    reference: Seq<String>,
    in_global_database: bool,
    missing: Result<T, CatalogError>,
)
    requires
        missing matches Err(e) && e@ is NotFound,
    ensures
        reference.len() == 1 ==> first_lookup(reference.len() as int, in_global_database)
            == Lookup::TemporaryView,
        reference.len() > 1 && in_global_database ==> first_lookup(
            reference.len() as int,
            in_global_database,
        ) == Lookup::GlobalTemporaryView,
        reference.len() != 1 && !in_global_database ==> first_lookup(
            reference.len() as int,
            in_global_database,
        ) == Lookup::Table,
        reference.len() == 1 && in_global_database ==> lookup_step(
            reference,
            in_global_database,
            Lookup::TemporaryView,
            missing,
        ) == LookupStepView::<T>::Look(Lookup::GlobalTemporaryView),
        !in_global_database ==> lookup_step(
            reference,
            in_global_database,
            Lookup::TemporaryView,
            missing,
        ) == LookupStepView::<T>::Look(Lookup::Table),
        lookup_step(reference, in_global_database, Lookup::Table, missing) == LookupStepView::<
            T,
        >::Look(Lookup::View),
        lookup_step(reference, in_global_database, Lookup::View, missing) matches
            LookupStepView::Answer(Err(CatalogFault::NotFound(object, text))) && object
            == CatalogObject::Table && (missing->Err_0@ matches CatalogFault::NotFound(_, name)
            && text == "[TABLE_OR_VIEW_NOT_FOUND] Table or view not found: "@ + name),
        lookup_step(reference, in_global_database, Lookup::GlobalTemporaryView, missing)
            == LookupStepView::<T>::Answer(Err(missing->Err_0@)),
{
}

/// What is found is the answer, wherever it is found; and any failure other than that nothing was
/// found is the answer too, but for a catalog without views, which has found nothing.
pub proof fn law_answers_are_handed_on<T>(
    reference: Seq<String>,
    in_global_database: bool,
    lookup: Lookup,
    outcome: Result<T, CatalogError>,
)
    ensures
        outcome matches Ok(found) ==> lookup_step(reference, in_global_database, lookup, outcome)
            == LookupStepView::<T>::Answer(Ok(found)),
        outcome matches Err(e) ==> (!(e@ is NotFound) && !(lookup is View && e@ is NotSupported)
            ==> lookup_step(reference, in_global_database, lookup, outcome) == LookupStepView::<
            T,
        >::Answer(Err(e@))),
        (outcome matches Err(e) && e@ is NotSupported) && lookup is View && reference.len() > 0
            ==> lookup_step(reference, in_global_database, lookup, outcome) == LookupStepView::<
            T,
        >::Answer(
            Err(
                CatalogFault::NotFound(
                    CatalogObject::Table,
                    "[TABLE_OR_VIEW_NOT_FOUND] Table or view not found: "@ + reference.last()@,
                ),
            ),
        ),
{
}

/// Tables come first, then views, then temporary views; the first failure among them is that of
/// the list.
pub proof fn law_lists_follow_each_other<T>(
    tables: Vec<T>,
    views: Vec<T>,
    temporary_views: Vec<T>,
    failed: Result<Vec<T>, CatalogError>,
)
    requires
        failed matches Err(e) && !(e@ is NotSupported) && !(e@ is NotFound),
    ensures
        ({
            let fault = Err::<Seq<T>, _>(failed->Err_0@);
            let temporary = listed(Ok(temporary_views));
            &&& listed_together(
                database_list(DatabaseListing::Persistent { tables: Ok(tables), views: Ok(views) }),
                temporary,
            ) == Ok::<_, CatalogFault>(tables@ + views@ + temporary_views@)
            &&& listed_together(
                database_list(DatabaseListing::GlobalTemporary(Ok(views))),
                temporary,
            ) == Ok::<_, CatalogFault>(views@ + temporary_views@)
            &&& listed_together(
                database_list(DatabaseListing::Persistent { tables: failed, views: Ok(views) }),
                temporary,
            ) == fault
            &&& listed_together(
                database_list(DatabaseListing::Persistent { tables: Ok(tables), views: failed }),
                temporary,
            ) == fault
            &&& listed_together(
                database_list(DatabaseListing::GlobalTemporary(failed)),
                temporary,
            ) == fault
            &&& listed_together(
                database_list(DatabaseListing::Persistent { tables: Ok(tables), views: Ok(views) }),
                listed(failed),
            ) == fault
        }),
{
}

/// A name of one part may be that of a temporary view; behind that, the database for global
/// temporary views is looked into exactly where the name is in it, and tables otherwise.
pub proof fn law_first_lookups(parts: int, in_global_database: bool)
    ensures
        first_lookup(1, in_global_database) == Lookup::TemporaryView,
        parts > 1 && in_global_database ==> first_lookup(parts, in_global_database)
            == Lookup::GlobalTemporaryView,
        parts > 1 && !in_global_database ==> first_lookup(parts, in_global_database)
            == Lookup::Table,
        first_lookup(0, in_global_database) == Lookup::Table,
        persistent_lookup(1, in_global_database) == (if in_global_database {
            Lookup::GlobalTemporaryView
        } else {
            Lookup::Table
        }),
{
}

} // verus!
