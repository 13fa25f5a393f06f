//! The course of a commit that is tried once: the caller tries again where it wants to.

use vstd::prelude::*;
use vstd::string::*;

use crate::iceberg::contents::duplicate_pairs;
use crate::iceberg::commit::machine::{CatalogAnswer, IcebergCatalogCommitMode};

verus! {

/// Where a change is committed to.
#[derive(Debug, Clone, Copy, PartialEq, Eq, Structural)]
pub struct ChangeRoute {
    pub mode: IcebergCatalogCommitMode,
    /// Whether the table is known to a catalog that can be reached.
    pub in_catalog: bool,
}

/// The route for a table with the given name in the catalog. Without a session there is no
/// mode, and no catalog can be reached.
pub fn change_route(
    catalog_table: Option<&Vec<String>>,
    mode: Option<IcebergCatalogCommitMode>,
) -> (route: ChangeRoute)
    ensures
        route.in_catalog <==> mode is Some && (catalog_table matches Some(name) && name@.len() > 0),
        route.mode == (match mode {
            Some(m) => m,
            None => IcebergCatalogCommitMode::Filesystem,
        }),
{
    let named = match catalog_table {
        Some(name) => name.len() > 0,
        None => false,
    };
    match mode {
        Some(mode) => ChangeRoute { mode, in_catalog: named },
        None => ChangeRoute { mode: IcebergCatalogCommitMode::Filesystem, in_catalog: false },
    }
}

impl ChangeRoute {
    /// Whether the catalog is asked to commit.
    pub open spec fn commits_to_catalog(self) -> bool {
        self.in_catalog && self.mode.spec_uses_catalog_commit()
    }

    /// Whether the catalog decides by the location of the metadata which one is current.
    /// That is so too where it was asked to commit and did not.
    pub open spec fn moves_location(self, fallback: bool) -> bool {
        self.in_catalog && (fallback || self.mode.spec_uses_metadata_location_update())
    }

    /// Whether the table is merely listed in the catalog.
    pub open spec fn listed(self) -> bool {
        self.in_catalog && self.mode == IcebergCatalogCommitMode::Filesystem
    }

    /// Whether the catalog is told the location of the new metadata.
    pub open spec fn tells_catalog(self, fallback: bool) -> bool {
        self.moves_location(fallback) || self.listed()
    }
}

/// How far a change is.
#[derive(Debug, Clone, Copy, PartialEq, Eq, Structural)]
pub enum ChangePhase {
    AskingCatalog,
    WritingMetadata { fallback: bool },
    WritingHint { fallback: bool },
    TellingCatalog,
    Ended,
}

/// What to do next.
#[derive(Debug, Clone, Copy, PartialEq, Eq, Structural)]
pub enum ChangeAction {
    /// Ask the catalog to commit.
    CommitToCatalog,
    /// Apply the updates to the metadata and write it to the file of the next version,
    /// unless that is there already. Which file that is, and what the hint then holds, is for
    /// [`crate::iceberg::metadata_files::next_metadata`] to say.
    WriteMetadata { with_identifier: bool },
    /// Write the version hint.
    WriteHint { with_identifier: bool },
    /// Tell the catalog the location of the new metadata.
    UpdateCatalog,
    /// The change has gone through.
    Committed,
    /// The change has failed.
    Fail { failure: ChangeFailure },
}

/// Why a change fails.
#[derive(Debug, Clone, Copy, PartialEq, Eq, Structural)]
pub enum ChangeFailure {
    /// What was done last has failed, with an error of its own.
    Step,
    /// Another writer has written the next version.
    FileExists,
}

impl ChangeFailure {
    pub open spec fn spec_message(self) -> Seq<char> {
        match self {
            ChangeFailure::Step => ""@,
            ChangeFailure::FileExists => "Iceberg commit conflict: metadata file already exists"@,
        }
    }

    /// The message of the failure. The failure of a step has a message of its own.
    pub fn message(&self) -> (text: String)
        ensures
            text@ == self.spec_message(),
    {
        match self {
            ChangeFailure::Step => "".to_owned(),
            ChangeFailure::FileExists => {
                "Iceberg commit conflict: metadata file already exists".to_owned()
            },
        }
    }
}

/// What has come of the last thing done.
#[derive(Debug, Clone, Copy, PartialEq, Eq, Structural)]
pub enum ChangeEvent {
    Failed,
    Done,
    /// The catalog has answered.
    Answered { answer: CatalogAnswer },
    /// The file to write was there already.
    Exists,
}

/// The first thing to do.
pub open spec fn change_start(route: ChangeRoute) -> (ChangePhase, ChangeAction) {
    if route.commits_to_catalog() {
        (ChangePhase::AskingCatalog, ChangeAction::CommitToCatalog)
    } else {
        change_writing(route, false)
    }
}

/// A change that writes the metadata itself.
pub open spec fn change_writing(route: ChangeRoute, fallback: bool) -> (ChangePhase, ChangeAction) {
    (
        ChangePhase::WritingMetadata { fallback },
        ChangeAction::WriteMetadata { with_identifier: route.moves_location(fallback) },
    )
}

/// A change that has failed.
pub open spec fn change_failed(failure: ChangeFailure) -> (ChangePhase, ChangeAction) {
    (ChangePhase::Ended, ChangeAction::Fail { failure })
}

/// What comes next. A catalog that does not commit, or that saw another commit, leaves the
/// commit to the metadata files, and is told where the new metadata is.
pub open spec fn change_step(route: ChangeRoute, phase: ChangePhase, event: ChangeEvent) -> (
    ChangePhase,
    ChangeAction,
) {
    match (phase, event) {
        (ChangePhase::AskingCatalog, ChangeEvent::Answered { answer }) => match answer {
            CatalogAnswer::Committed => (ChangePhase::Ended, ChangeAction::Committed),
            CatalogAnswer::NotSupported | CatalogAnswer::Conflict => change_writing(route, true),
        },
        (ChangePhase::WritingMetadata { fallback }, ChangeEvent::Done) => (
            ChangePhase::WritingHint { fallback },
            ChangeAction::WriteHint { with_identifier: route.moves_location(fallback) },
        ),
        (ChangePhase::WritingMetadata { .. }, ChangeEvent::Exists) => change_failed(
            ChangeFailure::FileExists,
        ),
        (ChangePhase::WritingHint { fallback }, ChangeEvent::Done) => if route.tells_catalog(
            fallback,
        ) {
            (ChangePhase::TellingCatalog, ChangeAction::UpdateCatalog)
        } else {
            (ChangePhase::Ended, ChangeAction::Committed)
        },
        (ChangePhase::TellingCatalog, ChangeEvent::Done) => (
            ChangePhase::Ended,
            ChangeAction::Committed,
        ),
        _ => change_failed(ChangeFailure::Step),
    }
}

fn moves_location(route: ChangeRoute, fallback: bool) -> (moves: bool)
    ensures
        moves == route.moves_location(fallback),
{
    route.in_catalog && (fallback || route.mode.uses_metadata_location_update())
}

/// The first thing to do.
pub fn start_change(route: ChangeRoute) -> (next: (ChangePhase, ChangeAction))
    ensures
        next == change_start(route),
{
    if route.in_catalog && route.mode.uses_catalog_commit() {
        (ChangePhase::AskingCatalog, ChangeAction::CommitToCatalog)
    } else {
        (
            ChangePhase::WritingMetadata { fallback: false },
            ChangeAction::WriteMetadata { with_identifier: moves_location(route, false) },
        )
    }
}

/// What to do next, given how far the change is and what has come of the last thing done.
pub fn next_change_step(route: ChangeRoute, phase: ChangePhase, event: ChangeEvent) -> (next: (
    ChangePhase,
    ChangeAction,
))
    ensures
        next == change_step(route, phase, event),
{
    match (phase, event) {
        (ChangePhase::AskingCatalog, ChangeEvent::Answered { answer }) => match answer {
            CatalogAnswer::Committed => (ChangePhase::Ended, ChangeAction::Committed),
            CatalogAnswer::NotSupported | CatalogAnswer::Conflict => (
                ChangePhase::WritingMetadata { fallback: true },
                ChangeAction::WriteMetadata { with_identifier: moves_location(route, true) },
            ),
        },
        (ChangePhase::WritingMetadata { fallback }, ChangeEvent::Done) => (
            ChangePhase::WritingHint { fallback },
            ChangeAction::WriteHint { with_identifier: moves_location(route, fallback) },
        ),
        (ChangePhase::WritingMetadata { .. }, ChangeEvent::Exists) => (
            ChangePhase::Ended,
            ChangeAction::Fail { failure: ChangeFailure::FileExists },
        ),
        (ChangePhase::WritingHint { fallback }, ChangeEvent::Done) => {
            let listed = route.in_catalog && matches!(
                route.mode,
                IcebergCatalogCommitMode::Filesystem
            );
            if moves_location(route, fallback) || listed {
                (ChangePhase::TellingCatalog, ChangeAction::UpdateCatalog)
            } else {
                (ChangePhase::Ended, ChangeAction::Committed)
            }
        },
        (ChangePhase::TellingCatalog, ChangeEvent::Done) => (
            ChangePhase::Ended,
            ChangeAction::Committed,
        ),
        _ => (ChangePhase::Ended, ChangeAction::Fail { failure: ChangeFailure::Step }),
    }
}

/// How many steps a change can take at most from the given phase.
pub open spec fn change_rank(phase: ChangePhase) -> nat {
    match phase {
        ChangePhase::AskingCatalog => 4,
        ChangePhase::WritingMetadata { .. } => 3,
        ChangePhase::WritingHint { .. } => 2,
        ChangePhase::TellingCatalog => 1,
        ChangePhase::Ended => 0,
    }
}

/// Every step brings a change nearer to its end, and it ends either committed or failed.
pub proof fn law_changes_end(route: ChangeRoute, phase: ChangePhase, event: ChangeEvent)
    requires
        !(phase is Ended),
    ensures
        change_rank(change_step(route, phase, event).0) < change_rank(phase),
        change_step(route, phase, event).0 is Ended <==> (change_step(route, phase, event).1
            is Committed || change_step(route, phase, event).1 is Fail),
{
}

/// A change is committed only by the catalog itself, or once the version hint is written and
/// the catalog, where it has to know, was told.
pub proof fn law_committed_changes_went_through(
    route: ChangeRoute,
    phase: ChangePhase,
    event: ChangeEvent,
)
    requires
        change_step(route, phase, event).1 is Committed,
    ensures
        match phase {
            ChangePhase::AskingCatalog => event == (ChangeEvent::Answered {
                answer: CatalogAnswer::Committed,
            }),
            ChangePhase::WritingHint { fallback } => event is Done && !route.tells_catalog(
                fallback,
            ),
            ChangePhase::TellingCatalog => event is Done,
            _ => false,
        },
{
}

/// A change that the catalog does not commit, for whatever reason, goes on with the metadata
/// files: a file with an identifier in its name, then the hint, then the catalog.
pub proof fn law_fallback_tells_the_catalog(route: ChangeRoute, answer: CatalogAnswer)
    requires
        route.commits_to_catalog(),
        !(answer is Committed),
    ensures
        ({
            let (asking, first) = change_start(route);
            let (writing, second) = change_step(route, asking, ChangeEvent::Answered { answer });
            let (hinting, third) = change_step(route, writing, ChangeEvent::Done);
            let (telling, fourth) = change_step(route, hinting, ChangeEvent::Done);
            let (ended, last) = change_step(route, telling, ChangeEvent::Done);
            &&& first is CommitToCatalog
            &&& second == (ChangeAction::WriteMetadata { with_identifier: true })
            &&& third == (ChangeAction::WriteHint { with_identifier: true })
            &&& fourth is UpdateCatalog
            &&& last is Committed
        }),
{
}

/// A change without a session, or of a table that no catalog knows, goes through the metadata
/// files alone: the file of the version that follows and then the hint are written, and no
/// catalog is asked or told.
pub proof fn law_changes_outside_catalogs_stay_in_files(route: ChangeRoute)
    requires
        !route.in_catalog,
    ensures
        ({
            let (writing, first) = change_start(route);
            let (hinting, second) = change_step(route, writing, ChangeEvent::Done);
            let (ended, last) = change_step(route, hinting, ChangeEvent::Done);
            &&& first == (ChangeAction::WriteMetadata { with_identifier: false })
            &&& second == (ChangeAction::WriteHint { with_identifier: false })
            &&& last is Committed
        }),
{
}

/// One layer of the options of a table.
#[derive(Debug)]
pub enum OptionLayer {
    OptionList { items: Vec<(String, String)> },
    TablePropertyList { items: Vec<(String, String)> },
}

/// The first property list among the layers; without one, nothing.
pub open spec fn first_property_list(options: Seq<OptionLayer>) -> Seq<(String, String)>
    decreases options.len(),
{
    if options.len() == 0 {
        Seq::empty()
    } else {
        match options[0] {
            OptionLayer::TablePropertyList { items } => items@,
            _ => first_property_list(options.skip(1)),
        }
    }
}

/// Extract the first `TablePropertyList` from the layers.
pub fn extract_table_properties(options: &[OptionLayer]) -> (items: Vec<(String, String)>)
    ensures
        items@ == first_property_list(options@),
{
    assert(options@.skip(0) =~= options@);
    for i in 0..options.len()
        invariant
            first_property_list(options@) == first_property_list(options@.skip(i as int)),
    {
        let ghost rest = options@.skip(i as int);
        assert(rest[0] == options@[i as int]);
        assert(rest.skip(1) =~= options@.skip(i + 1));
        match &options[i] {
            OptionLayer::TablePropertyList { items } => {
                return duplicate_pairs(items);
            },
            _ => {},
        }
    }
    Vec::new()
}

/// What a change comes to where nothing goes wrong: a catalog that is asked commits, and
/// everything else is done.
pub open spec fn undisturbed_change(route: ChangeRoute, next: (ChangePhase, ChangeAction)) -> (
    ChangePhase,
    ChangeAction,
) {
    change_step(
        route,
        next.0,
        if next.1 is CommitToCatalog {
            ChangeEvent::Answered { answer: CatalogAnswer::Committed }
        } else {
            ChangeEvent::Done
        },
    )
}

/// A change that nothing disturbs goes through. A catalog that commits is asked to and does all
/// of it. Otherwise the metadata and the hint are written, with an identifier in the name where the
/// catalog takes locations, and a catalog that has the table is told of them.
pub proof fn law_undisturbed_changes_go_through(route: ChangeRoute)
    ensures
        ({
            let first = change_start(route);
            let second = undisturbed_change(route, first);
            let third = undisturbed_change(route, second);
            let fourth = undisturbed_change(route, third);
            match (route.in_catalog, route.mode) {
                (true, IcebergCatalogCommitMode::CatalogCommit)
                | (true, IcebergCatalogCommitMode::CompatibilityCatalogCommit) => {
                    &&& first.1 is CommitToCatalog
                    &&& second.1 is Committed
                },
                (true, IcebergCatalogCommitMode::MetadataLocationCas) => {
                    &&& first.1 == (ChangeAction::WriteMetadata { with_identifier: true })
                    &&& second.1 == (ChangeAction::WriteHint { with_identifier: true })
                    &&& third.1 is UpdateCatalog
                    &&& fourth.1 is Committed
                },
                (true, IcebergCatalogCommitMode::Filesystem) => {
                    &&& first.1 == (ChangeAction::WriteMetadata { with_identifier: false })
                    &&& second.1 == (ChangeAction::WriteHint { with_identifier: false })
                    &&& third.1 is UpdateCatalog
                    &&& fourth.1 is Committed
                },
                (false, _) => {
                    &&& first.1 == (ChangeAction::WriteMetadata { with_identifier: false })
                    &&& second.1 == (ChangeAction::WriteHint { with_identifier: false })
                    &&& third.1 is Committed
                },
            }
        }),
{
}

/// A catalog that is asked and does not commit, because it cannot or because of another commit,
/// is told of the metadata that is then written.
pub proof fn law_refused_changes_go_through(route: ChangeRoute, conflict: bool)
    requires
        route.in_catalog,
        route.mode == IcebergCatalogCommitMode::CatalogCommit || route.mode
            == IcebergCatalogCommitMode::CompatibilityCatalogCommit,
    ensures
        ({
            let answer = if conflict {
                CatalogAnswer::Conflict
            } else {
                CatalogAnswer::NotSupported
            };
            let first = change_step(
                route,
                change_start(route).0,
                ChangeEvent::Answered { answer },
            );
            let second = undisturbed_change(route, first);
            let third = undisturbed_change(route, second);
            let fourth = undisturbed_change(route, third);
            &&& first.1 == (ChangeAction::WriteMetadata { with_identifier: true })
            &&& second.1 == (ChangeAction::WriteHint { with_identifier: true })
            &&& third.1 is UpdateCatalog
            &&& fourth.1 is Committed
        }),
{
}

/// Whatever fails, fails the change, with an error of its own; a file of the next version that
/// is there already fails it as a conflict. Nothing else is done afterwards.
pub proof fn law_failed_changes(route: ChangeRoute, phase: ChangePhase, event: ChangeEvent)
    ensures
        change_step(route, phase, ChangeEvent::Failed) == (
            ChangePhase::Ended,
            ChangeAction::Fail { failure: ChangeFailure::Step },
        ),
        phase is WritingMetadata ==> change_step(route, phase, ChangeEvent::Exists) == (
            ChangePhase::Ended,
            ChangeAction::Fail { failure: ChangeFailure::FileExists },
        ),
        !(phase is WritingMetadata) ==> change_step(route, phase, ChangeEvent::Exists).1 is Fail,
        change_step(route, ChangePhase::Ended, event).1 is Fail,
{
}

/// The table properties are those of the first property list, and none where there is no such
/// list.
pub proof fn law_first_property_list(options: Seq<OptionLayer>)
    ensures
        (exists|i: int|
            0 <= i < options.len() && (#[trigger] options[i] matches OptionLayer::TablePropertyList {
                items,
            } && items@ == first_property_list(options)) && forall|j: int|
                0 <= j < i ==> !(#[trigger] options[j] is TablePropertyList)) || (
        first_property_list(options).len() == 0 && forall|j: int|
            0 <= j < options.len() ==> !(#[trigger] options[j] is TablePropertyList)),
    decreases options.len(),
{
    if options.len() > 0 && !(options[0] is TablePropertyList) {
        let rest = options.skip(1);
        law_first_property_list(rest);
        if exists|j: int| 0 <= j < rest.len() && #[trigger] rest[j] is TablePropertyList {
            let i = choose|i: int|
                0 <= i < rest.len() && (#[trigger] rest[i] matches OptionLayer::TablePropertyList {
                    items,
                } && items@ == first_property_list(rest)) && forall|j: int|
                    0 <= j < i ==> !(#[trigger] rest[j] is TablePropertyList);
            assert(options[i + 1] == rest[i]);
            assert forall|j: int| 0 <= j < i + 1 implies !(
            #[trigger] options[j] is TablePropertyList) by {
                if j > 0 {
                    assert(rest[j - 1] == options[j]);
                }
            }
        } else {
            assert forall|j: int| 0 <= j < options.len() implies !(
            #[trigger] options[j] is TablePropertyList) by {
                if j > 0 {
                    assert(rest[j - 1] == options[j]);
                }
            }
        }
    }
}

/// A change is routed by the mode of the session, and to no catalog without a session or a name
/// in one.
pub proof fn law_changes_are_routed(
    name: Vec<String>,
    mode: IcebergCatalogCommitMode,
    named: ChangeRoute,
    unnamed: ChangeRoute,
    apart: ChangeRoute,
)
    requires
        call_ensures(change_route, (Some(&name), Some(mode)), named),
        call_ensures(change_route, (None, Some(mode)), unnamed),
        call_ensures(change_route, (Some(&name), None), apart),
    ensures
        named.mode == mode && unnamed.mode == mode,
        named.in_catalog <==> name@.len() > 0,
        !unnamed.in_catalog && !apart.in_catalog,
        apart.mode == IcebergCatalogCommitMode::Filesystem,
{
}

} // verus!
