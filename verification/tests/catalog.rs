use sail::catalog::commit_client::{
    commit_lakehouse_table, LakehouseCommitClientError, LakehouseCommitClientOutcome,
    LakehouseCommitOutcome,
};
use sail::catalog::error::{CatalogError, CatalogObject};
use sail::catalog::manager::{
    list_tables, list_tables_and_views, next_lookup, start_lookup, CatalogManager,
    DatabaseListing, Lookup, LookupStep,
};
use sail::catalog::temp_view::{
    CreateTemporaryViewOptions, PlanField, TemporaryViewColumn, TemporaryViewManager,
};

type Options = CreateTemporaryViewOptions<u8, char>;

fn options(plan: u8) -> Options {
    CreateTemporaryViewOptions {
        input: plan,
        fields: vec![
            PlanField {
                name: "id".to_string(),
                data_type: "int".to_string(),
                nullable: false,
            },
            PlanField {
                name: "name".to_string(),
                data_type: "string".to_string(),
                nullable: true,
            },
        ],
        columns: vec![],
        if_not_exists: false,
        replace: false,
        comment: Some("a view".to_string()),
        properties: vec![("k".to_string(), "v".to_string())],
        source: Some('s'),
    }
}

fn comment(text: &str) -> TemporaryViewColumn {
    TemporaryViewColumn {
        comment: Some(text.to_string()),
    }
}

#[test]
fn created_views_are_found() {
    let mut views = TemporaryViewManager::new();
    let mut with_comments = options(1);
    with_comments.columns = vec![comment("the id"), TemporaryViewColumn { comment: None }];
    views.create_view("v".to_string(), with_comments).unwrap();
    let view = views.get_view("v").unwrap();
    assert_eq!(*view.plan(), 1);
    assert_eq!(view.columns().len(), 2);
    assert_eq!(view.columns()[0].name, "id");
    assert_eq!(view.columns()[0].comment.as_deref(), Some("the id"));
    assert!(!view.columns()[0].nullable);
    assert_eq!(view.columns()[1].comment, None);
    assert_eq!(view.comment().unwrap(), "a view");
    assert_eq!(view.properties().len(), 1);
    assert_eq!(view.source(), Some(&'s'));
}

#[test]
fn existing_views_are_kept_or_replaced() {
    let mut views = TemporaryViewManager::default();
    views.create_view("v".to_string(), options(1)).unwrap();
    assert!(matches!(
        views.create_view("v".to_string(), options(2)),
        Err(CatalogError::AlreadyExists(CatalogObject::TemporaryView, name)) if name == "v"
    ));
    let mut lenient = options(2);
    lenient.if_not_exists = true;
    views.create_view("v".to_string(), lenient).unwrap();
    assert_eq!(*views.get_view("v").unwrap().plan(), 1);
    let mut replacing = options(3);
    replacing.replace = true;
    views.create_view("v".to_string(), replacing).unwrap();
    assert_eq!(*views.get_view("v").unwrap().plan(), 3);
}

#[test]
fn views_need_a_comment_for_every_column_or_none() {
    let mut views = TemporaryViewManager::new();
    let mut short = options(1);
    short.columns = vec![comment("only one")];
    match views.create_view("v".to_string(), short) {
        Err(CatalogError::InvalidArgument(message)) => assert_eq!(
            message,
            "temporary view column count do not match input schema"
        ),
        other => panic!("unexpected result: {other:?}"),
    }
    assert!(views.get_view("v").is_err());
}

#[test]
fn dropped_views_are_gone() {
    let mut views = TemporaryViewManager::new();
    views.create_view("v".to_string(), options(1)).unwrap();
    views.create_view("w".to_string(), options(2)).unwrap();
    views.drop_view("v", false).unwrap();
    assert!(matches!(
        views.get_view("v"),
        Err(CatalogError::NotFound(CatalogObject::TemporaryView, _))
    ));
    assert_eq!(*views.get_view("w").unwrap().plan(), 2);
    views.drop_view("v", true).unwrap();
    assert!(views.drop_view("v", false).is_err());
}

#[test]
fn views_are_listed_by_name() {
    let mut views = TemporaryViewManager::new();
    for (name, plan) in [("a1", 1), ("b1", 2), ("a2", 3)] {
        views.create_view(name.to_string(), options(plan)).unwrap();
    }
    let listed = views.list_views(|name| name.starts_with('a'));
    let names: Vec<&str> = listed.iter().map(|(name, _)| name.as_str()).collect();
    assert_eq!(names, vec!["a1", "a2"]);
    assert_eq!(*listed[1].1.plan(), 3);
}

fn not_found(name: &str) -> Result<u8, CatalogError> {
    Err(CatalogError::NotFound(
        CatalogObject::View,
        name.to_string(),
    ))
}

#[test]
fn lookups_go_from_temporary_views_to_views() {
    let reference = vec!["t".to_string()];
    assert_eq!(start_lookup(1, false), Lookup::TemporaryView);
    assert!(matches!(
        next_lookup(&reference, false, Lookup::TemporaryView, not_found("t")),
        LookupStep::Look(Lookup::Table)
    ));
    assert!(matches!(
        next_lookup(&reference, false, Lookup::Table, not_found("t")),
        LookupStep::Look(Lookup::View)
    ));
    match next_lookup(&reference, false, Lookup::View, not_found("db.t")) {
        LookupStep::Answer(Err(CatalogError::NotFound(CatalogObject::Table, message))) => {
            assert_eq!(
                message,
                "[TABLE_OR_VIEW_NOT_FOUND] Table or view not found: db.t"
            );
        }
        other => panic!("unexpected step: {other:?}"),
    }
    assert!(matches!(
        next_lookup(&reference, false, Lookup::Table, Ok(1)),
        LookupStep::Answer(Ok(1))
    ));
}

#[test]
fn catalogs_without_views_have_no_such_view() {
    let reference = vec!["db".to_string(), "t".to_string()];
    assert_eq!(start_lookup(2, false), Lookup::Table);
    let unsupported = || Err::<u8, _>(CatalogError::NotSupported("views".to_string()));
    match next_lookup(&reference, false, Lookup::View, unsupported()) {
        LookupStep::Answer(Err(CatalogError::NotFound(_, message))) => {
            assert!(message.ends_with("not found: t"));
        }
        other => panic!("unexpected step: {other:?}"),
    }
    assert!(matches!(
        next_lookup(&reference, false, Lookup::Table, unsupported()),
        LookupStep::Answer(Err(CatalogError::NotSupported(_)))
    ));
    match next_lookup(&vec![], false, Lookup::View, unsupported()) {
        LookupStep::Answer(Err(CatalogError::NotFound(_, message))) => {
            assert!(message.ends_with("not found: <unknown>"));
        }
        other => panic!("unexpected step: {other:?}"),
    }
}

#[test]
fn global_temporary_views_have_a_database_of_their_own() {
    let reference = vec!["global_temp".to_string(), "v".to_string()];
    assert_eq!(start_lookup(2, true), Lookup::GlobalTemporaryView);
    assert!(matches!(
        next_lookup(&reference, true, Lookup::GlobalTemporaryView, not_found("v")),
        LookupStep::Answer(Err(CatalogError::NotFound(CatalogObject::View, _)))
    ));
}

#[test]
fn tables_are_listed_with_views() {
    let listing = DatabaseListing::Persistent {
        tables: Ok(vec![1, 2]),
        views: Ok(vec![3]),
    };
    assert_eq!(
        list_tables_and_views(listing, Ok(vec![4])).unwrap(),
        vec![1, 2, 3, 4]
    );
    let listing = DatabaseListing::Persistent {
        tables: Ok(vec![1, 2]),
        views: Err(CatalogError::NotSupported("views".to_string())),
    };
    assert_eq!(
        list_tables_and_views(listing, Ok(vec![4])).unwrap(),
        vec![1, 2, 4]
    );
    let listing = DatabaseListing::Persistent {
        tables: Ok(vec![1]),
        views: Err(CatalogError::Internal("broken".to_string())),
    };
    assert!(list_tables_and_views(listing, Ok(vec![4])).is_err());
    let listing = DatabaseListing::GlobalTemporary(Ok(vec![9]));
    assert_eq!(
        list_tables_and_views(listing, Ok(vec![4])).unwrap(),
        vec![9, 4]
    );
    assert_eq!(
        list_tables(vec!['a', 'b', 'c'], &vec![true, false, true]),
        vec!['a', 'c']
    );
}

#[test]
fn requirements_come_from_the_catalog() {
    assert_eq!(
        CatalogManager::create_table_metadata_requirement(Ok(Ok(1))).unwrap(),
        1
    );
    assert!(CatalogManager::create_table_metadata_requirement::<u8>(Ok(Err(
        CatalogError::NotSupported("no".to_string())
    )))
    .is_err());
    assert!(CatalogManager::create_table_metadata_requirement::<u8>(Err(
        CatalogError::InvalidArgument("no".to_string())
    ))
    .is_err());
}

#[test]
fn table_formats_are_told_of_commits() {
    let committed: LakehouseCommitOutcome<u8, char> = LakehouseCommitOutcome::Committed {
        context: 1,
        payload: 'p',
    };
    assert!(matches!(
        commit_lakehouse_table(Ok(committed)),
        Ok(LakehouseCommitClientOutcome::Committed {
            context: 1,
            payload: 'p'
        })
    ));
    let told = |error: CatalogError| {
        commit_lakehouse_table::<u8, char>(Err((error, "as text".to_string()))).unwrap_err()
    };
    assert!(matches!(
        told(CatalogError::UnsupportedCapability("m".to_string())),
        LakehouseCommitClientError::NotSupported(m) if m == "m"
    ));
    assert!(matches!(
        told(CatalogError::Conflict("m".to_string())),
        LakehouseCommitClientError::Conflict(m) if m == "m"
    ));
    assert!(matches!(
        told(CatalogError::CommitStateUnknown("m".to_string())),
        LakehouseCommitClientError::StateUnknown(m) if m == "m"
    ));
    assert!(matches!(
        told(CatalogError::Internal("m".to_string())),
        LakehouseCommitClientError::Failed(m) if m == "as text"
    ));
}
