//! What a table format is told of a commit that a catalog was asked for.

use vstd::prelude::*;

use crate::catalog::error::CatalogError;

verus! {

/// What came of a commit, as the catalog says. The commit goes with a context `C` and may bring
/// a payload `P`.
#[derive(Debug)]
pub enum LakehouseCommitOutcome<C, P> {
    Committed { context: C, payload: P },
    Noop { context: C },
    RetryableConflict { message: String },
    StateUnknown { message: String },
    Rejected { message: String },
}

/// What came of a commit, as the table format is told.
#[derive(Debug)]
pub enum LakehouseCommitClientOutcome<C, P> {
    Committed { context: C, payload: P },
    Noop { context: C },
    RetryableConflict { message: String },
    StateUnknown { message: String },
    Rejected { message: String },
}

/// Why a commit did not come to an outcome.
#[derive(Debug)]
pub enum LakehouseCommitClientError {
    NotSupported(String),
    Conflict(String),
    StateUnknown(String),
    Failed(String),
}

/// What the table format is told of an outcome: the same.
pub open spec fn told_outcome<C, P>(outcome: LakehouseCommitOutcome<C, P>) -> LakehouseCommitClientOutcome<
    C,
    P,
> {
    match outcome {
        LakehouseCommitOutcome::Committed { context, payload } => {
            LakehouseCommitClientOutcome::Committed { context, payload }
        },
        LakehouseCommitOutcome::Noop { context } => LakehouseCommitClientOutcome::Noop { context },
        LakehouseCommitOutcome::RetryableConflict { message } => {
            LakehouseCommitClientOutcome::RetryableConflict { message }
        },
        LakehouseCommitOutcome::StateUnknown { message } => {
            LakehouseCommitClientOutcome::StateUnknown { message }
        },
        LakehouseCommitOutcome::Rejected { message } => LakehouseCommitClientOutcome::Rejected {
            message,
        },
    }
}

/// What the table format is told of an error that reads as the given text. A commit of which
/// nothing is known stays one of which nothing is known.
pub open spec fn told_error(error: CatalogError, text: String) -> LakehouseCommitClientError {
    match error {
        CatalogError::NotSupported(message) => LakehouseCommitClientError::NotSupported(message),
        CatalogError::UnsupportedCapability(message) => LakehouseCommitClientError::NotSupported(
            message,
        ),
        CatalogError::Conflict(message) => LakehouseCommitClientError::Conflict(message),
        CatalogError::CommitStateUnknown(message) => LakehouseCommitClientError::StateUnknown(
            message,
        ),
        _ => LakehouseCommitClientError::Failed(text),
    }
}

/// What the table format is told of a commit, given how an error of the catalog reads.
pub fn commit_lakehouse_table<C, P>(
    result: Result<LakehouseCommitOutcome<C, P>, (CatalogError, String)>,
) -> (told: Result<LakehouseCommitClientOutcome<C, P>, LakehouseCommitClientError>)
    ensures
        told == (match result {
            Ok(outcome) => Ok(told_outcome(outcome)),
            Err((error, text)) => Err(told_error(error, text)),
        }),
{
    match result {
        Ok(outcome) => Ok(
            match outcome {
                LakehouseCommitOutcome::Committed { context, payload } => {
                    LakehouseCommitClientOutcome::Committed { context, payload }
                },
                LakehouseCommitOutcome::Noop { context } => LakehouseCommitClientOutcome::Noop {
                    context,
                },
                LakehouseCommitOutcome::RetryableConflict { message } => {
                    LakehouseCommitClientOutcome::RetryableConflict { message }
                },
                LakehouseCommitOutcome::StateUnknown { message } => {
                    LakehouseCommitClientOutcome::StateUnknown { message }
                },
                LakehouseCommitOutcome::Rejected { message } => {
                    LakehouseCommitClientOutcome::Rejected { message }
                },
            },
        ),
        Err((error, text)) => Err(
            match error {
                CatalogError::NotSupported(message) => LakehouseCommitClientError::NotSupported(
                    message,
                ),
                CatalogError::UnsupportedCapability(message) => {
                    LakehouseCommitClientError::NotSupported(message)
                },
                CatalogError::Conflict(message) => LakehouseCommitClientError::Conflict(message),
                CatalogError::CommitStateUnknown(message) => {
                    LakehouseCommitClientError::StateUnknown(message)
                },
                _ => LakehouseCommitClientError::Failed(text),
            },
        ),
    }
}

/// A client is told what the catalog says: of a commit that is not supported, that conflicts or
/// of which nothing is known, by an error of that kind with the same message, and of any other
/// error by its text. No two kinds of outcome are told alike.
pub proof fn law_errors_are_told(error: CatalogError, text: String)
    ensures
        told_error(error, text) is NotSupported <==> error is NotSupported
            || error is UnsupportedCapability,
        told_error(error, text) is Conflict <==> error is Conflict,
        told_error(error, text) is StateUnknown <==> error is CommitStateUnknown,
        told_error(error, text) matches LakehouseCommitClientError::Failed(message) ==> message
            == text,
        error matches CatalogError::Conflict(message) ==> told_error(error, text)
            == LakehouseCommitClientError::Conflict(message),
        error matches CatalogError::NotSupported(message) ==> told_error(error, text)
            == LakehouseCommitClientError::NotSupported(message),
        error matches CatalogError::UnsupportedCapability(message) ==> told_error(error, text)
            == LakehouseCommitClientError::NotSupported(message),
        error matches CatalogError::CommitStateUnknown(message) ==> told_error(error, text)
            == LakehouseCommitClientError::StateUnknown(message),
{
}

/// An outcome is told as it is.
pub proof fn law_outcomes_are_told<C, P>(outcome: LakehouseCommitOutcome<C, P>)
    ensures
        match told_outcome(outcome) {
            LakehouseCommitClientOutcome::Committed { context, payload } => outcome == (
            LakehouseCommitOutcome::Committed { context, payload }),
            LakehouseCommitClientOutcome::Noop { context } => outcome == (
            LakehouseCommitOutcome::<C, P>::Noop { context }),
            LakehouseCommitClientOutcome::RetryableConflict { message } => outcome == (
            LakehouseCommitOutcome::<C, P>::RetryableConflict { message }),
            LakehouseCommitClientOutcome::StateUnknown { message } => outcome == (
            LakehouseCommitOutcome::<C, P>::StateUnknown { message }),
            LakehouseCommitClientOutcome::Rejected { message } => outcome == (
            LakehouseCommitOutcome::<C, P>::Rejected { message }),
        },
{
}

/// What a catalog answers is told on: an outcome as an outcome, and an error as an error.
pub proof fn law_answers_are_told<C, P>(
    result: Result<LakehouseCommitOutcome<C, P>, (CatalogError, String)>,
    told: Result<LakehouseCommitClientOutcome<C, P>, LakehouseCommitClientError>,
)
    requires
        call_ensures(commit_lakehouse_table::<C, P>, (result,), told),
    ensures
        result matches Ok(outcome) ==> told == Ok::<_, LakehouseCommitClientError>(
            told_outcome(outcome),
        ),
        result matches Err(e) ==> told == Err::<LakehouseCommitClientOutcome<C, P>, _>(
            told_error(e.0, e.1),
        ),
{
}

} // verus!
