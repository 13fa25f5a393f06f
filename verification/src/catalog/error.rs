//! What goes wrong in a catalog.

use vstd::prelude::*;

verus! {

/// What a catalog holds.
#[derive(Debug, Clone, Copy, PartialEq, Eq, Structural)]
pub enum CatalogObject {
    Table,
    View,
    TemporaryView,
    GlobalTemporaryView,
    Database,
}

/// What goes wrong in a catalog.
#[derive(Debug)]
pub enum CatalogError {
    NotFound(CatalogObject, String),
    AlreadyExists(CatalogObject, String),
    InvalidArgument(String),
    NotSupported(String),
    UnsupportedCapability(String),
    Conflict(String),
    CommitStateUnknown(String),
    Internal(String),
    External(String),
}

/// What goes wrong in a catalog, by its contents.
pub enum CatalogFault {
    NotFound(CatalogObject, Seq<char>),
    AlreadyExists(CatalogObject, Seq<char>),
    InvalidArgument(Seq<char>),
    NotSupported(Seq<char>),
    UnsupportedCapability(Seq<char>),
    Conflict(Seq<char>),
    CommitStateUnknown(Seq<char>),
    Internal(Seq<char>),
    External(Seq<char>),
}

impl View for CatalogError {
    type V = CatalogFault;

    open spec fn view(&self) -> CatalogFault {
        match self {
            CatalogError::NotFound(object, name) => CatalogFault::NotFound(*object, name@),
            CatalogError::AlreadyExists(object, name) => CatalogFault::AlreadyExists(
                *object,
                name@,
            ),
            CatalogError::InvalidArgument(message) => CatalogFault::InvalidArgument(message@),
            CatalogError::NotSupported(message) => CatalogFault::NotSupported(message@),
            CatalogError::UnsupportedCapability(message) => CatalogFault::UnsupportedCapability(
                message@,
            ),
            CatalogError::Conflict(message) => CatalogFault::Conflict(message@),
            CatalogError::CommitStateUnknown(message) => CatalogFault::CommitStateUnknown(message@),
            CatalogError::Internal(message) => CatalogFault::Internal(message@),
            CatalogError::External(message) => CatalogFault::External(message@),
        }
    }
}

} // verus!
