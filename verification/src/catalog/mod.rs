//! The catalog of a session.

pub mod commit_client;
pub mod error;
pub mod manager;
pub mod temp_view;
