//! A small issue tracker library: epics containing stories, persisted as a
//! single snapshot, with a navigation state machine for a terminal front end.

pub mod columns;
pub mod db;
pub mod id_map;
pub mod laws;
pub mod models;
pub mod nav;
pub mod prompts;

pub use db::{Database, JiraDatabase, MockDB};
pub use models::{DbError, DbState, Epic, Status, Story};
