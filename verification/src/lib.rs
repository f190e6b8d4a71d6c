//! Core of a distributed issue tracker that keeps its issues in a git repository.
//!
//! An issue is a directory of plain text files, one for each property, and every
//! change to an issue is a commit. This crate holds the rules of the tracker: how
//! an identifier is resolved, what the files say, what a change writes and under
//! which message it is committed, and how a transaction makes several commits one
//! entry of the history. It reads no file and runs no command; what was read is
//! handed to it, and it hands back what is to be done.

pub mod caching;
pub mod codes;
pub mod commands;
pub mod date;
pub mod errors;
pub mod find;
pub mod id;
pub mod issues;
pub mod lines;
pub mod order;
pub mod property;
pub mod query;
pub mod source;
pub mod store;
pub mod summary;
pub mod text;
pub mod vcs;

pub use crate::caching::CacheError;
pub use crate::commands::{create, edit};
pub use crate::date::Timestamp;
pub use crate::errors::{
    CommitError, ExitError, FindError, FinishError, InitError, IoError, RollbackError,
    StagingError, StashingError, TransactionError, WriteError, WritePropertyError,
};
pub use crate::find::Shard;
pub use crate::id::{CommentId, Id};
pub use crate::issues::{Comment, Fields, FormatString, Issue, PlaceHolders};
pub use crate::property::{
    Action, ChangeAction, Commit, CommitProperty, Property, PropertyWrite, WriteResult,
};
pub use crate::query::{Filter, MilestoneFilter};
pub use crate::source::{DataSource, Pending, Request, Step, Transaction};
pub use crate::store::Changes;
