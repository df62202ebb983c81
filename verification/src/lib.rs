//! A versioned, path-addressed content store on top of a git repository.
//!
//! The store is a tree of files and directories. Every change makes a new
//! snapshot of the whole tree and publishes it as a commit on top of the
//! last one, so the history is a line and the head is the only thing that
//! ever moves.
//!
//! - [`path`] and [`percent`]: paths, their byte form, and the
//!   percent-encoding that carries them through URLs.
//! - [`object`]: ids and tree entries, as plain values.
//! - [`tree`]: what resolving a path, writing a file and removing an entry
//!   mean for a tree, and what follows from that.
//! - [`git`]: the repository, its snapshots, and items: paths bound to a
//!   repository.
//! - [`serve`]: what a server answers to a request for a path.
//! - [`store`] and [`text`]: the calls into `git2` and `std` that are trusted
//!   rather than proved.

pub mod bytes;
pub mod git;
pub mod object;
pub mod path;
pub mod percent;
pub mod serve;
pub mod store;
pub mod text;
pub mod tree;

pub use git::{GitError, GitItem, GitRepository, Snapshot};
pub use path::Path;
