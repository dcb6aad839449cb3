//! A dotfile manager's core: it maps tracked paths into a repository,
//! keeps the ledger of tracked paths, decides each step of moving a file
//! into the repository and linking it back, names backups, and seals
//! secret files with a PGP key.
//!
//! The caller performs the filesystem work: it reads and writes ledgers,
//! probes paths, and carries out the actions that `sync::EntrySync` hands
//! out one at a time. Plain files are kept under the repository root as
//! `path::relative_path` places them, secret files under its `secrets`
//! subtree.
use vstd::prelude::*;

pub mod backup;
pub mod changes;
pub mod error;
pub mod expand;
pub mod ledger;
pub mod path;
pub mod secret;
pub mod store;
pub mod sync;
pub mod text;

verus! {

/// Which side of a sync is taken as the source of truth.
pub enum Direction {
    /// Move files from their place on the filesystem into the repository.
    Filesystem,
    /// Link files from the repository back onto the filesystem.
    Dotfiles,
}

} // verus!
