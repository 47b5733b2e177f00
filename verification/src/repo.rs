//! The plugin repository's data model: where plugins come from and what a
//! repository offers.
//!
//! Target triples and URLs are carried as text; fetching and checking
//! them happens outside this crate.

use vstd::prelude::*;

verus! {

/// Where a plugin's files come from.
pub enum Source {
    /// A directory on the local filesystem.
    Fs { path: String },
    /// A git repository, optionally pinned to a version, optionally a
    /// subdirectory of it.
    Git { repo: String, version: Option<String>, path: Option<String> },
    /// A plain web address.
    Web { url: String },
}

/// What a repository offers: plugin sources by name, in listing order.
pub struct Repository {
    pub plugins: Vec<(String, Source)>,
}

/// One plugin of a repository: how to invoke it and which binary serves
/// which target triple.
pub struct Plugin {
    pub args: Vec<String>,
    /// Pairs of target triple and binary name, in listing order.
    pub binaries: Vec<(String, String)>,
    pub wasm_base: Option<String>,
}

} // verus!
