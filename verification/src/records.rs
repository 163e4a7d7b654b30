//! Plain records the surrounding subsystems exchange with the caller:
//! version-control summaries and proxied-request shapes. The subsystems
//! themselves are outside collaborators; these are the values they hand
//! over.
use vstd::prelude::*;
use std::collections::HashMap;

verus! {

/// One commit of a repository's history.
#[derive(Clone, Debug, PartialEq, Eq)]
pub struct LogEntry {
    pub hash: String,
    pub message: String,
    pub author: String,
    pub date: String,
}

/// One changed file's patch text.
#[derive(Clone, Debug, PartialEq, Eq)]
pub struct DiffFilePatch {
    pub path: String,
    pub patch: String,
}

/// A whole diff, file by file, with the change totals.
#[derive(Clone, Debug, PartialEq, Eq)]
pub struct DiffSummary {
    pub files: Vec<DiffFilePatch>,
    pub total_additions: usize,
    pub total_deletions: usize,
}

/// How far a branch stands from its upstream.
#[derive(Clone, Copy, Debug, PartialEq, Eq, Structural)]
pub struct AheadBehind {
    pub ahead: usize,
    pub behind: usize,
}

/// A chat request forwarded to a model provider.
pub struct ChatRequest {
    pub url: String,
    pub headers: HashMap<String, String>,
    pub body: String,
}

/// A proxied API request: method, destination, headers and body.
pub struct ApiProxyRequest {
    pub url: String,
    pub method: String,
    pub headers: HashMap<String, String>,
    pub body: String,
}

} // verus!
