//! Plain data returned by the commit-provenance collaborator: branch and tag
//! listings and commit comparisons. Fetching them is the caller's concern;
//! the rules here consume the values only.

use vstd::prelude::*;

verus! {

/// The commit a branch or tag points at.
#[derive(Debug, Clone, PartialEq, Eq)]
pub struct RefCommit {
    pub sha: String,
}

/// One branch of a repository: its name and tip commit.
#[derive(Debug, Clone, PartialEq, Eq)]
pub struct Branch {
    pub name: String,
    pub commit: RefCommit,
}

/// One tag of a repository: its name and tip commit.
#[derive(Debug, Clone, PartialEq, Eq)]
pub struct Tag {
    pub name: String,
    pub commit: RefCommit,
}

/// The relationship between two commits, as the collaborator reports it.
#[derive(Copy, Clone, Debug, PartialEq, Eq, Structural)]
pub enum ComparisonStatus {
    Ahead,
    Behind,
    Diverged,
    Identical,
}

/// The result of comparing a base ref against a head commit.
#[derive(Copy, Clone, Debug, PartialEq, Eq, Structural)]
pub struct Comparison {
    pub status: ComparisonStatus,
}

} // verus!
