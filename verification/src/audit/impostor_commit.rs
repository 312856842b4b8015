//! Flags "impostor" commits: a pinned commit that resolves (for example
//! through a fork network) but has no history in any named branch or tag of
//! the repository it claims to come from.
//!
//! The rule's decisions are pure functions of the listings and comparisons
//! the commit-provenance collaborator hands back; fetching them is the
//! caller's concern.

use vstd::prelude::*;
use vstd::string::*;
use crate::audit::secret_without_env::step_route;
use crate::document::{Input, input_route_resolves};
use crate::finding::{BuildError, Confidence, Finding, FindingBuilder, Severity};
use crate::github_api::{Branch, Comparison, ComparisonStatus, Tag};
use crate::models::{Job, Step, Uses, Workflow, is_commit_ref};
use crate::text::str_eq;

verus! {

/// Whether one base-vs-head comparison outcome shows that the base ref's
/// history contains the head commit: the head is behind the base or
/// identical to it. An absent comparison (the collaborator's
/// "no relationship" answer) never does.
pub open spec fn comparison_contains(c: Option<Comparison>) -> bool {
    match c {
        Some(c) => c.status is Behind || c.status is Identical,
        None => false,
    }
}

/// Whether `commit` is the tip of any of the listed branches or tags.
pub open spec fn commit_is_tip(commit: Seq<char>, branches: Seq<Branch>, tags: Seq<Tag>) -> bool {
    ||| (exists|i: int| 0 <= i < branches.len() && (#[trigger] branches[i]).commit.sha@ == commit)
    ||| (exists|i: int| 0 <= i < tags.len() && (#[trigger] tags[i]).commit.sha@ == commit)
}

/// The impostor verdict over complete data: a pinned commit is an impostor
/// exactly when it is not the tip of any listed branch or tag and no named
/// ref's history contains it.
pub open spec fn impostor_verdict(
    commit: Seq<char>,
    branches: Seq<Branch>,
    tags: Seq<Tag>,
    comparisons: Seq<Option<Comparison>>,
) -> bool {
    &&& !commit_is_tip(commit, branches, tags)
    &&& !(exists|i: int|
        0 <= i < comparisons.len() && comparison_contains(#[trigger] comparisons[i]))
}

/// Detects commits with no history in the referenced repository.
pub struct ImpostorCommit;

impl ImpostorCommit {
    /// The rule's stable identifier.
    pub fn ident() -> (r: &'static str)
        ensures
            r@ == "impostor-commit"@,
    {
        "impostor-commit"
    }

    /// Whether one comparison outcome shows a named ref containing the
    /// pinned commit.
    pub fn named_ref_contains_commit(&self, comparison: &Option<Comparison>) -> (r: bool)
        ensures
            r == comparison_contains(*comparison),
    {
        match comparison {
            Some(c) => match c.status {
                ComparisonStatus::Behind => true,
                ComparisonStatus::Identical => true,
                _ => false,
            },
            None => false,
        }
    }

    /// The fast path: whether the pinned commit is the tip of any listed
    /// branch or tag.
    #[verifier::loop_isolation(false)]
    pub fn commit_is_listed_tip(&self, commit: &str, branches: &Vec<Branch>, tags: &Vec<Tag>) -> (r:
        bool)
        ensures
            r == commit_is_tip(commit@, branches@, tags@),
    {
        let mut i: usize = 0;
        while i < branches.len()
            invariant
                i <= branches@.len(),
                forall|k: int| 0 <= k < i ==> (#[trigger] branches@[k]).commit.sha@ != commit@,
            decreases branches@.len() - i,
        {
            if str_eq(branches[i].commit.sha.as_str(), commit) {
                return true;
            }
            i += 1;
        }
        let mut j: usize = 0;
        while j < tags.len()
            invariant
                j <= tags@.len(),
                forall|k: int| 0 <= k < i ==> (#[trigger] branches@[k]).commit.sha@ != commit@,
                i == branches@.len(),
                forall|k: int| 0 <= k < j ==> (#[trigger] tags@[k]).commit.sha@ != commit@,
            decreases tags@.len() - j,
        {
            if str_eq(tags[j].commit.sha.as_str(), commit) {
                return true;
            }
            j += 1;
        }
        false
    }

    /// The impostor verdict for one action reference, over the collaborator's
    /// listings and the comparison outcome for every named ref: a reference
    /// that is not pinned to a commit is never an impostor; a pinned one is
    /// an impostor exactly when no listed tip and no comparison vouches for
    /// its commit.
    #[verifier::loop_isolation(false)]
    pub fn impostor(
        &self,
        uses: &Uses,
        branches: &Vec<Branch>,
        tags: &Vec<Tag>,
        comparisons: &Vec<Option<Comparison>>,
    ) -> (r: bool)
        ensures
            r == match uses.git_ref {
                Some(g) => is_commit_ref(g@) && impostor_verdict(
                    g@,
                    branches@,
                    tags@,
                    comparisons@,
                ),
                None => false,
            },
    {
        let commit = match uses.commit_ref() {
            Some(c) => c,
            None => {
                return false;
            },
        };
        if self.commit_is_listed_tip(commit, branches, tags) {
            return false;
        }
        let mut i: usize = 0;
        while i < comparisons.len()
            invariant
                i <= comparisons@.len(),
                forall|k: int| 0 <= k < i ==> !comparison_contains(#[trigger] comparisons@[k]),
            decreases comparisons@.len() - i,
        {
            if self.named_ref_contains_commit(&comparisons[i]) {
                return false;
            }
            i += 1;
        }
        true
    }
}

impl ImpostorCommit {
    /// Audit one step against the collaborator's listings and the comparison
    /// outcomes for its named refs: exactly one high-severity,
    /// high-confidence finding at the step when the pinned commit is an
    /// impostor; none otherwise.
    pub fn audit_step(
        &self,
        workflow: &Workflow,
        job: &Job,
        step: &Step,
        uses: &Uses,
        branches: &Vec<Branch>,
        tags: &Vec<Tag>,
        comparisons: &Vec<Option<Comparison>>,
        input: &Input,
    ) -> (r: Result<Vec<Finding>, BuildError>)
        requires
            input.wf(),
        ensures
            !(r matches Err(BuildError::NoPrimaryLocation)),
            match r {
                Ok(v) => ({
                    let flagged = match uses.git_ref {
                        Some(g) => is_commit_ref(g@) && impostor_verdict(
                            g@,
                            branches@,
                            tags@,
                            comparisons@,
                        ),
                        None => false,
                    };
                    &&& v@.len() == (if flagged {
                        1int
                    } else {
                        0int
                    })
                    &&& (forall|k: int|
                        0 <= k < v@.len() ==> {
                            let f = #[trigger] v@[k];
                            &&& f.ident@ == "impostor-commit"@
                            &&& f.determinations.severity == Severity::High
                            &&& f.determinations.confidence == Confidence::High
                            &&& f.locations@[0].symbolic.primary
                            &&& crate::finding::route_model(f.locations@[0].symbolic.route)
                                == step_route(*job, *step)
                        })
                }),
                Err(_) => !input_route_resolves(*input, step_route(*job, *step)),
            },
    {
        let mut findings: Vec<Finding> = Vec::new();
        if !self.impostor(uses, branches, tags, comparisons) {
            return Ok(findings);
        }
        let job_location = job.location(&workflow.location());
        let loc = step.location(&job_location).primary().annotated(
            "uses a commit that doesn't belong to the specified org/repo".to_owned(),
        );
        let ghost lr = crate::finding::route_model(loc.route);
        proof {
            assert(lr =~= step_route(*job, *step));
        }
        let b = FindingBuilder::new(
            "impostor-commit",
            "commit with no history in referenced repository",
            "https://docs.zizmor.sh/audits#impostor-commit",
        ).severity(Severity::High).confidence(Confidence::High).add_location(loc);
        let ghost blocs = b.locations@;
        match b.build(input) {
            Ok(f) => {
                findings.push(f);
                Ok(findings)
            },
            Err(e) => {
                proof {
                    crate::finding::lemma_some_primary_here(blocs, b.raw_locations@, 0);
                    if e is Unresolvable {
                        crate::finding::lemma_unresolvable_witness(*input, blocs);
                        let bi = choose|bi: int|
                            0 <= bi < blocs.len() && !input_route_resolves(
                                *input,
                                crate::finding::route_model(blocs[bi].route),
                            );
                        assert(bi == 0);
                    }
                }
                Err(e)
            },
        }
    }
}

} // verus!
