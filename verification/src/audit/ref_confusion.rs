//! Flags confusable refs: a symbolic ref name that exists in both the
//! branch and tag namespaces of a repository, making the pinned target
//! ambiguous.

use vstd::prelude::*;
use vstd::string::*;
use crate::audit::secret_without_env::step_route;
use crate::document::{Input, input_route_resolves};
use crate::finding::{BuildError, Confidence, Finding, FindingBuilder, RouteComponent, Severity};
use crate::github_api::{Branch, Tag};
use crate::models::{Job, Step, Uses, Workflow, is_commit_ref};
use crate::text::str_eq;

verus! {

/// Whether the name occurs among the listed branches.
pub open spec fn branch_named(branches: Seq<Branch>, name: Seq<char>) -> bool {
    exists|i: int| 0 <= i < branches.len() && (#[trigger] branches[i]).name@ == name
}

/// Whether the name occurs among the listed tags.
pub open spec fn tag_named(tags: Seq<Tag>, name: Seq<char>) -> bool {
    exists|i: int| 0 <= i < tags.len() && (#[trigger] tags[i]).name@ == name
}

/// Detects refs that both the branch and tag namespaces provide.
pub struct RefConfusion;

impl RefConfusion {
    /// The rule's stable identifier.
    pub fn ident() -> (r: &'static str)
        ensures
            r@ == "ref-confusion"@,
    {
        "ref-confusion"
    }

    /// Whether the reference's symbolic ref exists as both a branch and a
    /// tag in the given listings; commit-pinned or unpinned references are
    /// never confusable.
    #[verifier::loop_isolation(false)]
    pub fn confusable(&self, uses: &Uses, branches: &Vec<Branch>, tags: &Vec<Tag>) -> (r: bool)
        ensures
            r == match uses.git_ref {
                Some(g) => !is_commit_ref(g@) && branch_named(branches@, g@) && tag_named(
                    tags@,
                    g@,
                ),
                None => false,
            },
    {
        let sym = match uses.symbolic_ref() {
            Some(s) => s,
            None => {
                return false;
            },
        };
        let mut branches_match = false;
        let mut i: usize = 0;
        while i < branches.len()
            invariant
                i <= branches@.len(),
                branches_match == (exists|k: int|
                    0 <= k < i && (#[trigger] branches@[k]).name@ == sym@),
            decreases branches@.len() - i,
        {
            if str_eq(branches[i].name.as_str(), sym) {
                branches_match = true;
            }
            i += 1;
        }
        let mut tags_match = false;
        let mut j: usize = 0;
        while j < tags.len()
            invariant
                j <= tags@.len(),
                tags_match == (exists|k: int| 0 <= k < j && (#[trigger] tags@[k]).name@ == sym@),
            decreases tags@.len() - j,
        {
            if str_eq(tags[j].name.as_str(), sym) {
                tags_match = true;
            }
            j += 1;
        }
        branches_match && tags_match
    }
}

impl RefConfusion {
    /// Audit one step against the collaborator's listings: exactly one
    /// medium-severity, high-confidence finding at the `uses:` clause when
    /// the step's symbolic ref exists in both namespaces; none otherwise.
    pub fn audit_step(
        &self,
        workflow: &Workflow,
        job: &Job,
        step: &Step,
        uses: &Uses,
        branches: &Vec<Branch>,
        tags: &Vec<Tag>,
        input: &Input,
    ) -> (r: Result<Vec<Finding>, BuildError>)
        requires
            input.wf(),
        ensures
            !(r matches Err(BuildError::NoPrimaryLocation)),
            match r {
                Ok(v) => ({
                    let flagged = match uses.git_ref {
                        Some(g) => !is_commit_ref(g@) && branch_named(branches@, g@) && tag_named(
                            tags@,
                            g@,
                        ),
                        None => false,
                    };
                    &&& v@.len() == (if flagged {
                        1int
                    } else {
                        0int
                    })
                    &&& (forall|k: int|
                        0 <= k < v@.len() ==> {
                            let f = #[trigger] v@[k];
                            &&& f.ident@ == "ref-confusion"@
                            &&& f.determinations.severity == Severity::Medium
                            &&& f.determinations.confidence == Confidence::High
                            &&& f.locations@[0].symbolic.primary
                            &&& crate::finding::route_model(f.locations@[0].symbolic.route)
                                == step_route(*job, *step) + seq![(true, "uses"@, 0int)]
                        })
                }),
                Err(_) => !input_route_resolves(
                    *input,
                    step_route(*job, *step) + seq![(true, "uses"@, 0int)],
                ),
            },
    {
        let mut findings: Vec<Finding> = Vec::new();
        if !self.confusable(uses, branches, tags) {
            return Ok(findings);
        }
        let job_location = job.location(&workflow.location());
        let mut uses_keys: Vec<RouteComponent> = Vec::new();
        uses_keys.push(RouteComponent::Key("uses".to_owned()));
        let loc = step.location(&job_location).with_keys(&uses_keys).primary().annotated(
            "uses a ref that's provided by both the branch and tag namespaces".to_owned(),
        );
        let ghost lr = crate::finding::route_model(loc.route);
        proof {
            assert(lr =~= step_route(*job, *step) + seq![(true, "uses"@, 0int)]);
        }
        let b = FindingBuilder::new(
            "ref-confusion",
            "git ref for action with ambiguous ref type",
            "https://docs.zizmor.sh/audits#ref-confusion",
        ).severity(Severity::Medium).confidence(Confidence::High).add_location(loc);
        let ghost blocs = b.locations@;
        match b.build(input) {
            Ok(f) => {
                findings.push(f);
                Ok(findings)
            },
            Err(e) => {
                proof {
                    crate::finding::lemma_some_primary_here(blocs, b.raw_locations@, 0);
                    if e is Unresolvable {
                        crate::finding::lemma_unresolvable_witness(*input, blocs);
                        let bi = choose|bi: int|
                            0 <= bi < blocs.len() && !input_route_resolves(
                                *input,
                                crate::finding::route_model(blocs[bi].route),
                            );
                        assert(bi == 0);
                    }
                }
                Err(e)
            },
        }
    }
}

} // verus!
