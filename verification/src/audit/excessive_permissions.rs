//! Flags permission blocks that grant more than a workflow needs.

use vstd::prelude::*;
use vstd::string::*;
use crate::finding::{Confidence, Severity};
use crate::document::{Input, input_route_resolves};
use crate::finding::{BuildError, Finding, FindingBuilder};
use crate::models::{BasePermission, Job, Permissions, Workflow};

verus! {


/// How one permissions block is judged against the presence of a parent:
/// blanket grants are always flagged; an absent block only at the workflow
/// level; an explicit block never here.
pub open spec fn perm_verdict(p: Permissions, has_parent: bool) -> Option<(Severity, Confidence)> {
    match p {
        Permissions::Base(base) => match base {
            BasePermission::Default => if has_parent {
                None
            } else {
                Some((Severity::Medium, Confidence::Low))
            },
            BasePermission::ReadAll => Some((Severity::Medium, Confidence::High)),
            BasePermission::WriteAll => Some((Severity::High, Confidence::High)),
        },
        Permissions::Explicit(_) => None,
    }
}

/// Flagged job-level blocks at or after `from`.
pub open spec fn jobs_perm_count(jobs: Seq<Job>, from: int) -> int
    decreases jobs.len() - from,
    when 0 <= from <= jobs.len()
{
    if from >= jobs.len() {
        0int
    } else {
        (match jobs[from] {
            Job::Normal(n) => if perm_verdict(n.permissions, true) is Some {
                1int
            } else {
                0int
            },
            Job::Reusable(_) => 0int,
        }) + jobs_perm_count(jobs, from + 1)
    }
}

/// How many findings the rule reports for a workflow: the workflow-level
/// block when it is a flagged blanket grant, plus each flagged job-level
/// block.
pub open spec fn excessive_count(w: Workflow) -> int {
    (match w.permissions {
        Permissions::Explicit(_) => 0int,
        Permissions::Base(_) => if perm_verdict(w.permissions, false) is Some {
            1int
        } else {
            0int
        },
    }) + jobs_perm_count(w.jobs@, 0)
}

/// Detects excessive permission grants.
pub struct ExcessivePermissions;

impl ExcessivePermissions {
    /// The rule's stable identifier.
    pub fn ident() -> (r: &'static str)
        ensures
            r@ == "excessive-permissions"@,
    {
        "excessive-permissions"
    }

    /// Classify one permissions block against its parent, if any: blanket
    /// read-all and write-all grants are always reported; an absent block is
    /// reported only at the workflow level, where the default grant may be
    /// too broad; a job-level block is judged by inheritance and never
    /// reported here.
    pub fn check_permissions<'a>(
        &self,
        permissions: &Permissions,
        parent: Option<&Permissions>,
    ) -> (r: Option<(Severity, Confidence, &'a str)>)
        requires
            !(permissions is Explicit && parent is None),
        ensures
            match *permissions {
                Permissions::Base(base) => match base {
                    BasePermission::Default => match parent {
                        Some(_) => r is None,
                        None => r matches Some(t) && t.0 == Severity::Medium && t.1
                            == Confidence::Low && t.2@
                            == "workflow uses default permissions, which may be excessive"@,
                    },
                    BasePermission::ReadAll => r matches Some(t) && t.0 == Severity::Medium && t.1
                        == Confidence::High && t.2@
                        == "uses read-all permissions, which may grant read access to more resources than necessary"@,
                    BasePermission::WriteAll => r matches Some(t) && t.0 == Severity::High && t.1
                        == Confidence::High && t.2@
                        == "uses write-all permissions, which grants destructive access to repository resources"@,
                },
                Permissions::Explicit(_) => r is None,
            },
            match r {
                Some(t) => perm_verdict(*permissions, parent is Some) == Some((t.0, t.1)),
                None => perm_verdict(*permissions, parent is Some) is None,
            },
    {
        match permissions {
            Permissions::Base(base) => match base {
                BasePermission::Default => match parent {
                    // A job with no block inherits its parent's: nothing new.
                    Some(_) => None,
                    // A workflow with no block gets the runner's default
                    // grant, which may be broader than it needs.
                    None => Some(
                        (
                            Severity::Medium,
                            Confidence::Low,
                            "workflow uses default permissions, which may be excessive",
                        ),
                    ),
                },
                BasePermission::ReadAll => Some(
                    (
                        Severity::Medium,
                        Confidence::High,
                        "uses read-all permissions, which may grant read access to more resources than necessary",
                    ),
                ),
                BasePermission::WriteAll => Some(
                    (
                        Severity::High,
                        Confidence::High,
                        "uses write-all permissions, which grants destructive access to repository resources",
                    ),
                ),
            },
            Permissions::Explicit(_) => None,
        }
    }
}

impl ExcessivePermissions {
    /// Audit a whole workflow: exactly [`excessive_count`] findings — the
    /// workflow-level block when it is a flagged blanket grant, and each
    /// flagged job-level block.
    #[verifier::loop_isolation(false)]
    pub fn audit(&self, workflow: &Workflow, input: &Input) -> (r: Result<
        Vec<Finding>,
        BuildError,
    >)
        requires
            input.wf(),
        ensures
            !(r matches Err(BuildError::NoPrimaryLocation)),
            match r {
                Ok(v) => v@.len() == excessive_count(*workflow) && (forall|k: int|
                    0 <= k < v@.len() ==> (#[trigger] v@[k]).ident@ == "excessive-permissions"@
                        && v@[k].locations@[0].symbolic.primary),
                Err(_) => !input_route_resolves(*input, seq![(true, "permissions"@, 0int)]) || (
                exists|i: int|
                    0 <= i < workflow.jobs@.len() && !input_route_resolves(
                        *input,
                        seq![
                            (true, "jobs"@, 0int),
                            (true, (#[trigger] workflow.jobs@[i]).id_spec(), 0int),
                            (true, "permissions"@, 0int),
                        ],
                    )),
            },
    {
        let mut findings: Vec<Finding> = Vec::new();
        let ghost jobsv = workflow.jobs@;
        let top_is_explicit = match &workflow.permissions {
            Permissions::Explicit(_) => true,
            Permissions::Base(_) => false,
        };
        if !top_is_explicit {
            match self.check_permissions(&workflow.permissions, None) {
                Some((severity, confidence, note)) => {
                    let loc = workflow.key_location("permissions").primary().annotated(
                        note.to_owned(),
                    );
                    let ghost lr = crate::finding::route_model(loc.route);
                    proof {
                        assert(lr =~= seq![(true, "permissions"@, 0int)]);
                    }
                    let b = FindingBuilder::new(
                        "excessive-permissions",
                        "overly broad permissions",
                        "https://docs.zizmor.sh/audits#excessive-permissions",
                    ).severity(severity).confidence(confidence).add_location(loc);
                    let ghost blocs = b.locations@;
                    match b.build(input) {
                        Ok(f) => {
                            findings.push(f);
                        },
                        Err(e) => {
                            proof {
                                crate::finding::lemma_some_primary_here(blocs, b.raw_locations@, 0);
                                if e is Unresolvable {
                                    crate::finding::lemma_unresolvable_witness(*input, blocs);
                                    let bi = choose|bi: int|
                                        0 <= bi < blocs.len() && !input_route_resolves(
                                            *input,
                                            crate::finding::route_model(blocs[bi].route),
                                        );
                                    assert(bi == 0);
                                }
                            }
                            return Err(e);
                        },
                    }
                },
                None => {},
            }
        }
        let ghost base = findings@.len() as int;
        proof {
            assert(base == (match workflow.permissions {
                Permissions::Explicit(_) => 0int,
                Permissions::Base(_) => if perm_verdict(workflow.permissions, false) is Some {
                    1int
                } else {
                    0int
                },
            }));
        }
        let mut ji: usize = 0;
        while ji < workflow.jobs.len()
            invariant
                ji <= jobsv.len(),
                input.wf(),
                findings@.len() == base + (jobs_perm_count(jobsv, 0) - jobs_perm_count(
                    jobsv,
                    ji as int,
                )),
                forall|k: int|
                    0 <= k < findings@.len() ==> (#[trigger] findings@[k]).ident@
                        == "excessive-permissions"@ && findings@[k].locations@[0].symbolic.primary,
            decreases jobsv.len() - ji,
        {
            let job = &workflow.jobs[ji];
            let normal = match job {
                Job::Normal(n) => n,
                Job::Reusable(_) => {
                    ji += 1;
                    continue;
                },
            };
            match self.check_permissions(&normal.permissions, Some(&workflow.permissions)) {
                Some((severity, confidence, note)) => {
                    let loc = job.key_location(&workflow.location(), "permissions").primary()
                        .annotated(note.to_owned());
                    let ghost lr = crate::finding::route_model(loc.route);
                    proof {
                        assert(lr =~= seq![
                            (true, "jobs"@, 0int),
                            (true, jobsv[ji as int].id_spec(), 0int),
                            (true, "permissions"@, 0int),
                        ]);
                    }
                    let b = FindingBuilder::new(
                        "excessive-permissions",
                        "overly broad permissions",
                        "https://docs.zizmor.sh/audits#excessive-permissions",
                    ).severity(severity).confidence(confidence).add_location(loc);
                    let ghost blocs = b.locations@;
                    match b.build(input) {
                        Ok(f) => {
                            findings.push(f);
                        },
                        Err(e) => {
                            proof {
                                crate::finding::lemma_some_primary_here(blocs, b.raw_locations@, 0);
                                if e is Unresolvable {
                                    crate::finding::lemma_unresolvable_witness(*input, blocs);
                                    let bi = choose|bi: int|
                                        0 <= bi < blocs.len() && !input_route_resolves(
                                            *input,
                                            crate::finding::route_model(blocs[bi].route),
                                        );
                                    assert(bi == 0);
                                }
                            }
                            return Err(e);
                        },
                    }
                },
                None => {},
            }
            ji += 1;
        }
        Ok(findings)
    }
}

} // verus!
