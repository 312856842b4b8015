//! Flags reusable-workflow calls that unconditionally inherit every parent
//! secret.

use vstd::prelude::*;
use vstd::string::*;
use crate::document::{Input, input_route_resolves};
use crate::finding::{
    BuildError, Confidence, Finding, FindingBuilder, RouteComponent, Severity,
};
use crate::models::{Job, ReusableWorkflowCallJob, Workflow};

verus! {

/// Detects unconditional secret inheritance.
pub struct SecretsInherit;

impl SecretsInherit {
    /// The rule's stable identifier.
    pub fn ident() -> (r: &'static str)
        ensures
            r@ == "secrets-inherit"@,
    {
        "secrets-inherit"
    }

    /// Audit one reusable-workflow call: a job that inherits all parent
    /// secrets yields exactly one finding.
    pub fn audit_reusable_job(
        &self,
        workflow: &Workflow,
        job: &Job,
        reusable: &ReusableWorkflowCallJob,
        input: &Input,
    ) -> (r: Result<Vec<Finding>, BuildError>)
        requires
            input.wf(),
        ensures
            !(r matches Err(crate::finding::BuildError::NoPrimaryLocation)),
            match r {
                Ok(v) => v@.len() == (if reusable.inherits_secrets {
                    1int
                } else {
                    0int
                }) && (forall|k: int|
                    0 <= k < v@.len() ==> {
                        let f = #[trigger] v@[k];
                        &&& f.ident@ == "secrets-inherit"@
                        &&& f.determinations.severity == Severity::Medium
                        &&& f.determinations.confidence == Confidence::High
                        &&& f.locations@[0].symbolic.primary
                        &&& crate::finding::route_model(f.locations@[0].symbolic.route) == seq![
                            (true, "jobs"@, 0int),
                            (true, job.id_spec(), 0int),
                            (true, "uses"@, 0int),
                        ]
                    }),
                Err(_) => !input_route_resolves(
                    *input,
                    seq![
                        (true, "jobs"@, 0int),
                        (true, job.id_spec(), 0int),
                        (true, "uses"@, 0int),
                    ],
                ) || !input_route_resolves(
                    *input,
                    seq![
                        (true, "jobs"@, 0int),
                        (true, job.id_spec(), 0int),
                        (true, "secrets"@, 0int),
                    ],
                ),
            },
    {
        let mut findings: Vec<Finding> = Vec::new();
        if !reusable.inherits_secrets {
            return Ok(findings);
        }
        let base = workflow.location();
        let mut uses_keys: Vec<RouteComponent> = Vec::new();
        uses_keys.push(RouteComponent::Key("uses".to_owned()));
        let mut secrets_keys: Vec<RouteComponent> = Vec::new();
        secrets_keys.push(RouteComponent::Key("secrets".to_owned()));
        let uses_loc = job.location(&base).with_keys(&uses_keys).primary().annotated(
            "this reusable workflow".to_owned(),
        );
        let secrets_loc = job.location(&base).with_keys(&secrets_keys).annotated(
            "inherits all parent secrets".to_owned(),
        );
        let ghost ur = crate::finding::route_model(uses_loc.route);
        let ghost sr = crate::finding::route_model(secrets_loc.route);
        proof {
            assert(ur =~= seq![
                (true, "jobs"@, 0int),
                (true, job.id_spec(), 0int),
                (true, "uses"@, 0int),
            ]);
            assert(sr =~= seq![
                (true, "jobs"@, 0int),
                (true, job.id_spec(), 0int),
                (true, "secrets"@, 0int),
            ]);
        }
        let b = FindingBuilder::new(
            "secrets-inherit",
            "secrets unconditionally inherited by called workflow",
            "https://docs.zizmor.sh/audits#secrets-inherit",
        ).confidence(Confidence::High).severity(Severity::Medium).add_location(uses_loc)
            .add_location(secrets_loc);
        let ghost blocs = b.locations@;
        match b.build(input) {
            Ok(f) => {
                findings.push(f);
                Ok(findings)
            },
            Err(e) => {
                proof {
                    crate::finding::lemma_some_primary_here(blocs, b.raw_locations@, 0);
                    if e is Unresolvable {
                        crate::finding::lemma_unresolvable_witness(*input, blocs);
                        let bi = choose|bi: int|
                            0 <= bi < blocs.len() && !input_route_resolves(
                                *input,
                                crate::finding::route_model(blocs[bi].route),
                            );
                        assert(bi == 0 || bi == 1);
                    }
                }
                Err(e)
            },
        }
    }
}

} // verus!
