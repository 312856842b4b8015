//! Flags steps that use secrets without an environment to gate them.

use vstd::prelude::*;
use vstd::string::*;
use crate::document::{Input, input_route_resolves};
use crate::finding::{BuildError, Confidence, Finding, FindingBuilder, Persona, Severity};
use crate::models::{EnvValue, Job, LoE, NormalJob, Step, StepBody, Workflow};
use crate::text::{find_from, first_match};

verus! {

use crate::audit::secret_without_env::{mentions_secrets, secrets_accesses, step_route, text_mentions_count};

/// Detects secrets used outside a gating environment.
pub struct SecretsOutsideEnvironment;

impl SecretsOutsideEnvironment {
    /// The rule's stable identifier.
    pub fn ident() -> (r: &'static str)
        ensures
            r@ == "secrets-outside-environment"@,
    {
        "secrets-outside-environment"
    }

    /// Whether the given step value accesses secrets.
    pub fn check_secrets_access(s: &str) -> (r: bool)
        ensures
            r == mentions_secrets(s@),
    {
        proof {
            reveal_strlit("secrets");
        }
        match find_from(s, "secrets", 0) {
            Some(_) => true,
            None => false,
        }
    }

    /// Audit one step of a job with no gating environment: one finding per
    /// secrets-mentioning value, anchored at the step.
    #[verifier::loop_isolation(false)]
    pub fn audit_step(
        &self,
        workflow: &Workflow,
        job: &Job,
        normal: &NormalJob,
        step: &Step,
        input: &Input,
    ) -> (r: Result<Vec<Finding>, BuildError>)
        requires
            input.wf(),
        ensures
            !(r matches Err(BuildError::NoPrimaryLocation)),
            input_route_resolves(*input, step_route(*job, *step)) ==> r is Ok,
            match r {
                Ok(v) => {
                    &&& v@.len() == (match normal.environment {
                        Some(_) => 0int,
                        None => secrets_accesses(step.body),
                    })
                    &&& (forall|k: int|
                        0 <= k < v@.len() ==> {
                            let f = #[trigger] v@[k];
                            &&& f.ident@ == "secrets-outside-environment"@
                            &&& f.determinations.severity == Severity::High
                            &&& f.determinations.confidence == Confidence::High
                            &&& f.determinations.persona == Persona::Regular
                            &&& f.locations@[0].symbolic.primary
                            &&& crate::finding::route_model(f.locations@[0].symbolic.route)
                                == step_route(*job, *step)
                        })
                },
                Err(_) => !input_route_resolves(*input, step_route(*job, *step)),
            },
    {
        let mut findings: Vec<Finding> = Vec::new();
        match &normal.environment {
            Some(_) => {
                return Ok(findings);
            },
            None => {},
        }
        let entries: &Vec<(String, EnvValue)> = match &step.body {
            StepBody::Uses { with, .. } => &with.entries,
            StepBody::Run { env, .. } => match env {
                LoE::Expr(e) => {
                    if Self::check_secrets_access(e.as_str()) {
                        match self.step_finding(workflow, job, step, input) {
                            Ok(f) => {
                                findings.push(f);
                            },
                            Err(e) => {
                                return Err(e);
                            },
                        }
                    }
                    return Ok(findings);
                },
                LoE::Literal(env) => &env.entries,
            },
        };
        let mut i: usize = 0;
        proof {
            assert(entries@.skip(0) =~= entries@);
        }
        while i < entries.len()
            invariant
                i <= entries@.len(),
                input.wf(),
                findings@.len() + text_mentions_count(entries@.skip(i as int))
                    == text_mentions_count(entries@),
                forall|k: int|
                    0 <= k < findings@.len() ==> {
                        let f = #[trigger] findings@[k];
                        &&& f.ident@ == "secrets-outside-environment"@
                        &&& f.determinations.severity == Severity::High
                        &&& f.determinations.confidence == Confidence::High
                        &&& f.determinations.persona == Persona::Regular
                        &&& f.locations@[0].symbolic.primary
                        &&& crate::finding::route_model(f.locations@[0].symbolic.route)
                            == step_route(*job, *step)
                    },
            decreases entries@.len() - i,
        {
            proof {
                assert(entries@.skip(i as int)[0] == entries@[i as int]);
                assert(entries@.skip(i as int).drop_first() =~= entries@.skip(i + 1));
            }
            match &entries[i].1 {
                EnvValue::Text(v) => {
                    if Self::check_secrets_access(v.as_str()) {
                        match self.step_finding(workflow, job, step, input) {
                            Ok(f) => {
                                findings.push(f);
                            },
                            Err(e) => {
                                return Err(e);
                            },
                        }
                    }
                },
                _ => {},
            }
            i += 1;
        }
        proof {
            assert(entries@.skip(entries@.len() as int) =~= Seq::<(String, EnvValue)>::empty());
        }
        Ok(findings)
    }

    /// One finding anchored at the step.
    fn step_finding(
        &self,
        workflow: &Workflow,
        job: &Job,
        step: &Step,
        input: &Input,
    ) -> (r: Result<Finding, BuildError>)
        requires
            input.wf(),
        ensures
            !(r matches Err(BuildError::NoPrimaryLocation)),
            match r {
                Ok(f) => {
                    &&& f.ident@ == "secrets-outside-environment"@
                    &&& f.determinations.severity == Severity::High
                    &&& f.determinations.confidence == Confidence::High
                    &&& f.determinations.persona == Persona::Regular
                    &&& f.locations@[0].symbolic.primary
                    &&& crate::finding::route_model(f.locations@[0].symbolic.route) == step_route(
                        *job,
                        *step,
                    )
                },
                Err(_) => !input_route_resolves(*input, step_route(*job, *step)),
            },
    {
        let job_location = job.location(&workflow.location());
        let loc = step.location(&job_location).primary();
        let ghost loc_route = crate::finding::route_model(loc.route);
        proof {
            assert(loc_route =~= step_route(*job, *step));
        }
        let b = FindingBuilder::new(
            "secrets-outside-environment",
            "secrets used without an environment to gate them",
            "https://docs.zizmor.sh/audits#secrets-outside-environment",
        ).confidence(Confidence::High).severity(Severity::High).add_location(loc);
        let ghost blocs = b.locations@;
        let built = b.build(input);
        match built {
            Ok(f) => Ok(f),
            Err(e) => {
                proof {
                    crate::finding::lemma_some_primary_here(blocs, b.raw_locations@, 0);
                    if e is Unresolvable {
                        crate::finding::lemma_unresolvable_witness(*input, blocs);
                        let i = choose|i: int|
                            0 <= i < blocs.len() && !input_route_resolves(
                                *input,
                                crate::finding::route_model(blocs[i].route),
                            );
                        assert(i == 0);
                    }
                }
                Err(e)
            },
        }
    }
}

} // verus!
