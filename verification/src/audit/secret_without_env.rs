//! Flags steps that mention secrets without an environment to gate them;
//! surfaced only for the pedantic audience.

use vstd::prelude::*;
use vstd::string::*;
use crate::document::{Input, input_route_resolves};
use crate::finding::{BuildError, Confidence, Finding, FindingBuilder, Persona, Severity};
use crate::models::{EnvValue, Job, LoE, NormalJob, Step, StepBody, Workflow};
use crate::text::{find_from, first_match};

verus! {

/// Whether some text mentions the `secrets` context at all.
pub open spec fn mentions_secrets(s: Seq<char>) -> bool {
    first_match(s, "secrets"@, 0) is Some
}

/// How many text values among the entries mention secrets, one count per
/// matching value.
pub open spec fn text_mentions_count(entries: Seq<(String, EnvValue)>) -> int
    decreases entries.len(),
{
    if entries.len() == 0 {
        0int
    } else {
        (match entries[0].1 {
            EnvValue::Text(v) => if mentions_secrets(v@) {
                1int
            } else {
                0int
            },
            _ => 0int,
        }) + text_mentions_count(entries.drop_first())
    }
}

/// How many secrets accesses one step's body holds: each matching text
/// value of a `with:` or literal `env:` block counts once; a
/// whole-environment expression counts once when it mentions secrets.
pub open spec fn secrets_accesses(body: StepBody) -> int {
    match body {
        StepBody::Uses { uses, with } => text_mentions_count(with.entries@),
        StepBody::Run { env, .. } => match env {
            LoE::Expr(e) => if mentions_secrets(e@) {
                1int
            } else {
                0int
            },
            LoE::Literal(env) => text_mentions_count(env.entries@),
        },
    }
}

/// The route of a step within its workflow document.
pub open spec fn step_route(job: Job, step: Step) -> Seq<(bool, Seq<char>, int)> {
    seq![
        (true, "jobs"@, 0int),
        (true, job.id_spec(), 0int),
        (true, "steps"@, 0int),
        (false, Seq::<char>::empty(), step.index as int),
    ]
}

/// Detects secrets used without a gating environment (pedantic variant).
pub struct SecretWithoutEnv;

impl SecretWithoutEnv {
    /// The rule's stable identifier.
    pub fn ident() -> (r: &'static str)
        ensures
            r@ == "secret-without-env"@,
    {
        "secret-without-env"
    }

    /// Whether the given step value accesses secrets.
    pub fn check_secrets_access(s: &str) -> (r: bool)
        ensures
            r == mentions_secrets(s@),
    {
        proof {
            reveal_strlit("secrets");
        }
        match find_from(s, "secrets", 0) {
            Some(_) => true,
            None => false,
        }
    }

    /// Audit one step of a job with no gating environment: one finding per
    /// secrets-mentioning value, anchored at the step.
    #[verifier::loop_isolation(false)]
    pub fn audit_step(
        &self,
        workflow: &Workflow,
        job: &Job,
        normal: &NormalJob,
        step: &Step,
        input: &Input,
    ) -> (r: Result<Vec<Finding>, BuildError>)
        requires
            input.wf(),
        ensures
            !(r matches Err(BuildError::NoPrimaryLocation)),
            input_route_resolves(*input, step_route(*job, *step)) ==> r is Ok,
            match r {
                Ok(v) => {
                    &&& v@.len() == (match normal.environment {
                        Some(_) => 0int,
                        None => secrets_accesses(step.body),
                    })
                    &&& (forall|k: int|
                        0 <= k < v@.len() ==> {
                            let f = #[trigger] v@[k];
                            &&& f.ident@ == "secret-without-env"@
                            &&& f.determinations.severity == Severity::High
                            &&& f.determinations.confidence == Confidence::High
                            &&& f.determinations.persona == Persona::Pedantic
                            &&& f.locations@[0].symbolic.primary
                            &&& crate::finding::route_model(f.locations@[0].symbolic.route)
                                == step_route(*job, *step)
                        })
                },
                Err(_) => !input_route_resolves(*input, step_route(*job, *step)),
            },
    {
        let mut findings: Vec<Finding> = Vec::new();
        match &normal.environment {
            Some(_) => {
                return Ok(findings);
            },
            None => {},
        }
        let entries: &Vec<(String, EnvValue)> = match &step.body {
            StepBody::Uses { with, .. } => &with.entries,
            StepBody::Run { env, .. } => match env {
                LoE::Expr(e) => {
                    if Self::check_secrets_access(e.as_str()) {
                        match self.step_finding(workflow, job, step, input) {
                            Ok(f) => {
                                findings.push(f);
                            },
                            Err(e) => {
                                return Err(e);
                            },
                        }
                    }
                    return Ok(findings);
                },
                LoE::Literal(env) => &env.entries,
            },
        };
        let mut i: usize = 0;
        proof {
            assert(entries@.skip(0) =~= entries@);
        }
        while i < entries.len()
            invariant
                i <= entries@.len(),
                input.wf(),
                findings@.len() + text_mentions_count(entries@.skip(i as int))
                    == text_mentions_count(entries@),
                forall|k: int|
                    0 <= k < findings@.len() ==> {
                        let f = #[trigger] findings@[k];
                        &&& f.ident@ == "secret-without-env"@
                        &&& f.determinations.severity == Severity::High
                        &&& f.determinations.confidence == Confidence::High
                        &&& f.determinations.persona == Persona::Pedantic
                        &&& f.locations@[0].symbolic.primary
                        &&& crate::finding::route_model(f.locations@[0].symbolic.route)
                            == step_route(*job, *step)
                    },
            decreases entries@.len() - i,
        {
            proof {
                assert(entries@.skip(i as int)[0] == entries@[i as int]);
                assert(entries@.skip(i as int).drop_first() =~= entries@.skip(i + 1));
            }
            match &entries[i].1 {
                EnvValue::Text(v) => {
                    if Self::check_secrets_access(v.as_str()) {
                        match self.step_finding(workflow, job, step, input) {
                            Ok(f) => {
                                findings.push(f);
                            },
                            Err(e) => {
                                return Err(e);
                            },
                        }
                    }
                },
                _ => {},
            }
            i += 1;
        }
        proof {
            assert(entries@.skip(entries@.len() as int) =~= Seq::<(String, EnvValue)>::empty());
        }
        Ok(findings)
    }

    /// One finding anchored at the step.
    fn step_finding(
        &self,
        workflow: &Workflow,
        job: &Job,
        step: &Step,
        input: &Input,
    ) -> (r: Result<Finding, BuildError>)
        requires
            input.wf(),
        ensures
            !(r matches Err(BuildError::NoPrimaryLocation)),
            match r {
                Ok(f) => {
                    &&& f.ident@ == "secret-without-env"@
                    &&& f.determinations.severity == Severity::High
                    &&& f.determinations.confidence == Confidence::High
                    &&& f.determinations.persona == Persona::Pedantic
                    &&& f.locations@[0].symbolic.primary
                    &&& crate::finding::route_model(f.locations@[0].symbolic.route) == step_route(
                        *job,
                        *step,
                    )
                },
                Err(_) => !input_route_resolves(*input, step_route(*job, *step)),
            },
    {
        let job_location = job.location(&workflow.location());
        let loc = step.location(&job_location).primary();
        let ghost loc_route = crate::finding::route_model(loc.route);
        proof {
            assert(loc_route =~= step_route(*job, *step));
        }
        let b = FindingBuilder::new(
            "secret-without-env",
            "secret used without an environment to gate it",
            "https://docs.zizmor.sh/audits#secret-without-env",
        ).confidence(Confidence::High).severity(Severity::High).persona(Persona::Pedantic)
            .add_location(loc);
        let ghost blocs = b.locations@;
        let built = b.build(input);
        match built {
            Ok(f) => Ok(f),
            Err(e) => {
                proof {
                    crate::finding::lemma_some_primary_here(blocs, b.raw_locations@, 0);
                    if e is Unresolvable {
                        crate::finding::lemma_unresolvable_witness(*input, blocs);
                        let i = choose|i: int|
                            0 <= i < blocs.len() && !input_route_resolves(
                                *input,
                                crate::finding::route_model(blocs[i].route),
                            );
                        assert(i == 0);
                    }
                }
                Err(e)
            },
        }
    }
}

} // verus!
