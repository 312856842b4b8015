//! Flags environments that enable the runner's insecure workflow commands
//! through `ACTIONS_ALLOW_UNSECURE_COMMANDS`.

use vstd::prelude::*;
use vstd::string::*;
use crate::audit::secret_without_env::step_route;
use crate::document::{Input, input_route_resolves};
use crate::finding::{
    BuildError, Confidence, Finding, FindingBuilder, Persona, RouteComponent, Severity,
    SymbolicLocation,
};
use crate::models::{Env, EnvValue, Job, LoE, StepBody, Workflow, env_lookup};

verus! {

/// Whether an environment block enables insecure commands: the variable is
/// set to any non-empty string.
pub open spec fn insecure_commands_enabled(env: Env) -> bool {
    match env_lookup(env.entries@, "ACTIONS_ALLOW_UNSECURE_COMMANDS"@) {
        Some(EnvValue::Text(s)) => s@.len() > 0,
        _ => false,
    }
}


/// How one `env:` position counts: a whole-environment expression counts
/// once (it may hide the variable); a literal block counts once when it
/// enables insecure commands.
pub open spec fn env_indicator(env: LoE<Env>) -> int {
    match env {
        LoE::Expr(_) => 1int,
        LoE::Literal(e) => if insecure_commands_enabled(e) {
            1int
        } else {
            0int
        },
    }
}

/// The counts of the run-step environments at or after `from`.
pub open spec fn steps_env_count(steps: Seq<crate::models::Step>, from: int) -> int
    decreases steps.len() - from,
    when 0 <= from <= steps.len()
{
    if from >= steps.len() {
        0int
    } else {
        (match steps[from].body {
            StepBody::Run { env, .. } => env_indicator(env),
            StepBody::Uses { .. } => 0int,
        }) + steps_env_count(steps, from + 1)
    }
}

/// The counts of the jobs at or after `from`.
pub open spec fn jobs_env_count(jobs: Seq<Job>, from: int) -> int
    decreases jobs.len() - from,
    when 0 <= from <= jobs.len()
{
    if from >= jobs.len() {
        0int
    } else {
        (match jobs[from] {
            Job::Normal(n) => env_indicator(n.env) + steps_env_count(n.steps@, 0),
            Job::Reusable(_) => 0int,
        }) + jobs_env_count(jobs, from + 1)
    }
}

/// How many findings the rule reports for a workflow: one per environment
/// position — workflow, job or run step — that enables insecure commands or
/// hides its variables behind a whole-environment expression.
pub open spec fn insecure_total(w: Workflow) -> int {
    env_indicator(w.env) + jobs_env_count(w.jobs@, 0)
}

/// Detects execution environments with insecure workflow commands enabled.
pub struct InsecureCommands;

impl InsecureCommands {
    /// The rule's stable identifier.
    pub fn ident() -> (r: &'static str)
        ensures
            r@ == "insecure-commands"@,
    {
        "insecure-commands"
    }

    /// Whether this environment block enables insecure commands.
    pub fn has_insecure_commands_enabled(&self, env: &Env) -> (r: bool)
        ensures
            r == insecure_commands_enabled(*env),
    {
        match env.get("ACTIONS_ALLOW_UNSECURE_COMMANDS") {
            Some(EnvValue::Text(s)) => !s.as_str().is_empty(),
            _ => false,
        }
    }
}

impl InsecureCommands {
    /// One finding at the given location's `env:` block: high confidence
    /// when the commands are enabled outright, auditor-only low confidence
    /// when a whole-environment expression may hide the variable.
    fn env_finding(
        &self,
        location: SymbolicLocation,
        enabled: bool,
        input: &Input,
    ) -> (r: Result<Finding, BuildError>)
        requires
            input.wf(),
        ensures
            !(r matches Err(BuildError::NoPrimaryLocation)),
            match r {
                Ok(f) => f.ident@ == "insecure-commands"@ && f.determinations.severity
                    == Severity::High && f.locations@[0].symbolic.primary
                    && crate::finding::route_model(f.locations@[0].symbolic.route)
                    == crate::finding::route_model(location.route) + seq![(true, "env"@, 0int)],
                Err(_) => !input_route_resolves(
                    *input,
                    crate::finding::route_model(location.route) + seq![(true, "env"@, 0int)],
                ),
            },
    {
        let mut env_keys: Vec<RouteComponent> = Vec::new();
        env_keys.push(RouteComponent::Key("env".to_owned()));
        let loc = if enabled {
            location.with_keys(&env_keys).primary().annotated(
                "insecure commands enabled here".to_owned(),
            )
        } else {
            location.with_keys(&env_keys).primary().annotated(
                "non-static environment may contain ACTIONS_ALLOW_UNSECURE_COMMANDS".to_owned(),
            )
        };
        let ghost lr = crate::finding::route_model(loc.route);
        proof {
            assert(lr =~= crate::finding::route_model(location.route) + seq![
                (true, "env"@, 0int),
            ]);
        }
        let b = if enabled {
            FindingBuilder::new(
                "insecure-commands",
                "execution of insecure workflow commands is enabled",
                "https://docs.zizmor.sh/audits#insecure-commands",
            ).confidence(Confidence::High).severity(Severity::High).add_location(loc)
        } else {
            FindingBuilder::new(
                "insecure-commands",
                "execution of insecure workflow commands is enabled",
                "https://docs.zizmor.sh/audits#insecure-commands",
            ).confidence(Confidence::Low).severity(Severity::High).persona(Persona::Auditor)
                .add_location(loc)
        };
        let ghost blocs = b.locations@;
        match b.build(input) {
            Ok(f) => Ok(f),
            Err(e) => {
                proof {
                    crate::finding::lemma_some_primary_here(blocs, b.raw_locations@, 0);
                    if e is Unresolvable {
                        crate::finding::lemma_unresolvable_witness(*input, blocs);
                        let bi = choose|bi: int|
                            0 <= bi < blocs.len() && !input_route_resolves(
                                *input,
                                crate::finding::route_model(blocs[bi].route),
                            );
                        assert(bi == 0);
                    }
                }
                Err(e)
            },
        }
    }

    /// Whether one `env:` position warrants a finding, and which kind.
    fn env_disposition(&self, env: &LoE<Env>) -> (r: Option<bool>)
        ensures
            match r {
                Some(enabled) => env_indicator(*env) == 1 && enabled == (*env is Literal),
                None => env_indicator(*env) == 0,
            },
    {
        match env {
            LoE::Expr(_) => Some(false),
            LoE::Literal(e) => {
                if self.has_insecure_commands_enabled(e) {
                    Some(true)
                } else {
                    None
                }
            },
        }
    }

    /// Audit a whole workflow: exactly [`insecure_total`] findings — one per
    /// environment position that enables insecure commands, or that hides
    /// its variables behind a whole-environment expression.
    #[verifier::loop_isolation(false)]
    pub fn audit_workflow(&self, workflow: &Workflow, input: &Input) -> (r: Result<
        Vec<Finding>,
        BuildError,
    >)
        requires
            input.wf(),
        ensures
            !(r matches Err(BuildError::NoPrimaryLocation)),
            match r {
                Ok(v) => v@.len() == insecure_total(*workflow) && (forall|k: int|
                    0 <= k < v@.len() ==> (#[trigger] v@[k]).ident@ == "insecure-commands"@
                        && v@[k].determinations.severity == Severity::High
                        && v@[k].locations@[0].symbolic.primary),
                Err(_) => !input_route_resolves(*input, seq![(true, "env"@, 0int)]) || (exists|
                    i: int,
                |
                    0 <= i < workflow.jobs@.len() && (match #[trigger] workflow.jobs@[i] {
                        Job::Normal(n) => !input_route_resolves(
                            *input,
                            seq![
                                (true, "jobs"@, 0int),
                                (true, n.id@, 0int),
                                (true, "env"@, 0int),
                            ],
                        ) || (exists|k: int|
                            0 <= k < n.steps@.len() && !input_route_resolves(
                                *input,
                                step_route(workflow.jobs@[i], #[trigger] n.steps@[k]) + seq![
                                    (true, "env"@, 0int),
                                ],
                            )),
                        Job::Reusable(_) => false,
                    })),
            },
    {
        let mut findings: Vec<Finding> = Vec::new();
        let ghost jobsv = workflow.jobs@;
        match self.env_disposition(&workflow.env) {
            Some(enabled) => {
                match self.env_finding(workflow.location(), enabled, input) {
                    Ok(f) => {
                        findings.push(f);
                    },
                    Err(e) => {
                        return Err(e);
                    },
                }
            },
            None => {},
        }
        let ghost base = findings@.len() as int;
        proof {
            assert(base == env_indicator(workflow.env));
        }
        let mut ji: usize = 0;
        while ji < workflow.jobs.len()
            invariant
                ji <= jobsv.len(),
                input.wf(),
                findings@.len() == base + (jobs_env_count(jobsv, 0) - jobs_env_count(
                    jobsv,
                    ji as int,
                )),
                forall|k: int|
                    0 <= k < findings@.len() ==> (#[trigger] findings@[k]).ident@
                        == "insecure-commands"@ && findings@[k].determinations.severity
                        == Severity::High && findings@[k].locations@[0].symbolic.primary,
            decreases jobsv.len() - ji,
        {
            let job = &workflow.jobs[ji];
            let normal = match job {
                Job::Normal(n) => n,
                Job::Reusable(_) => {
                    ji += 1;
                    continue;
                },
            };
            let job_location = job.location(&workflow.location());
            match self.env_disposition(&normal.env) {
                Some(enabled) => {
                    let jloc = job.location(&workflow.location());
                    let ghost jr = crate::finding::route_model(jloc.route);
                    proof {
                        assert(jr =~= seq![(true, "jobs"@, 0int), (true, normal.id@, 0int)]);
                    }
                    match self.env_finding(jloc, enabled, input) {
                        Ok(f) => {
                            findings.push(f);
                        },
                        Err(e) => {
                            proof {
                                assert(jr + seq![(true, "env"@, 0int)] =~= seq![
                                    (true, "jobs"@, 0int),
                                    (true, normal.id@, 0int),
                                    (true, "env"@, 0int),
                                ]);
                                assert(jobsv[ji as int] matches Job::Normal(n2) && n2.id@
                                    == normal.id@);
                            }
                            return Err(e);
                        },
                    }
                },
                None => {},
            }
            let ghost job_base = findings@.len() as int;
            let ghost stepsv2 = normal.steps@;
            let mut si: usize = 0;
            while si < normal.steps.len()
                invariant
                    si <= stepsv2.len(),
                    ji < jobsv.len(),
                    input.wf(),
                    findings@.len() == job_base + (steps_env_count(stepsv2, 0) - steps_env_count(
                        stepsv2,
                        si as int,
                    )),
                    forall|k: int|
                        0 <= k < findings@.len() ==> (#[trigger] findings@[k]).ident@
                            == "insecure-commands"@ && findings@[k].determinations.severity
                            == Severity::High && findings@[k].locations@[0].symbolic.primary,
                decreases stepsv2.len() - si,
            {
                let step = &normal.steps[si];
                match &step.body {
                    StepBody::Run { env, .. } => {
                        match self.env_disposition(env) {
                            Some(enabled) => {
                                let sloc = step.location(&job_location);
                                let ghost sr = crate::finding::route_model(sloc.route);
                                proof {
                                    assert(sr =~= step_route(jobsv[ji as int], stepsv2[si as int]));
                                }
                                match self.env_finding(sloc, enabled, input) {
                                    Ok(f) => {
                                        findings.push(f);
                                    },
                                    Err(e) => {
                                        proof {
                                            assert(sr + seq![(true, "env"@, 0int)] =~= step_route(
                                                jobsv[ji as int],
                                                stepsv2[si as int],
                                            ) + seq![(true, "env"@, 0int)]);
                                            assert(0 <= si < stepsv2.len()
                                                && !input_route_resolves(
                                                *input,
                                                step_route(jobsv[ji as int], stepsv2[si as int])
                                                    + seq![(true, "env"@, 0int)],
                                            ));
                                            assert(jobsv[ji as int] matches Job::Normal(n2)
                                                && n2.steps@ == stepsv2);
                                        }
                                        return Err(e);
                                    },
                                }
                            },
                            None => {},
                        }
                    },
                    StepBody::Uses { .. } => {},
                }
                si += 1;
            }
            ji += 1;
        }
        Ok(findings)
    }
}

} // verus!
