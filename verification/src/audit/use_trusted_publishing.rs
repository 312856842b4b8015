//! Flags publishing steps that configure a manual credential where the
//! package index supports trusted publishing.

use vstd::prelude::*;
use vstd::string::*;
use crate::audit::secret_without_env::step_route;
use crate::document::{Input, input_route_resolves};
use crate::finding::{BuildError, Confidence, Finding, FindingBuilder, RouteComponent, Severity};
use crate::models::{Env, EnvValue, Job, Step, StepBody, Workflow, env_lookup};
use crate::text::{matches_at, starts_at, str_eq};

verus! {

/// Whether an `env` value reads as one of the package indices known to
/// support trusted publishing.
pub open spec fn is_known_trusted_index(v: Seq<char>) -> bool {
    ||| v == "https://upload.pypi.org/legacy/"@
    ||| v == "https://test.pypi.org/legacy/"@
}

/// Whether a `pypa/gh-action-pypi-publish` step uses a manual credential: it
/// sets `password`, and any configured repository URL is a known trusted
/// index (a third-party index may genuinely need a password).
pub open spec fn pypi_manual_credentials(with: Env) -> bool {
    let has_password = env_lookup(with.entries@, "password"@) is Some;
    match env_lookup(with.entries@, "repository-url"@) {
        Some(v) => has_password && is_known_trusted_index(v.text_spec()),
        None => match env_lookup(with.entries@, "repository_url"@) {
            Some(v) => has_password && is_known_trusted_index(v.text_spec()),
            None => has_password,
        },
    }
}

/// Whether a `rubygems/release-gem` step opts out of trusted publishing:
/// any `setup-trusted-publisher` value other than `true`.
pub open spec fn release_gem_manual_credentials(with: Env) -> bool {
    match env_lookup(with.entries@, "setup-trusted-publisher"@) {
        Some(v) => v.text_spec() != "true"@,
        None => false,
    }
}

/// Whether a `rubygems/configure-rubygems-credential` step configures a
/// manual credential: it sets `api-token`.
pub open spec fn rubygems_credential_manual_credentials(with: Env) -> bool {
    env_lookup(with.entries@, "api-token"@) is Some
}


/// Whether a step configures a manual credential on a publishing action.
pub open spec fn utp_manual(body: StepBody) -> bool {
    match body {
        StepBody::Uses { uses, with } => if matches_at(uses@, "pypa/gh-action-pypi-publish"@, 0) {
            pypi_manual_credentials(with)
        } else if matches_at(uses@, "rubygems/release-gem"@, 0) {
            release_gem_manual_credentials(with)
        } else if matches_at(uses@, "rubygems/configure-rubygems-credential"@, 0) {
            rubygems_credential_manual_credentials(with)
        } else {
            false
        },
        StepBody::Run { .. } => false,
    }
}

/// Recommends trusted publishing over manually-configured credentials.
pub struct UseTrustedPublishing;

impl UseTrustedPublishing {
    /// The rule's stable identifier.
    pub fn ident() -> (r: &'static str)
        ensures
            r@ == "use-trusted-publishing"@,
    {
        "use-trusted-publishing"
    }

    /// Whether this `with:` block gives the PyPI publish action a manual
    /// credential.
    pub fn pypi_publish_uses_manual_credentials(&self, with: &Env) -> (r: bool)
        ensures
            r == pypi_manual_credentials(*with),
    {
        let has_password = with.contains_key("password");
        let url = match with.get("repository-url") {
            Some(v) => Some(v),
            None => with.get("repository_url"),
        };
        match url {
            Some(v) => {
                let text = v.to_text();
                has_password && (str_eq(text.as_str(), "https://upload.pypi.org/legacy/")
                    || str_eq(text.as_str(), "https://test.pypi.org/legacy/"))
            },
            None => has_password,
        }
    }

    /// Whether this `with:` block opts the release-gem action out of
    /// trusted publishing.
    pub fn release_gem_uses_manual_credentials(&self, with: &Env) -> (r: bool)
        ensures
            r == release_gem_manual_credentials(*with),
    {
        match with.get("setup-trusted-publisher") {
            Some(v) => {
                let text = v.to_text();
                !str_eq(text.as_str(), "true")
            },
            None => false,
        }
    }

    /// Whether this `with:` block hands the credential action a manual API
    /// token.
    pub fn rubygems_credential_uses_manual_credentials(&self, with: &Env) -> (r: bool)
        ensures
            r == rubygems_credential_manual_credentials(*with),
    {
        with.contains_key("api-token")
    }
}

impl UseTrustedPublishing {
    /// Audit one step: exactly one informational, high-confidence finding
    /// when the step configures a manual credential on a publishing action
    /// ([`utp_manual`]); none otherwise.
    pub fn audit_step(
        &self,
        workflow: &Workflow,
        job: &Job,
        step: &Step,
        input: &Input,
    ) -> (r: Result<Vec<Finding>, BuildError>)
        requires
            input.wf(),
        ensures
            !(r matches Err(BuildError::NoPrimaryLocation)),
            match r {
                Ok(v) => v@.len() == (if utp_manual(step.body) {
                    1int
                } else {
                    0int
                }) && (forall|k: int|
                    0 <= k < v@.len() ==> {
                        let f = #[trigger] v@[k];
                        &&& f.ident@ == "use-trusted-publishing"@
                        &&& f.determinations.severity == Severity::Informational
                        &&& f.determinations.confidence == Confidence::High
                        &&& f.locations@[0].symbolic.primary
                        &&& crate::finding::route_model(f.locations@[0].symbolic.route)
                            == step_route(*job, *step) + seq![(true, "uses"@, 0int)]
                    }),
                Err(_) => !input_route_resolves(
                    *input,
                    step_route(*job, *step) + seq![(true, "uses"@, 0int)],
                ) || !input_route_resolves(*input, step_route(*job, *step)),
            },
    {
        proof {
            reveal_strlit("pypa/gh-action-pypi-publish");
            reveal_strlit("rubygems/release-gem");
            reveal_strlit("rubygems/configure-rubygems-credential");
        }
        let mut findings: Vec<Finding> = Vec::new();
        let (uses, with) = match &step.body {
            StepBody::Uses { uses, with } => (uses, with),
            StepBody::Run { .. } => {
                return Ok(findings);
            },
        };
        let manual = if starts_at(uses.as_str(), "pypa/gh-action-pypi-publish", 0) {
            self.pypi_publish_uses_manual_credentials(with)
        } else if starts_at(uses.as_str(), "rubygems/release-gem", 0) {
            self.release_gem_uses_manual_credentials(with)
        } else if starts_at(uses.as_str(), "rubygems/configure-rubygems-credential", 0) {
            self.rubygems_credential_uses_manual_credentials(with)
        } else {
            false
        };
        if !manual {
            return Ok(findings);
        }
        let job_location = job.location(&workflow.location());
        let mut uses_keys: Vec<RouteComponent> = Vec::new();
        uses_keys.push(RouteComponent::Key("uses".to_owned()));
        let primary_loc = step.location(&job_location).with_keys(&uses_keys).primary().annotated(
            "this step".to_owned(),
        );
        let secondary_loc = step.location(&job_location).annotated(
            "uses a manually-configured credential instead of Trusted Publishing".to_owned(),
        );
        let ghost pr = crate::finding::route_model(primary_loc.route);
        let ghost sr = crate::finding::route_model(secondary_loc.route);
        proof {
            assert(pr =~= step_route(*job, *step) + seq![(true, "uses"@, 0int)]);
            assert(sr =~= step_route(*job, *step));
        }
        let b = FindingBuilder::new(
            "use-trusted-publishing",
            "prefer trusted publishing for authentication",
            "https://docs.zizmor.sh/audits#use-trusted-publishing",
        ).severity(Severity::Informational).confidence(Confidence::High).add_location(primary_loc)
            .add_location(secondary_loc);
        let ghost blocs = b.locations@;
        let built = b.build(input);
        match built {
            Ok(f) => {
                findings.push(f);
                Ok(findings)
            },
            Err(e) => {
                proof {
                    crate::finding::lemma_some_primary_here(blocs, b.raw_locations@, 0);
                    if e is Unresolvable {
                        crate::finding::lemma_unresolvable_witness(*input, blocs);
                        let bi = choose|bi: int|
                            0 <= bi < blocs.len() && !input_route_resolves(
                                *input,
                                crate::finding::route_model(blocs[bi].route),
                            );
                        assert(bi == 0 || bi == 1);
                    }
                }
                Err(e)
            },
        }
    }
}

} // verus!
