//! Flags credential persistence through artifacts: a checkout that keeps
//! its credentials on disk, followed by an artifact upload whose path may
//! cover the persisted credential.

use vstd::prelude::*;
use vstd::string::*;

use crate::expr::views_of;
use crate::finding::Determinations;
use crate::finding::{BuildError, Confidence, Finding, FindingBuilder, Persona, Severity};
use crate::audit::secret_without_env::step_route;
use crate::document::{Input, input_route_resolves};
use crate::models::{EnvValue, Job, LoE, NormalJob, Step, StepBody, Uses, Workflow, env_lookup,
    uses_split_spec};
use crate::text::{lower_seq, matches_at};
use crate::text::{find_from, first_match, str_eq};
use crate::utils::{ExplicitExpr, bare_of, curly_form, split_patterns_spec};

verus! {

/// Whether one upload path pattern can cover the working tree's credential:
/// the working tree itself, its parent, or a template expansion that
/// mentions the workspace.
pub open spec fn is_dangerous_pattern(p: Seq<char>) -> bool {
    ||| p == "."@
    ||| p == "./"@
    ||| p == ".."@
    ||| p == "../"@
    ||| (curly_form(p) && first_match(bare_of(p), "github.workspace"@, 0) is Some)
}

/// The dangerous patterns among a list, in order.
pub open spec fn dangerous_of(ps: Seq<Seq<char>>) -> Seq<Seq<char>>
    decreases ps.len(),
{
    if ps.len() == 0 {
        Seq::empty()
    } else if is_dangerous_pattern(ps[0]) {
        seq![ps[0]] + dangerous_of(ps.drop_first())
    } else {
        dangerous_of(ps.drop_first())
    }
}

proof fn lemma_dangerous_snoc(ps: Seq<Seq<char>>, i: int)
    requires
        0 <= i < ps.len(),
    ensures
        dangerous_of(ps.take(i + 1)) == if is_dangerous_pattern(ps[i]) {
            dangerous_of(ps.take(i)) + seq![ps[i]]
        } else {
            dangerous_of(ps.take(i))
        },
    decreases i,
{
    let a = ps.take(i + 1);
    let b = ps.take(i);
    if i == 0 {
        assert(a.drop_first() =~= Seq::<Seq<char>>::empty());
        assert(a[0] == ps[0]);
        assert(dangerous_of(Seq::<Seq<char>>::empty()) == Seq::<Seq<char>>::empty());
        assert(dangerous_of(b) == Seq::<Seq<char>>::empty());
        if is_dangerous_pattern(ps[0]) {
            assert(dangerous_of(a) == seq![a[0]] + dangerous_of(a.drop_first()));
            assert(dangerous_of(a) =~= dangerous_of(b) + seq![ps[0]]);
        } else {
            assert(dangerous_of(a) =~= dangerous_of(b));
        }
    } else {
        lemma_dangerous_snoc(ps.drop_first(), i - 1);
        assert(a.drop_first() =~= ps.drop_first().take(i));
        assert(b.drop_first() =~= ps.drop_first().take(i - 1));
        assert(ps.drop_first()[i - 1] == ps[i]);
        assert(a[0] == ps[0]);
        assert(b[0] == ps[0]);
        if is_dangerous_pattern(ps[0]) {
            assert(dangerous_of(a) == seq![a[0]] + dangerous_of(a.drop_first()));
            assert(dangerous_of(b) == seq![b[0]] + dangerous_of(b.drop_first()));
        } else {
            assert(dangerous_of(a) == dangerous_of(a.drop_first()));
            assert(dangerous_of(b) == dangerous_of(b.drop_first()));
        }
        if is_dangerous_pattern(ps[i]) {
            assert(dangerous_of(a) =~= dangerous_of(b) + seq![ps[i]]);
        } else {
            assert(dangerous_of(a) =~= dangerous_of(b));
        }
    }
}


/// Whether a `uses:` text names the checkout action.
pub open spec fn is_checkout_uses(t: Seq<char>) -> bool {
    !matches_at(t, "docker://"@, 0) && (match uses_split_spec(t) {
        Some(parts) => lower_seq(parts.0) == lower_seq("actions"@) && lower_seq(parts.1)
            == lower_seq("checkout"@),
        None => false,
    })
}

/// Whether a `uses:` text names the artifact-upload action.
pub open spec fn is_upload_uses(t: Seq<char>) -> bool {
    !matches_at(t, "docker://"@, 0) && (match uses_split_spec(t) {
        Some(parts) => lower_seq(parts.0) == lower_seq("actions"@) && lower_seq(parts.1)
            == lower_seq("upload-artifact"@),
        None => false,
    })
}

/// How a checkout step is flagged: not at all when it sets
/// `persist-credentials: false`; to the auditor persona alone when it opts
/// in explicitly; to every persona otherwise (persistence is the default).
pub open spec fn checkout_persona(step: Step) -> Option<Persona> {
    match step.body {
        StepBody::Uses { uses, with } => if is_checkout_uses(uses@) {
            match env_lookup(with.entries@, "persist-credentials"@) {
                Some(v) => if v.text_spec() == "false"@ {
                    None
                } else if v.text_spec() == "true"@ {
                    Some(Persona::Auditor)
                } else {
                    Some(Persona::Regular)
                },
                None => Some(Persona::Regular),
            }
        } else {
            None
        },
        StepBody::Run { .. } => None,
    }
}

/// Whether a step uploads an artifact whose path may cover the credential.
pub open spec fn is_dangerous_upload(step: Step) -> bool {
    match step.body {
        StepBody::Uses { uses, with } => is_upload_uses(uses@) && (match env_lookup(
            with.entries@,
            "path"@,
        ) {
            Some(EnvValue::Text(p)) => dangerous_of(split_patterns_spec(p@, 0)).len() > 0,
            _ => false,
        }),
        StepBody::Run { .. } => false,
    }
}

/// Dangerous uploads at or after `from`.
pub open spec fn upload_count_from(steps: Seq<Step>, from: int) -> int
    decreases steps.len() - from,
    when 0 <= from <= steps.len()
{
    if from >= steps.len() {
        0int
    } else {
        (if is_dangerous_upload(steps[from]) {
            1int
        } else {
            0int
        }) + upload_count_from(steps, from + 1)
    }
}

pub proof fn lemma_upload_count_nonneg(steps: Seq<Step>, from: int)
    requires
        0 <= from <= steps.len(),
    ensures
        upload_count_from(steps, from) >= 0,
    decreases steps.len() - from,
{
    if from < steps.len() {
        lemma_upload_count_nonneg(steps, from + 1);
    }
}

/// The determinations of a finding for an unprotected checkout with no
/// dangerous upload in sight: medium severity at low confidence, aimed at
/// the checkout's persona.
pub open spec fn lone_checkout_dets(p: Persona) -> Determinations {
    Determinations { confidence: Confidence::Low, severity: Severity::Medium, persona: p }
}

/// The determinations of a (checkout, later upload) pair finding: high
/// severity at high confidence, aimed at the checkout's persona.
pub open spec fn pair_dets(p: Persona) -> Determinations {
    Determinations { confidence: Confidence::High, severity: Severity::High, persona: p }
}

/// The expected findings' determinations, in order, from step `from` on.
/// Without any dangerous upload (`paired` false): one [`lone_checkout_dets`]
/// entry per flagged checkout. With one (`paired` true): one [`pair_dets`]
/// entry per (flagged checkout, later dangerous upload) pair, checkout-major.
/// A checkout with `persist-credentials: false` contributes nothing; an
/// explicit `true` demotes its entries to the auditor persona.
pub open spec fn artipacked_dets_from(steps: Seq<Step>, from: int, paired: bool) -> Seq<
    Determinations,
>
    decreases steps.len() - from,
    when 0 <= from <= steps.len()
{
    if from >= steps.len() {
        Seq::empty()
    } else {
        (match checkout_persona(steps[from]) {
            Some(p) => if paired {
                Seq::new(upload_count_from(steps, from + 1) as nat, |i: int| pair_dets(p))
            } else {
                seq![lone_checkout_dets(p)]
            },
            None => Seq::empty(),
        }) + artipacked_dets_from(steps, from + 1, paired)
    }
}

/// Everything the rule reports for a job's steps, by determinations.
pub open spec fn artipacked_dets(steps: Seq<Step>) -> Seq<Determinations> {
    artipacked_dets_from(steps, 0, upload_count_from(steps, 0) != 0)
}

/// Detects credential persistence through artifacts.
pub struct Artipacked;

impl Artipacked {
    /// The rule's stable identifier.
    pub fn ident() -> (r: &'static str)
        ensures
            r@ == "artipacked"@,
    {
        "artipacked"
    }

    /// The dangerous patterns of a multi-line upload path, in order.
    #[verifier::loop_isolation(false)]
    pub fn dangerous_artifact_patterns(&self, path: &str) -> (r: Vec<String>)
        ensures
            views_of(r@) == dangerous_of(split_patterns_spec(path@, 0)),
    {
        let patterns = crate::utils::split_patterns(path);
        let mut out: Vec<String> = Vec::new();
        let mut i: usize = 0;
        proof {
            assert(views_of(out@) =~= Seq::<Seq<char>>::empty());
            assert(views_of(patterns@).take(0) =~= Seq::<Seq<char>>::empty());
        }
        while i < patterns.len()
            invariant
                i <= patterns@.len(),
                views_of(out@) == dangerous_of(views_of(patterns@).take(i as int)),
            decreases patterns@.len() - i,
        {
            let p = &patterns[i];
            let dangerous = if str_eq(p.as_str(), ".") || str_eq(p.as_str(), "./") || str_eq(
                p.as_str(),
                "..",
            ) || str_eq(p.as_str(), "../") {
                true
            } else {
                match ExplicitExpr::from_curly(p.as_str()) {
                    Some(x) => {
                        let bare = x.as_bare();
                        proof {
                            reveal_strlit("github.workspace");
                        }
                        match find_from(bare.as_str(), "github.workspace", 0) {
                            Some(_) => true,
                            None => false,
                        }
                    },
                    None => false,
                }
            };
            proof {
                assert(views_of(patterns@).take(i as int)[i as int - 1] == views_of(
                    patterns@,
                )[i as int - 1] || true);
                lemma_dangerous_snoc(views_of(patterns@), i as int);
                assert(views_of(patterns@)[i as int] == patterns@[i as int]@);
            }
            if dangerous {
                out.push(p.clone());
                proof {
                    assert(views_of(out@) =~= views_of(out@.drop_last()) + seq![p@]);
                }
            }
            i += 1;
        }
        proof {
            assert(views_of(patterns@).take(patterns@.len() as int) =~= views_of(patterns@));
        }
        out
    }
}

impl Artipacked {
    /// Whether this step is a flagged checkout, and for which persona.
    fn checkout_disposition(&self, step: &Step) -> (r: Option<Persona>)
        ensures
            r == checkout_persona(*step),
    {
        proof {
            reveal_strlit("docker://");
        }
        let (uses_text, with) = match &step.body {
            StepBody::Uses { uses, with } => (uses, with),
            StepBody::Run { .. } => {
                return None;
            },
        };
        let parsed = match Uses::from_step(uses_text.as_str()) {
            Some(u) => u,
            None => {
                return None;
            },
        };
        let template = Uses::new("actions", "checkout", None, None);
        if !parsed.matches_template(&template) {
            return None;
        }
        match with.get("persist-credentials") {
            Some(v) => {
                let text = v.to_text();
                if crate::text::str_eq(text.as_str(), "false") {
                    None
                } else if crate::text::str_eq(text.as_str(), "true") {
                    // An explicit opt-in is probably deliberate: report it
                    // only to the auditor persona.
                    Some(Persona::Auditor)
                } else {
                    Some(Persona::Regular)
                }
            },
            // Credential persistence is the default.
            None => Some(Persona::Regular),
        }
    }

    /// Whether this step is an artifact upload with a dangerous path.
    fn dangerous_upload_step(&self, step: &Step) -> (r: bool)
        ensures
            r == is_dangerous_upload(*step),
    {
        proof {
            reveal_strlit("docker://");
        }
        let (uses_text, with) = match &step.body {
            StepBody::Uses { uses, with } => (uses, with),
            StepBody::Run { .. } => {
                return false;
            },
        };
        let parsed = match Uses::from_step(uses_text.as_str()) {
            Some(u) => u,
            None => {
                return false;
            },
        };
        let template = Uses::new("actions", "upload-artifact", None, None);
        if !parsed.matches_template(&template) {
            return false;
        }
        match with.get("path") {
            Some(EnvValue::Text(path)) => {
                let dangerous = self.dangerous_artifact_patterns(path.as_str());
                dangerous.len() > 0
            },
            _ => false,
        }
    }

    /// Audit one normal job: the findings' determinations are exactly
    /// [`artipacked_dets`] — one Medium/Low finding per flagged checkout
    /// when no dangerous upload exists, otherwise one High/High finding per
    /// flagged checkout paired with each dangerous upload that follows it,
    /// each aimed at its checkout's persona (an explicit
    /// `persist-credentials: true` demotes to the auditor; `false` is never
    /// flagged).
    #[verifier::loop_isolation(false)]
    pub fn audit_normal_job(
        &self,
        workflow: &Workflow,
        job: &Job,
        normal: &NormalJob,
        input: &Input,
    ) -> (r: Result<Vec<Finding>, BuildError>)
        requires
            input.wf(),
        ensures
            !(r matches Err(BuildError::NoPrimaryLocation)),
            match r {
                Ok(v) => crate::finding::dets_of(v@) == artipacked_dets(normal.steps@) && (forall|
                    k: int,
                |
                    0 <= k < v@.len() ==> (#[trigger] v@[k]).ident@ == "artipacked"@
                        && v@[k].locations@[0].symbolic.primary),
                Err(_) => exists|i: int|
                    0 <= i < normal.steps@.len() && !input_route_resolves(
                        *input,
                        step_route(*job, #[trigger] normal.steps@[i]),
                    ),
            },
    {
        let mut findings: Vec<Finding> = Vec::new();
        let ghost stepsv = normal.steps@;
        let job_location = job.location(&workflow.location());
        let mut nu: usize = 0;
        let mut si: usize = 0;
        while si < normal.steps.len()
            invariant
                si <= stepsv.len(),
                nu <= si,
                nu + upload_count_from(stepsv, si as int) == upload_count_from(stepsv, 0),
            decreases stepsv.len() - si,
        {
            if self.dangerous_upload_step(&normal.steps[si]) {
                nu += 1;
            }
            si += 1;
        }
        proof {
            assert(upload_count_from(stepsv, stepsv.len() as int) == 0);
            assert(nu as int == upload_count_from(stepsv, 0));
            assert(crate::finding::dets_of(findings@) =~= Seq::<
                crate::finding::Determinations,
            >::empty());
        }
        if nu == 0 {
            // No dangerous upload: lower-confidence findings for the
            // checkouts alone.
            let mut ci: usize = 0;
            while ci < normal.steps.len()
                invariant
                    ci <= stepsv.len(),
                    input.wf(),
                    upload_count_from(stepsv, 0) == 0,
                    crate::finding::dets_of(findings@) + artipacked_dets_from(
                        stepsv,
                        ci as int,
                        false,
                    ) == artipacked_dets(stepsv),
                    forall|k: int|
                        0 <= k < findings@.len() ==> (#[trigger] findings@[k]).ident@
                            == "artipacked"@ && findings@[k].locations@[0].symbolic.primary,
                decreases stepsv.len() - ci,
            {
                match self.checkout_disposition(&normal.steps[ci]) {
                    Some(persona) => {
                        let loc = normal.steps[ci].location(&job_location).primary().annotated(
                            "does not set persist-credentials: false".to_owned(),
                        );
                        let ghost lr = crate::finding::route_model(loc.route);
                        proof {
                            assert(lr =~= step_route(*job, stepsv[ci as int]));
                        }
                        let b = FindingBuilder::new(
                            "artipacked",
                            "credential persistence through GitHub Actions artifacts",
                            "https://docs.zizmor.sh/audits#artipacked",
                        ).severity(Severity::Medium).confidence(Confidence::Low).persona(persona)
                            .add_location(loc);
                        let ghost blocs = b.locations@;
                        let ghost fv = findings@;
                        match b.build(input) {
                            Ok(f) => {
                                findings.push(f);
                                proof {
                                    assert(crate::finding::dets_of(findings@)
                                        =~= crate::finding::dets_of(fv) + seq![
                                        lone_checkout_dets(persona),
                                    ]);
                                }
                            },
                            Err(e) => {
                                proof {
                                    crate::finding::lemma_some_primary_here(
                                        blocs,
                                        b.raw_locations@,
                                        0,
                                    );
                                    if e is Unresolvable {
                                        crate::finding::lemma_unresolvable_witness(*input, blocs);
                                        let bi = choose|bi: int|
                                            0 <= bi < blocs.len() && !input_route_resolves(
                                                *input,
                                                crate::finding::route_model(blocs[bi].route),
                                            );
                                        assert(bi == 0);
                                    }
                                }
                                return Err(e);
                            },
                        }
                    },
                    None => {},
                }
                ci += 1;
            }
            proof {
                assert(artipacked_dets_from(stepsv, stepsv.len() as int, false) =~= Seq::<
                    crate::finding::Determinations,
                >::empty());
                assert(crate::finding::dets_of(findings@) =~= artipacked_dets(stepsv));
            }
            return Ok(findings);
        }
        // Pair each flagged checkout with each dangerous upload after it.
        let mut ci: usize = 0;
        while ci < normal.steps.len()
            invariant
                ci <= stepsv.len(),
                input.wf(),
                upload_count_from(stepsv, 0) != 0,
                crate::finding::dets_of(findings@) + artipacked_dets_from(stepsv, ci as int, true)
                    == artipacked_dets(stepsv),
                forall|k: int|
                    0 <= k < findings@.len() ==> (#[trigger] findings@[k]).ident@ == "artipacked"@
                        && findings@[k].locations@[0].symbolic.primary,
            decreases stepsv.len() - ci,
        {
            let persona = match self.checkout_disposition(&normal.steps[ci]) {
                Some(p) => p,
                None => {
                    ci += 1;
                    continue;
                },
            };
            let mut ui: usize = ci + 1;
            while ui < normal.steps.len()
                invariant
                    ci < stepsv.len(),
                    ci + 1 <= ui <= stepsv.len(),
                    input.wf(),
                    checkout_persona(stepsv[ci as int]) == Some(persona),
                    crate::finding::dets_of(findings@) + Seq::new(
                        upload_count_from(stepsv, ui as int) as nat,
                        |i: int| pair_dets(persona),
                    ) + artipacked_dets_from(stepsv, ci + 1, true) == artipacked_dets(stepsv),
                    forall|k: int|
                        0 <= k < findings@.len() ==> (#[trigger] findings@[k]).ident@
                            == "artipacked"@ && findings@[k].locations@[0].symbolic.primary,
                decreases stepsv.len() - ui,
            {
                if self.dangerous_upload_step(&normal.steps[ui]) {
                    let checkout_loc = normal.steps[ci].location(&job_location).primary()
                        .annotated("does not set persist-credentials: false".to_owned());
                    let upload_loc = normal.steps[ui].location(&job_location).annotated(
                        "may leak the credentials persisted above".to_owned(),
                    );
                    let ghost cr = crate::finding::route_model(checkout_loc.route);
                    let ghost ur = crate::finding::route_model(upload_loc.route);
                    proof {
                        assert(cr =~= step_route(*job, stepsv[ci as int]));
                        assert(ur =~= step_route(*job, stepsv[ui as int]));
                    }
                    let b = FindingBuilder::new(
                        "artipacked",
                        "credential persistence through GitHub Actions artifacts",
                        "https://docs.zizmor.sh/audits#artipacked",
                    ).severity(Severity::High).confidence(Confidence::High).persona(persona)
                        .add_location(checkout_loc).add_location(upload_loc);
                    let ghost blocs = b.locations@;
                    let ghost fv = findings@;
                    match b.build(input) {
                        Ok(f) => {
                            findings.push(f);
                            proof {
                                lemma_upload_count_nonneg(stepsv, ui + 1);
                                assert(upload_count_from(stepsv, ui as int) == 1
                                    + upload_count_from(stepsv, ui + 1));
                                assert(Seq::new(
                                    upload_count_from(stepsv, ui as int) as nat,
                                    |i: int| pair_dets(persona),
                                ) =~= seq![pair_dets(persona)] + Seq::new(
                                    upload_count_from(stepsv, ui + 1) as nat,
                                    |i: int| pair_dets(persona),
                                ));
                                assert(crate::finding::dets_of(findings@)
                                    =~= crate::finding::dets_of(fv) + seq![pair_dets(persona)]);
                            }
                        },
                        Err(e) => {
                            proof {
                                crate::finding::lemma_some_primary_here(blocs, b.raw_locations@, 0);
                                if e is Unresolvable {
                                    crate::finding::lemma_unresolvable_witness(*input, blocs);
                                    let bi = choose|bi: int|
                                        0 <= bi < blocs.len() && !input_route_resolves(
                                            *input,
                                            crate::finding::route_model(blocs[bi].route),
                                        );
                                    assert(bi == 0 || bi == 1);
                                }
                            }
                            return Err(e);
                        },
                    }
                }
                ui += 1;
            }
            proof {
                assert(Seq::new(
                    upload_count_from(stepsv, stepsv.len() as int) as nat,
                    |i: int| pair_dets(persona),
                ) =~= Seq::<crate::finding::Determinations>::empty());
            }
            ci += 1;
        }
        proof {
            assert(artipacked_dets_from(stepsv, stepsv.len() as int, true) =~= Seq::<
                crate::finding::Determinations,
            >::empty());
            assert(crate::finding::dets_of(findings@) =~= artipacked_dets(stepsv));
        }
        Ok(findings)
    }
}

} // verus!
