//! Template injection detection: flags template expansions whose value an
//! attacker may influence, by classifying each expression's safety and the
//! trust of every context it draws from.

use vstd::prelude::*;
use vstd::string::*;
use crate::expr::{
    BinOp, Expr, ExprModel, UnOp, contexts_of, contexts_of_model, expr_size, expr_view,
    lemma_contexts_view, spec_parse, views_of,
};
use crate::utils::{bare_of, extract_spans};
use crate::finding::{Confidence, Persona, Severity};
use crate::document::Input;
use crate::finding::{BuildError, Finding, FindingBuilder, RouteComponent};
use crate::audit::secret_without_env::step_route;
use crate::document::input_route_resolves;
use crate::finding::Determinations;
use crate::models::{Job, LoE, NormalJob, Step, StepBody, Strategy, Workflow, env_lookup,
    mv_map_static};
use crate::text::{matches_at, starts_at, str_eq};

verus! {

/// The literal-safety fold: an expression is safe when every value it can
/// produce is a literal. Negation and (in)equality always produce booleans;
/// logical-and is safe exactly when its right operand is; every other binary
/// operator needs both sides safe; indexing, calls, context references and
/// the wildcard are conservatively unsafe.
pub open spec fn is_safe_expr(e: Expr) -> bool
    decreases e,
{
    match e {
        Expr::Number(_) => true,
        Expr::Str(_) => true,
        Expr::Boolean(_) => true,
        Expr::Null => true,
        Expr::Star => false,
        Expr::Context { .. } => false,
        Expr::Index(_) => false,
        Expr::Call { .. } => false,
        Expr::BinOp { lhs, op, rhs } => match op {
            BinOp::Eq | BinOp::Neq => true,
            BinOp::And => is_safe_expr(*rhs),
            _ => is_safe_expr(*lhs) && is_safe_expr(*rhs),
        },
        Expr::UnOp { .. } => true,
    }
}

/// An expression whose top form alone guarantees a literal result: a
/// literal, a negation of anything, or an (in)equality of anything.
pub open spec fn literal_guarded_form(e: Expr) -> bool {
    match e {
        Expr::Number(_) => true,
        Expr::Str(_) => true,
        Expr::Boolean(_) => true,
        Expr::Null => true,
        Expr::UnOp { op: UnOp::Not, .. } => true,
        Expr::BinOp { op: BinOp::Eq, .. } => true,
        Expr::BinOp { op: BinOp::Neq, .. } => true,
        _ => false,
    }
}

/// Law: every expression built from literals, negations, and
/// equality/inequality comparisons of arbitrary sub-expressions is classified
/// safe, regardless of what it contains or how deeply it nests.
pub proof fn lemma_safety_by_construction(e: Expr)
    requires
        literal_guarded_form(e),
    ensures
        is_safe_expr(e),
{
}

/// Law: `X && Y` is classified safe exactly when `Y` alone is, whatever the
/// classification of `X`.
pub proof fn lemma_logical_and_asymmetry(e: Expr)
    requires
        e matches Expr::BinOp { op: BinOp::And, .. },
    ensures
        match e {
            Expr::BinOp { lhs, op, rhs } => is_safe_expr(e) == is_safe_expr(*rhs),
            _ => true,
        },
{
}

/// The literal-safety fold over the model, mirroring [`is_safe_expr`].
pub open spec fn is_safe_model(m: ExprModel) -> bool
    decreases m,
{
    match m {
        ExprModel::Number(_) => true,
        ExprModel::Str(_) => true,
        ExprModel::Boolean(_) => true,
        ExprModel::Null => true,
        ExprModel::Star => false,
        ExprModel::Context { .. } => false,
        ExprModel::Index(_) => false,
        ExprModel::Call { .. } => false,
        ExprModel::BinOp { lhs, op, rhs } => match op {
            BinOp::Eq | BinOp::Neq => true,
            BinOp::And => is_safe_model(*rhs),
            _ => is_safe_model(*lhs) && is_safe_model(*rhs),
        },
        ExprModel::UnOp { .. } => true,
    }
}

/// Safety of a tree equals safety of its model.
pub proof fn lemma_safe_view(e: Expr)
    ensures
        is_safe_expr(e) == is_safe_model(expr_view(e)),
    decreases e,
{
    match e {
        Expr::BinOp { lhs, op, rhs } => {
            lemma_safe_view(*lhs);
            lemma_safe_view(*rhs);
        },
        _ => {},
    }
}

/// Context members believed always safe to interpolate.
pub open spec fn is_safe_context(ctx: Seq<char>) -> bool {
    ||| ctx == "github.event_name"@
    ||| ctx == "github.event.issue.number"@
    ||| ctx == "github.event.merge_group.base_sha"@
    ||| ctx == "github.event.number"@
    ||| ctx == "github.event.pull_request.commits"@
    ||| ctx == "github.event.pull_request.number"@
    ||| ctx == "github.event.workflow_run.id"@
    ||| ctx == "github.repository"@
    ||| ctx == "github.repository_id"@
    ||| ctx == "github.repositoryUrl"@
    ||| ctx == "github.repository_owner"@
    ||| ctx == "github.repository_owner_id"@
    ||| ctx == "github.run_attempt"@
    ||| ctx == "github.run_id"@
    ||| ctx == "github.run_number"@
    ||| ctx == "github.sha"@
    ||| ctx == "github.token"@
    ||| ctx == "github.workspace"@
    ||| ctx == "runner.arch"@
    ||| ctx == "runner.debug"@
    ||| ctx == "runner.os"@
    ||| ctx == "runner.temp"@
}

fn safe_context(ctx: &str) -> (r: bool)
    ensures
        r == is_safe_context(ctx@),
{
    str_eq(ctx, "github.event_name") || str_eq(ctx, "github.event.issue.number") || str_eq(
        ctx,
        "github.event.merge_group.base_sha",
    ) || str_eq(ctx, "github.event.number") || str_eq(ctx, "github.event.pull_request.commits")
        || str_eq(ctx, "github.event.pull_request.number") || str_eq(
        ctx,
        "github.event.workflow_run.id",
    ) || str_eq(ctx, "github.repository") || str_eq(ctx, "github.repository_id") || str_eq(
        ctx,
        "github.repositoryUrl",
    ) || str_eq(ctx, "github.repository_owner") || str_eq(ctx, "github.repository_owner_id")
        || str_eq(ctx, "github.run_attempt") || str_eq(ctx, "github.run_id") || str_eq(
        ctx,
        "github.run_number",
    ) || str_eq(ctx, "github.sha") || str_eq(ctx, "github.token") || str_eq(ctx, "github.workspace")
        || str_eq(ctx, "runner.arch") || str_eq(ctx, "runner.debug") || str_eq(ctx, "runner.os")
        || str_eq(ctx, "runner.temp")
}

/// How one unsafe context reference inside an expansion is classified, given
/// the owning job's strategy: `None` means no finding for this context.
pub open spec fn classify_context_spec(ctx: Seq<char>, strategy: Option<Strategy>) -> Option<
    (Severity, Confidence, Persona),
> {
    if matches_at(ctx, "secrets."@, 0) {
        None
    } else if is_safe_context(ctx) {
        None
    } else if matches_at(ctx, "inputs."@, 0) {
        Some((Severity::High, Confidence::Low, Persona::Regular))
    } else if matches_at(ctx, "env."@, 0) {
        Some((Severity::Low, Confidence::High, Persona::Regular))
    } else if matches_at(ctx, "github.event."@, 0) || ctx == "github.ref_name"@ {
        Some((Severity::High, Confidence::High, Persona::Regular))
    } else if matches_at(ctx, "matrix."@, 0) || ctx == "matrix"@ {
        match strategy {
            Some(s) => match s.matrix {
                Some(LoE::Expr(_)) => Some((Severity::Medium, Confidence::Medium, Persona::Regular)),
                Some(LoE::Literal(m)) => if mv_map_static(m.dimensions@) {
                    None
                } else {
                    Some((Severity::Medium, Confidence::Medium, Persona::Regular))
                },
                None => None,
            },
            None => None,
        }
    } else {
        Some((Severity::Informational, Confidence::Low, Persona::Regular))
    }
}

/// The classified entries for a list of context references, in order: each
/// reference that [`classify_context_spec`] flags contributes one entry.
pub open spec fn classify_entries(ctxs: Seq<Seq<char>>, strategy: Option<Strategy>) -> Seq<
    (Seq<char>, Severity, Confidence, Persona),
>
    decreases ctxs.len(),
{
    if ctxs.len() == 0 {
        Seq::empty()
    } else {
        (match classify_context_spec(ctxs[0], strategy) {
            Some((sev, conf, per)) => seq![(ctxs[0], sev, conf, per)],
            None => Seq::empty(),
        }) + classify_entries(ctxs.drop_first(), strategy)
    }
}

/// The entries one template marker contributes: nothing when its bare text
/// does not parse; one pedantic code-smell entry when the expression is
/// safe; otherwise one classified entry per flagged context occurrence.
pub open spec fn marker_entries(raw: Seq<char>, strategy: Option<Strategy>) -> Seq<
    (Seq<char>, Severity, Confidence, Persona),
> {
    match spec_parse(bare_of(raw)) {
        None => Seq::empty(),
        Some(m) => if is_safe_model(m) {
            seq![(raw, Severity::Unknown, Confidence::Unknown, Persona::Pedantic)]
        } else {
            classify_entries(contexts_of_model(m), strategy)
        },
    }
}

/// The entries of the markers at the given spans of `run`, in order.
pub open spec fn spans_entries(
    run: Seq<char>,
    spans: Seq<(int, int)>,
    strategy: Option<Strategy>,
) -> Seq<(Seq<char>, Severity, Confidence, Persona)>
    decreases spans.len(),
{
    if spans.len() == 0 {
        Seq::empty()
    } else {
        (if 0 <= spans[0].0 <= spans[0].1 <= run.len() {
            marker_entries(run.subrange(spans[0].0, spans[0].1), strategy)
        } else {
            Seq::empty()
        }) + spans_entries(run, spans.drop_first(), strategy)
    }
}

/// Everything the template-injection scan reports for a script: the entries
/// of every marker in it, in order.
pub open spec fn injectable_spec(run: Seq<char>, strategy: Option<Strategy>) -> Seq<
    (Seq<char>, Severity, Confidence, Persona),
> {
    spans_entries(run, extract_spans(run, 0), strategy)
}

/// The script a step expands, if any: a `run:` body, or the inline script
/// of a `github-script` action.
pub open spec fn step_script(body: StepBody) -> Option<Seq<char>> {
    match body {
        StepBody::Uses { uses, with } => if matches_at(uses@, "actions/github-script"@, 0) {
            match env_lookup(with.entries@, "script"@) {
                Some(v) => Some(v.text_spec()),
                None => None,
            }
        } else {
            None
        },
        StepBody::Run { run, .. } => Some(run@),
    }
}

/// The route of the step field holding the script.
pub open spec fn script_route(job: Job, step: Step) -> Seq<(bool, Seq<char>, int)> {
    step_route(job, step) + (match step.body {
        StepBody::Uses { .. } => seq![(true, "with"@, 0int), (true, "script"@, 0int)],
        StepBody::Run { .. } => seq![(true, "run"@, 0int)],
    })
}

/// Law: what one expansion contributes is a pure function of its parsed
/// structure. A marker whose bare text does not parse contributes nothing;
/// a safe expression contributes exactly one pedantic code-smell entry; an
/// unsafe one contributes exactly one classified entry per context
/// occurrence it references, with [`classify_context_spec`]'s severity,
/// confidence and persona for that occurrence.
pub proof fn lemma_marker_classification(raw: Seq<char>, strategy: Option<Strategy>)
    ensures
        match spec_parse(bare_of(raw)) {
            None => marker_entries(raw, strategy) == Seq::<
                (Seq<char>, Severity, Confidence, Persona),
            >::empty(),
            Some(m) => marker_entries(raw, strategy) == (if is_safe_model(m) {
                seq![(raw, Severity::Unknown, Confidence::Unknown, Persona::Pedantic)]
            } else {
                classify_entries(contexts_of_model(m), strategy)
            }),
        },
{
}

/// The views of a vector of classified entries.
pub open spec fn entry_views(v: Seq<(String, Severity, Confidence, Persona)>) -> Seq<
    (Seq<char>, Severity, Confidence, Persona),
> {
    v.map_values(|t: (String, Severity, Confidence, Persona)| (t.0@, t.1, t.2, t.3))
}

/// Detects code injection through template expansion.
pub struct TemplateInjection;

impl TemplateInjection {
    /// The rule's stable identifier.
    pub fn ident() -> (r: &'static str)
        ensures
            r@ == "template-injection"@,
    {
        "template-injection"
    }

    /// The literal-safety fold over one expression tree.
    pub fn expr_is_safe(e: &Expr) -> (r: bool)
        ensures
            r == is_safe_expr(*e),
        decreases expr_size(*e),
    {
        match e {
            Expr::Number(_) => true,
            Expr::Str(_) => true,
            Expr::Boolean(_) => true,
            Expr::Null => true,
            Expr::Star => false,
            Expr::Context { .. } => false,
            Expr::Index(_) => false,
            Expr::Call { .. } => false,
            Expr::BinOp { lhs, op, rhs } => match op {
                BinOp::Eq => true,
                BinOp::Neq => true,
                BinOp::And => Self::expr_is_safe(rhs),
                _ => Self::expr_is_safe(lhs) && Self::expr_is_safe(rhs),
            },
            Expr::UnOp { .. } => true,
        }
    }

    /// Classify one context reference found inside an expansion.
    pub fn classify_context(ctx: &str, job: &NormalJob) -> (r: Option<
        (Severity, Confidence, Persona),
    >)
        ensures
            r == classify_context_spec(ctx@, job.strategy),
    {
        proof {
            reveal_strlit("secrets.");
            reveal_strlit("inputs.");
            reveal_strlit("env.");
            reveal_strlit("github.event.");
            reveal_strlit("matrix.");
        }
        if starts_at(ctx, "secrets.", 0) {
            return None;
        }
        if safe_context(ctx) {
            return None;
        }
        if starts_at(ctx, "inputs.", 0) {
            return Some((Severity::High, Confidence::Low, Persona::Regular));
        }
        if starts_at(ctx, "env.", 0) {
            return Some((Severity::Low, Confidence::High, Persona::Regular));
        }
        if starts_at(ctx, "github.event.", 0) || str_eq(ctx, "github.ref_name") {
            return Some((Severity::High, Confidence::High, Persona::Regular));
        }
        if starts_at(ctx, "matrix.", 0) || str_eq(ctx, "matrix") {
            match &job.strategy {
                Some(s) => {
                    match &s.matrix {
                        Some(LoE::Expr(_)) => {
                            return Some((Severity::Medium, Confidence::Medium, Persona::Regular));
                        },
                        Some(LoE::Literal(m)) => {
                            if m.is_static() {
                                return None;
                            }
                            return Some((Severity::Medium, Confidence::Medium, Persona::Regular));
                        },
                        None => {
                            return None;
                        },
                    }
                },
                None => {
                    return None;
                },
            }
        }
        Some((Severity::Informational, Confidence::Low, Persona::Regular))
    }

    /// Scan a script for template expansions an attacker may influence.
    ///
    /// Exactly [`injectable_spec`]: each marker in the script contributes
    /// nothing when its expression does not parse, one pedantic code-smell
    /// entry when it is safe, and otherwise one classified entry per flagged
    /// context occurrence, in order.
    #[verifier::loop_isolation(false)]
    pub fn injectable_template_expressions(&self, run: &str, job: &NormalJob) -> (r: Vec<
        (String, Severity, Confidence, Persona),
    >)
        ensures
            entry_views(r@) == injectable_spec(run@, job.strategy),
    {
        let mut bad: Vec<(String, Severity, Confidence, Persona)> = Vec::new();
        let exprs = crate::utils::extract_expressions(run);
        let ghost spans = extract_spans(run@, 0);
        let ghost strategy = job.strategy;
        proof {
            assert(entry_views(bad@) =~= Seq::<(Seq<char>, Severity, Confidence, Persona)>::empty());
            assert(spans.skip(0) =~= spans);
        }
        let mut i: usize = 0;
        while i < exprs.len()
            invariant
                i <= exprs@.len(),
                entry_views(bad@) + spans_entries(run@, spans.skip(i as int), strategy)
                    == injectable_spec(run@, strategy),
            decreases exprs@.len() - i,
        {
            proof {
                assert(spans.skip(i as int)[0] == spans[i as int]);
                assert(spans.skip(i as int).drop_first() =~= spans.skip(i + 1));
            }
            let ghost raw_model = run@.subrange(spans[i as int].0, spans[i as int].1);
            let bare = exprs[i].0.as_bare();
            let parsed = match Expr::parse(bare.as_str()) {
                Err(_) => {
                    // A malformed expression never stops the scan.
                    proof {
                        assert(marker_entries(raw_model, strategy) =~= Seq::<(
                            Seq<char>,
                            Severity,
                            Confidence,
                            Persona,
                        )>::empty());
                    }
                    i += 1;
                    continue;
                },
                Ok(e) => e,
            };
            let ghost m = expr_view(parsed);
            if Self::expr_is_safe(&parsed) {
                // Every expansion is a code smell, even an unexploitable one.
                proof {
                    lemma_safe_view(parsed);
                }
                let ghost bv = bad@;
                bad.push(
                    (
                        exprs[i].0.as_raw().to_owned(),
                        Severity::Unknown,
                        Confidence::Unknown,
                        Persona::Pedantic,
                    ),
                );
                proof {
                    assert(entry_views(bad@) =~= entry_views(bv) + seq![
                        (raw_model, Severity::Unknown, Confidence::Unknown, Persona::Pedantic),
                    ]);
                }
                i += 1;
                continue;
            }
            proof {
                lemma_safe_view(parsed);
                lemma_contexts_view(parsed);
            }
            let contexts = parsed.contexts();
            let ghost cvs = contexts_of_model(m);
            let ghost rest = spans_entries(run@, spans.skip(i + 1), strategy);
            proof {
                assert(views_of(contexts@) == cvs);
                assert(cvs.skip(0) =~= cvs);
                assert(marker_entries(raw_model, strategy) == classify_entries(cvs, strategy));
            }
            let mut j: usize = 0;
            while j < contexts.len()
                invariant
                    j <= contexts@.len(),
                    entry_views(bad@) + classify_entries(cvs.skip(j as int), strategy) + rest
                        == injectable_spec(run@, strategy),
                decreases contexts@.len() - j,
            {
                proof {
                    assert(cvs.skip(j as int)[0] == cvs[j as int]);
                    assert(cvs.skip(j as int).drop_first() =~= cvs.skip(j + 1));
                    assert(cvs[j as int] == contexts@[j as int]@);
                }
                match Self::classify_context(contexts[j].as_str(), job) {
                    Some((severity, confidence, persona)) => {
                        let ghost bv = bad@;
                        bad.push((contexts[j].clone(), severity, confidence, persona));
                        proof {
                            assert(entry_views(bad@) =~= entry_views(bv) + seq![
                                (cvs[j as int], severity, confidence, persona),
                            ]);
                        }
                    },
                    None => {},
                }
                j += 1;
            }
            proof {
                assert(cvs.skip(contexts@.len() as int) =~= Seq::<Seq<char>>::empty());
                assert(classify_entries(Seq::<Seq<char>>::empty(), strategy) =~= Seq::<(
                    Seq<char>,
                    Severity,
                    Confidence,
                    Persona,
                )>::empty());
            }
            i += 1;
        }
        proof {
            assert(spans.skip(exprs@.len() as int) =~= Seq::<(int, int)>::empty());
            assert(spans_entries(run@, Seq::<(int, int)>::empty(), strategy) =~= Seq::<(
                Seq<char>,
                Severity,
                Confidence,
                Persona,
            )>::empty());
            assert(entry_views(bad@) =~= injectable_spec(run@, strategy));
        }
        bad
    }
}

impl TemplateInjection {
    /// Audit one step: a `run:` script, or the inline script of a
    /// `github-script` action, is scanned for injectable expansions, and
    /// each classified expansion becomes one finding anchored at the step
    /// and at the script field: one finding per entry of
    /// [`injectable_spec`], with that entry's determinations.
    #[verifier::loop_isolation(false)]
    pub fn audit_step(
        &self,
        workflow: &Workflow,
        job: &crate::models::Job,
        normal: &NormalJob,
        step: &Step,
        input: &Input,
    ) -> (r: Result<Vec<Finding>, BuildError>)
        requires
            input.wf(),
        ensures
            !(r matches Err(BuildError::NoPrimaryLocation)),
            (input_route_resolves(*input, step_route(*job, *step)) && input_route_resolves(
                *input,
                script_route(*job, *step),
            )) ==> r is Ok,
            match r {
                Ok(v) => ({
                    let entries = match step_script(step.body) {
                        Some(sc) => injectable_spec(sc, normal.strategy),
                        None => Seq::empty(),
                    };
                    &&& v@.len() == entries.len()
                    &&& (forall|k: int|
                        0 <= k < v@.len() ==> {
                            let f = #[trigger] v@[k];
                            &&& f.ident@ == "template-injection"@
                            &&& f.determinations == (Determinations {
                                confidence: entries[k].2,
                                severity: entries[k].1,
                                persona: entries[k].3,
                            })
                            &&& f.locations@[0].symbolic.primary
                            &&& crate::finding::route_model(f.locations@[0].symbolic.route)
                                == step_route(*job, *step)
                        })
                }),
                Err(_) => !input_route_resolves(*input, step_route(*job, *step))
                    || !input_route_resolves(*input, script_route(*job, *step)),
            },
    {
        proof {
            reveal_strlit("actions/github-script");
        }
        let mut findings: Vec<Finding> = Vec::new();
        let (script, from_script): (String, bool) = match &step.body {
            StepBody::Uses { uses, with } => {
                if starts_at(uses.as_str(), "actions/github-script", 0) {
                    match with.get("script") {
                        Some(v) => (v.to_text(), true),
                        None => {
                            return Ok(findings);
                        },
                    }
                } else {
                    return Ok(findings);
                }
            },
            StepBody::Run { run, .. } => (run.clone(), false),
        };
        proof {
            assert(step_script(step.body) == Some(script@));
        }
        let bad = self.injectable_template_expressions(script.as_str(), normal);
        let ghost entries = injectable_spec(script@, normal.strategy);
        proof {
            assert(entry_views(bad@) == entries);
        }
        let job_location = job.location(&workflow.location());
        let mut i: usize = 0;
        while i < bad.len()
            invariant
                i <= bad@.len(),
                findings@.len() == i,
                input.wf(),
                forall|k: int|
                    0 <= k < findings@.len() ==> {
                        let f = #[trigger] findings@[k];
                        &&& f.ident@ == "template-injection"@
                        &&& f.determinations == (Determinations {
                            confidence: entries[k].2,
                            severity: entries[k].1,
                            persona: entries[k].3,
                        })
                        &&& f.locations@[0].symbolic.primary
                        &&& crate::finding::route_model(f.locations@[0].symbolic.route)
                            == step_route(*job, *step)
                    },
            decreases bad@.len() - i,
        {
            proof {
                assert(entries[i as int] == (bad@[i as int].0@, bad@[i as int].1, bad@[i as int].2,
                bad@[i as int].3));
            }
            let mut script_keys: Vec<RouteComponent> = Vec::new();
            if from_script {
                script_keys.push(RouteComponent::Key("with".to_owned()));
                script_keys.push(RouteComponent::Key("script".to_owned()));
            } else {
                script_keys.push(RouteComponent::Key("run".to_owned()));
            }
            let mut annotation = bad[i].0.clone();
            annotation.append(" may expand into attacker-controllable code");
            let primary_loc = step.location(&job_location).primary();
            let script_loc = step.location(&job_location).with_keys(&script_keys).annotated(
                annotation,
            );
            let ghost pr = crate::finding::route_model(primary_loc.route);
            let ghost sr = crate::finding::route_model(script_loc.route);
            proof {
                assert(pr =~= step_route(*job, *step));
                assert(crate::finding::route_model(
                    crate::finding::Route { components: script_keys },
                ) =~= (match step.body {
                    StepBody::Uses { .. } => seq![(true, "with"@, 0int), (true, "script"@, 0int)],
                    StepBody::Run { .. } => seq![(true, "run"@, 0int)],
                }));
                assert(sr =~= script_route(*job, *step));
            }
            let b = FindingBuilder::new(
                "template-injection",
                "code injection via template expansion",
                "https://docs.zizmor.sh/audits#template-injection",
            ).severity(bad[i].1).confidence(bad[i].2).persona(bad[i].3).add_location(
                primary_loc,
            ).add_location(script_loc);
            let ghost blocs = b.locations@;
            let built = b.build(input);
            match built {
                Ok(f) => {
                    findings.push(f);
                },
                Err(e) => {
                    proof {
                        crate::finding::lemma_some_primary_here(blocs, b.raw_locations@, 0);
                        if e is Unresolvable {
                            crate::finding::lemma_unresolvable_witness(*input, blocs);
                            let bi = choose|bi: int|
                                0 <= bi < blocs.len() && !input_route_resolves(
                                    *input,
                                    crate::finding::route_model(blocs[bi].route),
                                );
                            assert(bi == 0 || bi == 1);
                        }
                    }
                    return Err(e);
                },
            }
            i += 1;
        }
        proof {
            assert(findings@.len() == entries.len());
        }
        Ok(findings)
    }
}

} // verus!
