//! Flags `contains(...)` condition checks that an attacker can bypass: a
//! membership test of a string literal against a context the attacker may
//! control matches unintended values by substring.

use vstd::prelude::*;
use vstd::string::*;
use crate::expr::{
    Expr, ExprModel, expr_size, expr_list_size, expr_view, exprs_view, lemma_expr_list_size_elem,
    lemma_exprs_view_index, spec_parse,
};
use crate::finding::Severity;
use crate::text::{matches_at, starts_at, str_eq};
use crate::audit::secret_without_env::step_route;
use crate::document::{Input, input_route_resolves};
use crate::finding::{BuildError, Confidence, Finding, FindingBuilder, RouteComponent};
use crate::models::{Job, NormalJob, Workflow};
use crate::utils::{ExplicitExpr, bare_of, curly_form};

verus! {

/// The content of a string-literal node, empty for other nodes.
pub open spec fn str_content(e: Expr) -> Seq<char> {
    match e {
        Expr::Str(s) => s@,
        _ => Seq::empty(),
    }
}

/// The raw text of a context node, empty for other nodes.
pub open spec fn ctx_raw(e: Expr) -> Seq<char> {
    match e {
        Expr::Context { raw, .. } => raw@,
        _ => Seq::empty(),
    }
}

/// Whether an argument list is exactly a string literal followed by a
/// context reference: the bypassable shape.
pub open spec fn is_lit_ctx_pair(args: Seq<Expr>) -> bool {
    args.len() == 2 && args[0] is Str && args[1] is Context
}

/// Every bypassable `contains` occurrence in the expression: the pairs of
/// (string literal, context raw text), in left-to-right order. A call in the
/// bypassable shape is reported and not descended into; every other node is
/// searched structurally.
pub open spec fn insecure_contains_of(e: Expr) -> Seq<(Seq<char>, Seq<char>)>
    decreases e, 0int,
{
    match e {
        Expr::Call { func, args } => if func@ == "contains"@ && is_lit_ctx_pair(args@) {
            seq![(str_content(args@[0]), ctx_raw(args@[1]))]
        } else {
            insecure_contains_of_list(args@)
        },
        Expr::Context { raw, components } => insecure_contains_of_list(components@),
        Expr::Index(inner) => insecure_contains_of(*inner),
        Expr::BinOp { lhs, op, rhs } => insecure_contains_of(*lhs) + insecure_contains_of(*rhs),
        Expr::UnOp { op, expr } => insecure_contains_of(*expr),
        _ => Seq::empty(),
    }
}

pub open spec fn insecure_contains_of_list(es: Seq<Expr>) -> Seq<(Seq<char>, Seq<char>)>
    decreases es, 1int,
{
    if es.len() == 0 {
        Seq::empty()
    } else {
        insecure_contains_of(es[0]) + insecure_contains_of_list(es.drop_first())
    }
}

/// The views of a vector of string pairs.
pub open spec fn pair_views(v: Seq<(String, String)>) -> Seq<(Seq<char>, Seq<char>)> {
    v.map_values(|t: (String, String)| (t.0@, t.1@))
}

proof fn lemma_insecure_list_snoc(es: Seq<Expr>, i: int)
    requires
        0 <= i < es.len(),
    ensures
        insecure_contains_of_list(es.take(i + 1)) == insecure_contains_of_list(es.take(i))
            + insecure_contains_of(es[i]),
    decreases i,
{
    let a = es.take(i + 1);
    let b = es.take(i);
    if i == 0 {
        assert(a.drop_first() =~= Seq::<Expr>::empty());
        assert(a[0] == es[0]);
        assert(insecure_contains_of_list(a) == insecure_contains_of(a[0])
            + insecure_contains_of_list(a.drop_first()));
        assert(insecure_contains_of_list(Seq::<Expr>::empty()) == Seq::<(Seq<char>, Seq<
            char,
        >)>::empty());
        assert(insecure_contains_of_list(b) == Seq::<(Seq<char>, Seq<char>)>::empty());
        assert(insecure_contains_of_list(a) =~= insecure_contains_of_list(b) + insecure_contains_of(
            es[0],
        ));
    } else {
        lemma_insecure_list_snoc(es.drop_first(), i - 1);
        assert(a.drop_first() =~= es.drop_first().take(i));
        assert(b.drop_first() =~= es.drop_first().take(i - 1));
        assert(es.drop_first()[i - 1] == es[i]);
        assert(a[0] == es[0]);
        assert(b[0] == es[0]);
        assert(insecure_contains_of_list(a) == insecure_contains_of(a[0])
            + insecure_contains_of_list(a.drop_first()));
        assert(insecure_contains_of_list(b) == insecure_contains_of(b[0])
            + insecure_contains_of_list(b.drop_first()));
        assert(insecure_contains_of_list(a) =~= insecure_contains_of_list(b) + insecure_contains_of(
            es[i],
        ));
    }
}


/// The same walk over the model, mirroring [`insecure_contains_of`].
pub open spec fn insecure_model(m: ExprModel) -> Seq<(Seq<char>, Seq<char>)>
    decreases m, 0int,
{
    match m {
        ExprModel::Call { func, args } => if func == "contains"@ && args.len() == 2 && args[0]
            is Str && args[1] is Context {
            seq![(str_content_model(args[0]), ctx_raw_model(args[1]))]
        } else {
            insecure_model_list(args)
        },
        ExprModel::Context { raw, components } => insecure_model_list(components),
        ExprModel::Index(inner) => insecure_model(*inner),
        ExprModel::BinOp { lhs, op, rhs } => insecure_model(*lhs) + insecure_model(*rhs),
        ExprModel::UnOp { op, expr } => insecure_model(*expr),
        _ => Seq::empty(),
    }
}

pub open spec fn insecure_model_list(ms: Seq<ExprModel>) -> Seq<(Seq<char>, Seq<char>)>
    decreases ms, 1int,
{
    if ms.len() == 0 {
        Seq::empty()
    } else {
        insecure_model(ms[0]) + insecure_model_list(ms.drop_first())
    }
}

pub open spec fn str_content_model(m: ExprModel) -> Seq<char> {
    match m {
        ExprModel::Str(t) => t,
        _ => Seq::empty(),
    }
}

pub open spec fn ctx_raw_model(m: ExprModel) -> Seq<char> {
    match m {
        ExprModel::Context { raw, .. } => raw,
        _ => Seq::empty(),
    }
}

/// The walk over a tree equals the walk over its model.
pub proof fn lemma_insecure_view(e: Expr)
    ensures
        insecure_contains_of(e) == insecure_model(expr_view(e)),
    decreases e, 0int,
{
    match e {
        Expr::Call { func, args } => {
            lemma_exprs_view_index(args@);
            lemma_insecure_view_list(args@);
            if func@ == "contains"@ && is_lit_ctx_pair(args@) {
                assert(str_content_model(exprs_view(args@)[0]) == str_content(args@[0]));
                assert(ctx_raw_model(exprs_view(args@)[1]) == ctx_raw(args@[1]));
            }
        },
        Expr::Context { raw, components } => {
            lemma_insecure_view_list(components@);
        },
        Expr::Index(inner) => {
            lemma_insecure_view(*inner);
        },
        Expr::BinOp { lhs, op, rhs } => {
            lemma_insecure_view(*lhs);
            lemma_insecure_view(*rhs);
        },
        Expr::UnOp { op, expr } => {
            lemma_insecure_view(*expr);
        },
        _ => {},
    }
}

pub proof fn lemma_insecure_view_list(es: Seq<Expr>)
    ensures
        insecure_model_list(exprs_view(es)) == insecure_contains_of_list(es),
    decreases es, 1int,
{
    if es.len() > 0 {
        lemma_insecure_view(es[0]);
        lemma_insecure_view_list(es.drop_first());
        assert(exprs_view(es)[0] == expr_view(es[0]));
        assert(exprs_view(es).drop_first() =~= exprs_view(es.drop_first()));
        assert(exprs_view(es).len() > 0);
        assert(insecure_model_list(exprs_view(es)) == insecure_model(exprs_view(es)[0])
            + insecure_model_list(exprs_view(es).drop_first()));
    }
}

/// The condition's bare expression text: the marker interior when the text
/// is a whole marker, the text itself otherwise.
pub open spec fn bare_condition(text: Seq<char>) -> Seq<char> {
    if curly_form(text) {
        bare_of(text)
    } else {
        text
    }
}

/// The severity-tagged occurrences, in order.
pub open spec fn tag_severities(pairs: Seq<(Seq<char>, Seq<char>)>) -> Seq<(Severity, Seq<char>)>
    decreases pairs.len(),
{
    if pairs.len() == 0 {
        Seq::empty()
    } else {
        seq![(bypassable_severity(pairs[0].1), pairs[0].1)] + tag_severities(pairs.drop_first())
    }
}

/// Everything the rule reports for one condition text: nothing when the
/// bare text does not parse, otherwise one severity-tagged entry per
/// bypassable occurrence.
pub open spec fn insecure_contains_spec(text: Seq<char>) -> Seq<(Severity, Seq<char>)> {
    match spec_parse(bare_condition(text)) {
        None => Seq::empty(),
        Some(m) => tag_severities(insecure_model(m)),
    }
}

/// Contexts an attacker can typically control, exactly or by dotted family.
pub open spec fn is_user_controllable(ctx: Seq<char>) -> bool {
    ||| ctx == "env.GITHUB_ACTOR"@
    ||| ctx == "env.GITHUB_BASE_REF"@
    ||| ctx == "env.GITHUB_HEAD_REF"@
    ||| ctx == "env.GITHUB_REF"@
    ||| ctx == "env.GITHUB_REF_NAME"@
    ||| ctx == "env.GITHUB_SHA"@
    ||| ctx == "env.GITHUB_TRIGGERING_ACTOR"@
    ||| ctx == "github.actor"@
    ||| ctx == "github.base_ref"@
    ||| ctx == "github.head_ref"@
    ||| ctx == "github.ref"@
    ||| ctx == "github.ref_name"@
    ||| ctx == "github.sha"@
    ||| ctx == "github.triggering_actor"@
    ||| ctx == "inputs."@
    ||| matches_at(ctx, "inputs."@, 0)
}

fn user_controllable(ctx: &str) -> (r: bool)
    ensures
        r == is_user_controllable(ctx@),
{
    proof {
        reveal_strlit("inputs.");
    }
    str_eq(ctx, "env.GITHUB_ACTOR") || str_eq(ctx, "env.GITHUB_BASE_REF") || str_eq(
        ctx,
        "env.GITHUB_HEAD_REF",
    ) || str_eq(ctx, "env.GITHUB_REF") || str_eq(ctx, "env.GITHUB_REF_NAME") || str_eq(
        ctx,
        "env.GITHUB_SHA",
    ) || str_eq(ctx, "env.GITHUB_TRIGGERING_ACTOR") || str_eq(ctx, "github.actor") || str_eq(
        ctx,
        "github.base_ref",
    ) || str_eq(ctx, "github.head_ref") || str_eq(ctx, "github.ref") || str_eq(
        ctx,
        "github.ref_name",
    ) || str_eq(ctx, "github.sha") || str_eq(ctx, "github.triggering_actor") || str_eq(
        ctx,
        "inputs.",
    ) || starts_at(ctx, "inputs.", 0)
}

/// The severity a bypassable `contains` gets for the given context.
pub open spec fn bypassable_severity(ctx: Seq<char>) -> Severity {
    if is_user_controllable(ctx) {
        Severity::High
    } else {
        Severity::Informational
    }
}


/// The severities of the entries one optional condition contributes, in
/// order: exactly the severities [`insecure_contains_spec`] assigns.
pub open spec fn cond_sevs(if_expr: Option<String>) -> Seq<Severity> {
    match if_expr {
        Some(c) => insecure_contains_spec(c@).map_values(|t: (Severity, Seq<char>)| t.0),
        None => Seq::empty(),
    }
}

/// The severities contributed by the step conditions at or after `from`.
pub open spec fn steps_cond_sevs(steps: Seq<crate::models::Step>, from: int) -> Seq<Severity>
    decreases steps.len() - from,
    when 0 <= from <= steps.len()
{
    if from >= steps.len() {
        Seq::empty()
    } else {
        cond_sevs(steps[from].if_expr) + steps_cond_sevs(steps, from + 1)
    }
}

/// The severities of everything the rule reports for one job, in order.
pub open spec fn bypassable_sevs(if_expr: Option<String>, steps: Seq<crate::models::Step>) -> Seq<
    Severity,
> {
    cond_sevs(if_expr) + steps_cond_sevs(steps, 0)
}

/// The severities of a sequence of findings, in order.
pub open spec fn sevs_of(v: Seq<Finding>) -> Seq<Severity> {
    v.map_values(|f: Finding| f.determinations.severity)
}

/// The route of a job's `if:` condition.
pub open spec fn job_if_route(job: Job) -> Seq<(bool, Seq<char>, int)> {
    seq![(true, "jobs"@, 0int), (true, job.id_spec(), 0int), (true, "if"@, 0int)]
}

/// Law: classification is a pure function of the parsed structure. Two
/// condition texts whose bare forms parse to the same tree — for example a
/// text and the re-parsed print of its tree — classify identically.
pub proof fn lemma_classification_respects_parse(t1: Seq<char>, t2: Seq<char>)
    requires
        spec_parse(bare_condition(t1)) == spec_parse(bare_condition(t2)),
    ensures
        insecure_contains_spec(t1) == insecure_contains_spec(t2),
{
}

/// Detects bypassable `contains(...)` condition checks.
pub struct BypassableContainsConditions;

#[verifier::loop_isolation(false)]
fn walk_acc(e: &Expr, out: &mut Vec<(String, String)>)
    ensures
        pair_views(final(out)@) == pair_views(old(out)@) + insecure_contains_of(*e),
    decreases expr_size(*e),
{
    match e {
        Expr::Call { func, args } => {
            let shape = if args.len() == 2 {
                let first_is_str = match &args[0] {
                    Expr::Str(_) => true,
                    _ => false,
                };
                let second_is_ctx = match &args[1] {
                    Expr::Context { .. } => true,
                    _ => false,
                };
                first_is_str && second_is_ctx
            } else {
                false
            };
            if shape && str_eq(func.as_str(), "contains") {
                let lit = match &args[0] {
                    Expr::Str(s) => s.clone(),
                    _ => String::new(),
                };
                let raw = match &args[1] {
                    Expr::Context { raw, .. } => raw.clone(),
                    _ => String::new(),
                };
                out.push((lit, raw));
                proof {
                    assert(pair_views(out@) =~= pair_views(old(out)@) + insecure_contains_of(*e));
                }
            } else {
                let ghost mid = out@;
                let mut i: usize = 0;
                while i < args.len()
                    invariant
                        i <= args@.len(),
                        pair_views(out@) == pair_views(mid) + insecure_contains_of_list(
                            args@.take(i as int),
                        ),
                    decreases args@.len() - i,
                {
                    proof {
                        lemma_expr_list_size_elem(args@, i as int);
                        assert(expr_size(*e) == 1 + expr_list_size(args@));
                    }
                    walk_acc(&args[i], out);
                    proof {
                        lemma_insecure_list_snoc(args@, i as int);
                    }
                    i += 1;
                }
                proof {
                    assert(args@.take(args@.len() as int) =~= args@);
                    assert(pair_views(out@) =~= pair_views(old(out)@) + insecure_contains_of(*e));
                }
            }
        },
        Expr::Context { raw, components } => {
            let ghost mid = out@;
            let mut i: usize = 0;
            while i < components.len()
                invariant
                    i <= components@.len(),
                    pair_views(out@) == pair_views(mid) + insecure_contains_of_list(
                        components@.take(i as int),
                    ),
                decreases components@.len() - i,
            {
                proof {
                    lemma_expr_list_size_elem(components@, i as int);
                    assert(expr_size(*e) == 1 + expr_list_size(components@));
                }
                walk_acc(&components[i], out);
                proof {
                    lemma_insecure_list_snoc(components@, i as int);
                }
                i += 1;
            }
            proof {
                assert(components@.take(components@.len() as int) =~= components@);
                assert(pair_views(out@) =~= pair_views(old(out)@) + insecure_contains_of(*e));
            }
        },
        Expr::Index(inner) => {
            walk_acc(inner, out);
        },
        Expr::BinOp { lhs, op, rhs } => {
            walk_acc(lhs, out);
            walk_acc(rhs, out);
            proof {
                assert(pair_views(out@) =~= pair_views(old(out)@) + insecure_contains_of(*e));
            }
        },
        Expr::UnOp { op, expr } => {
            walk_acc(expr, out);
        },
        _ => {
            proof {
                assert(pair_views(out@) =~= pair_views(old(out)@) + insecure_contains_of(*e));
            }
        },
    }
}

impl BypassableContainsConditions {
    /// The rule's stable identifier.
    pub fn ident() -> (r: &'static str)
        ensures
            r@ == "bypassable-contains-conditions"@,
    {
        "bypassable-contains-conditions"
    }

    /// Every bypassable `contains` occurrence in the tree, as
    /// (string literal, context raw text) pairs, in order.
    pub fn walk_tree_for_insecure_contains(e: &Expr) -> (r: Vec<(String, String)>)
        ensures
            pair_views(r@) == insecure_contains_of(*e),
    {
        let mut out: Vec<(String, String)> = Vec::new();
        proof {
            assert(pair_views(out@) =~= Seq::<(Seq<char>, Seq<char>)>::empty());
        }
        walk_acc(e, &mut out);
        out
    }

    /// The bypassable `contains` occurrences of one condition text.
    ///
    /// Exactly [`insecure_contains_spec`]: the optional marker wrapper is
    /// stripped, the bare text parsed; a text that fails to parse yields
    /// nothing, and every occurrence in a parsed tree yields one entry, its
    /// severity high exactly for a context an attacker can typically
    /// control.
    #[verifier::loop_isolation(false)]
    pub fn insecure_contains(expr: &str) -> (r: Vec<(Severity, String)>)
        ensures
            r@.map_values(|t: (Severity, String)| (t.0, t.1@)) == insecure_contains_spec(expr@),
    {
        let bare = match ExplicitExpr::from_curly(expr) {
            Some(x) => x.as_bare(),
            None => expr.to_owned(),
        };
        proof {
            assert(bare@ == bare_condition(expr@));
        }
        let parsed = match Expr::parse(bare.as_str()) {
            Err(_) => {
                let r: Vec<(Severity, String)> = Vec::new();
                proof {
                    assert(r@.map_values(|t: (Severity, String)| (t.0, t.1@))
                        =~= insecure_contains_spec(expr@));
                }
                return r;
            },
            Ok(e) => e,
        };
        let ghost m = expr_view(parsed);
        let pairs = Self::walk_tree_for_insecure_contains(&parsed);
        let ghost pm = insecure_model(m);
        proof {
            lemma_insecure_view(parsed);
            assert(pair_views(pairs@) == pm);
            assert(pm.skip(0) =~= pm);
        }
        let mut out: Vec<(Severity, String)> = Vec::new();
        let mut i: usize = 0;
        proof {
            assert(out@.map_values(|t: (Severity, String)| (t.0, t.1@)) =~= Seq::<(
                Severity,
                Seq<char>,
            )>::empty());
        }
        while i < pairs.len()
            invariant
                i <= pairs@.len(),
                out@.map_values(|t: (Severity, String)| (t.0, t.1@)) + tag_severities(
                    pm.skip(i as int),
                ) == insecure_contains_spec(expr@),
            decreases pairs@.len() - i,
        {
            proof {
                assert(pm.skip(i as int)[0] == pm[i as int]);
                assert(pm.skip(i as int).drop_first() =~= pm.skip(i + 1));
                assert(pm[i as int] == (pairs@[i as int].0@, pairs@[i as int].1@));
            }
            let severity = if user_controllable(pairs[i].1.as_str()) {
                Severity::High
            } else {
                Severity::Informational
            };
            let ghost ov = out@;
            out.push((severity, pairs[i].1.clone()));
            proof {
                assert(out@.map_values(|t: (Severity, String)| (t.0, t.1@)) =~= ov.map_values(
                    |t: (Severity, String)| (t.0, t.1@),
                ) + seq![(bypassable_severity(pm[i as int].1), pm[i as int].1)]);
            }
            i += 1;
        }
        proof {
            assert(pm.skip(pairs@.len() as int) =~= Seq::<(Seq<char>, Seq<char>)>::empty());
            assert(tag_severities(Seq::<(Seq<char>, Seq<char>)>::empty()) =~= Seq::<(
                Severity,
                Seq<char>,
            )>::empty());
            assert(out@.map_values(|t: (Severity, String)| (t.0, t.1@)) =~= insecure_contains_spec(
                expr@,
            ));
        }
        out
    }
}

impl BypassableContainsConditions {
    /// Audit one normal job: the job's own condition and each step's
    /// condition are checked; exactly one high-confidence finding per
    /// bypassable occurrence, anchored at the condition.
    #[verifier::loop_isolation(false)]
    pub fn audit_normal_job(
        &self,
        workflow: &Workflow,
        job: &Job,
        normal: &NormalJob,
        input: &Input,
    ) -> (r: Result<Vec<Finding>, BuildError>)
        requires
            input.wf(),
        ensures
            !(r matches Err(BuildError::NoPrimaryLocation)),
            match r {
                Ok(v) => sevs_of(v@) == bypassable_sevs(normal.if_expr, normal.steps@) && (forall|
                    k: int,
                |
                    0 <= k < v@.len() ==> {
                        let f = #[trigger] v@[k];
                        &&& f.ident@ == "bypassable-contains-conditions"@
                        &&& f.determinations.confidence == Confidence::High
                        &&& f.locations@[0].symbolic.primary
                    }),
                Err(_) => !input_route_resolves(
                    *input,
                    job_if_route(*job) ,
                ) || (exists|i: int|
                    0 <= i < normal.steps@.len() && !input_route_resolves(
                        *input,
                        step_route(*job, #[trigger] normal.steps@[i]) + seq![(true, "if"@, 0int)],
                    )),
            },
    {
        let mut findings: Vec<Finding> = Vec::new();
        let ghost stepsv = normal.steps@;
        let job_location = job.location(&workflow.location());
        match &normal.if_expr {
            Some(cond) => {
                let occurrences = Self::insecure_contains(cond.as_str());
                let ghost sv = cond_sevs(normal.if_expr);
                proof {
                    assert(occurrences@.len() == insecure_contains_spec(cond@).len());
                    assert(sevs_of(findings@) =~= Seq::<Severity>::empty());
                    assert(sv.skip(0) =~= sv);
                }
                let mut k: usize = 0;
                while k < occurrences.len()
                    invariant
                        k <= occurrences@.len(),
                        input.wf(),
                        findings@.len() == k,
                        occurrences@.len() == sv.len(),
                        sevs_of(findings@) + sv.skip(k as int) == sv,
                        forall|j: int|
                            0 <= j < findings@.len() ==> {
                                let f = #[trigger] findings@[j];
                                &&& f.ident@ == "bypassable-contains-conditions"@
                                &&& f.determinations.confidence == Confidence::High
                                &&& f.locations@[0].symbolic.primary
                            },
                    decreases occurrences@.len() - k,
                {
                    proof {
                        assert(sv[k as int] == occurrences@[k as int].0);
                        assert(sv.skip(k as int)[0] == sv[k as int]);
                        assert(sv.skip(k as int).drop_first() =~= sv.skip(k + 1));
                    }
                    let mut if_keys: Vec<RouteComponent> = Vec::new();
                    if_keys.push(RouteComponent::Key("if".to_owned()));
                    let mut annotation =
                        "contains(..) condition can be bypassed if attacker can control '"
                        .to_owned();
                    annotation.append(occurrences[k].1.as_str());
                    annotation.append("'");
                    let loc = job.location(&workflow.location()).with_keys(&if_keys).primary()
                        .annotated(annotation);
                    let ghost lr = crate::finding::route_model(loc.route);
                    proof {
                        assert(lr =~= job_if_route(*job));
                    }
                    let b = FindingBuilder::new(
                        "bypassable-contains-conditions",
                        "bypassable contains conditions checks",
                        "https://docs.zizmor.sh/audits#bypassable-contains-conditions",
                    ).severity(occurrences[k].0).confidence(Confidence::High).add_location(loc);
                    let ghost blocs = b.locations@;
                    let ghost fv = findings@;
                    match b.build(input) {
                        Ok(f) => {
                            findings.push(f);
                            proof {
                                assert(sevs_of(findings@) =~= sevs_of(fv) + seq![
                                    occurrences@[k as int].0,
                                ]);
                            }
                        },
                        Err(e) => {
                            proof {
                                crate::finding::lemma_some_primary_here(blocs, b.raw_locations@, 0);
                                if e is Unresolvable {
                                    crate::finding::lemma_unresolvable_witness(*input, blocs);
                                    let bi = choose|bi: int|
                                        0 <= bi < blocs.len() && !input_route_resolves(
                                            *input,
                                            crate::finding::route_model(blocs[bi].route),
                                        );
                                    assert(bi == 0);
                                }
                            }
                            return Err(e);
                        },
                    }
                    k += 1;
                }
                proof {
                    assert(sv.skip(sv.len() as int) =~= Seq::<Severity>::empty());
                    assert(sevs_of(findings@) =~= sv);
                }
            },
            None => {},
        }
        proof {
            assert(sevs_of(findings@) =~= cond_sevs(normal.if_expr));
        }
        let mut si: usize = 0;
        while si < normal.steps.len()
            invariant
                si <= stepsv.len(),
                input.wf(),
                sevs_of(findings@) + steps_cond_sevs(stepsv, si as int) == bypassable_sevs(
                    normal.if_expr,
                    stepsv,
                ),
                forall|j: int|
                    0 <= j < findings@.len() ==> {
                        let f = #[trigger] findings@[j];
                        &&& f.ident@ == "bypassable-contains-conditions"@
                        &&& f.determinations.confidence == Confidence::High
                        &&& f.locations@[0].symbolic.primary
                    },
            decreases stepsv.len() - si,
        {
            let step = &normal.steps[si];
            match &step.if_expr {
                Some(cond) => {
                    let occurrences = Self::insecure_contains(cond.as_str());
                    let ghost sv = cond_sevs(stepsv[si as int].if_expr);
                    let ghost rest = steps_cond_sevs(stepsv, si + 1);
                    proof {
                        assert(occurrences@.len() == insecure_contains_spec(cond@).len());
                        assert(sv.skip(0) =~= sv);
                    }
                    let mut k: usize = 0;
                    while k < occurrences.len()
                        invariant
                            k <= occurrences@.len(),
                            input.wf(),
                            si < stepsv.len(),
                            occurrences@.len() == sv.len(),
                            sevs_of(findings@) + sv.skip(k as int) + rest == bypassable_sevs(
                                normal.if_expr,
                                stepsv,
                            ),
                            forall|j: int|
                                0 <= j < findings@.len() ==> {
                                    let f = #[trigger] findings@[j];
                                    &&& f.ident@ == "bypassable-contains-conditions"@
                                    &&& f.determinations.confidence == Confidence::High
                                    &&& f.locations@[0].symbolic.primary
                                },
                        decreases occurrences@.len() - k,
                    {
                        proof {
                            assert(sv[k as int] == occurrences@[k as int].0);
                            assert(sv.skip(k as int)[0] == sv[k as int]);
                            assert(sv.skip(k as int).drop_first() =~= sv.skip(k + 1));
                        }
                        let mut if_keys: Vec<RouteComponent> = Vec::new();
                        if_keys.push(RouteComponent::Key("if".to_owned()));
                        let mut annotation =
                            "contains(..) condition can be bypassed if attacker can control '"
                            .to_owned();
                        annotation.append(occurrences[k].1.as_str());
                        annotation.append("'");
                        let loc = step.location(&job_location).with_keys(&if_keys).primary()
                            .annotated(annotation);
                        let ghost lr = crate::finding::route_model(loc.route);
                        proof {
                            assert(lr =~= step_route(*job, stepsv[si as int]) + seq![
                                (true, "if"@, 0int),
                            ]);
                        }
                        let b = FindingBuilder::new(
                            "bypassable-contains-conditions",
                            "bypassable contains conditions checks",
                            "https://docs.zizmor.sh/audits#bypassable-contains-conditions",
                        ).severity(occurrences[k].0).confidence(Confidence::High).add_location(loc);
                        let ghost blocs = b.locations@;
                        let ghost fv = findings@;
                        match b.build(input) {
                            Ok(f) => {
                                findings.push(f);
                                proof {
                                    assert(sevs_of(findings@) =~= sevs_of(fv) + seq![
                                        occurrences@[k as int].0,
                                    ]);
                                }
                            },
                            Err(e) => {
                                proof {
                                    crate::finding::lemma_some_primary_here(
                                        blocs,
                                        b.raw_locations@,
                                        0,
                                    );
                                    if e is Unresolvable {
                                        crate::finding::lemma_unresolvable_witness(*input, blocs);
                                        let bi = choose|bi: int|
                                            0 <= bi < blocs.len() && !input_route_resolves(
                                                *input,
                                                crate::finding::route_model(blocs[bi].route),
                                            );
                                        assert(bi == 0);
                                    }
                                }
                                return Err(e);
                            },
                        }
                        k += 1;
                    }
                    proof {
                        assert(sv.skip(sv.len() as int) =~= Seq::<Severity>::empty());
                    }
                },
                None => {},
            }
            si += 1;
        }
        proof {
            assert(steps_cond_sevs(stepsv, stepsv.len() as int) =~= Seq::<Severity>::empty());
            assert(sevs_of(findings@) =~= bypassable_sevs(normal.if_expr, stepsv));
        }
        Ok(findings)
    }
}

} // verus!
