//! Flags expansions that bypass secret redaction: decoding a secret with
//! `fromJSON` mutates its value, so the runner no longer recognizes and
//! masks it in logs.

use vstd::prelude::*;
use vstd::string::*;
use crate::expr::{
    Expr, ExprModel, child_of_spec, context_child_of, expr_size, expr_list_size, expr_view,
    exprs_view, lemma_expr_list_size_elem, lemma_exprs_view_index, spec_parse,
};
use crate::utils::{bare_of, extract_spans};
use crate::document::Input;
use crate::finding::{BuildError, Confidence, Finding, FindingBuilder, Location, Severity};
use crate::text::{eq_ignore_case, lower_seq};

verus! {

/// Whether an argument draws from the `secrets` context, itself or a dotted
/// child, ignoring ASCII case.
pub open spec fn is_secrets_rooted(e: Expr) -> bool {
    match e {
        Expr::Context { raw, .. } => child_of_spec(raw@, "secrets"@),
        _ => false,
    }
}

/// How many redaction-bypassing decodes the expression holds: a `fromJSON`
/// call (any ASCII case) over a secrets-rooted context counts once and is
/// not descended into; every other node is searched structurally.
pub open spec fn secret_leakages_count(e: Expr) -> nat
    decreases e, 0int,
{
    match e {
        Expr::Call { func, args } => if lower_seq(func@) == lower_seq("fromJSON"@) && (exists|
            i: int,
        |
            0 <= i < args@.len() && is_secrets_rooted(#[trigger] args@[i])) {
            1
        } else {
            secret_leakages_count_list(args@)
        },
        Expr::Context { raw, components } => secret_leakages_count_list(components@),
        Expr::Index(inner) => secret_leakages_count(*inner),
        Expr::BinOp { lhs, op, rhs } => secret_leakages_count(*lhs) + secret_leakages_count(*rhs),
        Expr::UnOp { op, expr } => secret_leakages_count(*expr),
        _ => 0,
    }
}

pub open spec fn secret_leakages_count_list(es: Seq<Expr>) -> nat
    decreases es, 1int,
{
    if es.len() == 0 {
        0
    } else {
        secret_leakages_count(es[0]) + secret_leakages_count_list(es.drop_first())
    }
}

proof fn lemma_leakages_count_snoc(es: Seq<Expr>, i: int)
    requires
        0 <= i < es.len(),
    ensures
        secret_leakages_count_list(es.take(i + 1)) == secret_leakages_count_list(es.take(i))
            + secret_leakages_count(es[i]),
    decreases i,
{
    let a = es.take(i + 1);
    let b = es.take(i);
    if i == 0 {
        assert(a.drop_first() =~= Seq::<Expr>::empty());
        assert(a[0] == es[0]);
        assert(secret_leakages_count_list(a) == secret_leakages_count(a[0]) + secret_leakages_count_list(a.drop_first()));
        assert(secret_leakages_count_list(Seq::<Expr>::empty()) == 0);
        assert(secret_leakages_count_list(b) == 0);
    } else {
        lemma_leakages_count_snoc(es.drop_first(), i - 1);
        assert(a.drop_first() =~= es.drop_first().take(i));
        assert(b.drop_first() =~= es.drop_first().take(i - 1));
        assert(es.drop_first()[i - 1] == es[i]);
        assert(a[0] == es[0]);
        assert(b[0] == es[0]);
        assert(secret_leakages_count_list(a) == secret_leakages_count(a[0]) + secret_leakages_count_list(a.drop_first()));
        assert(secret_leakages_count_list(b) == secret_leakages_count(b[0]) + secret_leakages_count_list(b.drop_first()));
    }
}


/// The same count over the model, mirroring [`secret_leakages_count`].
pub open spec fn is_secrets_rooted_model(m: ExprModel) -> bool {
    match m {
        ExprModel::Context { raw, .. } => child_of_spec(raw, "secrets"@),
        _ => false,
    }
}

pub open spec fn leakages_count_model(m: ExprModel) -> nat
    decreases m, 0int,
{
    match m {
        ExprModel::Call { func, args } => if lower_seq(func) == lower_seq("fromJSON"@) && (exists|
            i: int,
        |
            0 <= i < args.len() && is_secrets_rooted_model(#[trigger] args[i])) {
            1
        } else {
            leakages_count_model_list(args)
        },
        ExprModel::Context { raw, components } => leakages_count_model_list(components),
        ExprModel::Index(inner) => leakages_count_model(*inner),
        ExprModel::BinOp { lhs, op, rhs } => leakages_count_model(*lhs) + leakages_count_model(
            *rhs,
        ),
        ExprModel::UnOp { op, expr } => leakages_count_model(*expr),
        _ => 0,
    }
}

pub open spec fn leakages_count_model_list(ms: Seq<ExprModel>) -> nat
    decreases ms, 1int,
{
    if ms.len() == 0 {
        0
    } else {
        leakages_count_model(ms[0]) + leakages_count_model_list(ms.drop_first())
    }
}

/// The count over a tree equals the count over its model.
pub proof fn lemma_leakages_view(e: Expr)
    ensures
        secret_leakages_count(e) == leakages_count_model(expr_view(e)),
    decreases e, 0int,
{
    match e {
        Expr::Call { func, args } => {
            lemma_exprs_view_index(args@);
            lemma_leakages_view_list(args@);
            assert forall|i: int| 0 <= i < args@.len() implies is_secrets_rooted(
                #[trigger] args@[i],
            ) == is_secrets_rooted_model(exprs_view(args@)[i]) by {}
            if exists|i: int| 0 <= i < args@.len() && is_secrets_rooted(#[trigger] args@[i]) {
                let i = choose|i: int| 0 <= i < args@.len() && is_secrets_rooted(
                    #[trigger] args@[i],
                );
                assert(is_secrets_rooted_model(exprs_view(args@)[i]));
            }
            if exists|i: int|
                0 <= i < exprs_view(args@).len() && is_secrets_rooted_model(
                    #[trigger] exprs_view(args@)[i],
                ) {
                let i = choose|i: int|
                    0 <= i < exprs_view(args@).len() && is_secrets_rooted_model(
                        #[trigger] exprs_view(args@)[i],
                    );
                assert(is_secrets_rooted(args@[i]));
            }
        },
        Expr::Context { raw, components } => {
            lemma_leakages_view_list(components@);
        },
        Expr::Index(inner) => {
            lemma_leakages_view(*inner);
        },
        Expr::BinOp { lhs, op, rhs } => {
            lemma_leakages_view(*lhs);
            lemma_leakages_view(*rhs);
        },
        Expr::UnOp { op, expr } => {
            lemma_leakages_view(*expr);
        },
        _ => {},
    }
}

pub proof fn lemma_leakages_view_list(es: Seq<Expr>)
    ensures
        leakages_count_model_list(exprs_view(es)) == secret_leakages_count_list(es),
    decreases es, 1int,
{
    if es.len() > 0 {
        lemma_leakages_view(es[0]);
        lemma_leakages_view_list(es.drop_first());
        assert(exprs_view(es)[0] == expr_view(es[0]));
        assert(exprs_view(es).drop_first() =~= exprs_view(es.drop_first()));
        assert(exprs_view(es).len() > 0);
        assert(leakages_count_model_list(exprs_view(es)) == leakages_count_model(
            exprs_view(es)[0],
        ) + leakages_count_model_list(exprs_view(es).drop_first()));
    }
}

/// How many redaction-bypassing decodes one marker holds: none when its
/// bare text does not parse.
pub open spec fn marker_leakages(raw: Seq<char>) -> int {
    match spec_parse(bare_of(raw)) {
        None => 0int,
        Some(m) => leakages_count_model(m) as int,
    }
}

/// The total over the markers at the given spans.
pub open spec fn spans_leakages(text: Seq<char>, spans: Seq<(int, int)>) -> int
    decreases spans.len(),
{
    if spans.len() == 0 {
        0int
    } else {
        (if 0 <= spans[0].0 <= spans[0].1 <= text.len() {
            marker_leakages(text.subrange(spans[0].0, spans[0].1))
        } else {
            0int
        }) + spans_leakages(text, spans.drop_first())
    }
}

/// Everything the rule reports for one raw document.
pub open spec fn leakage_total(text: Seq<char>) -> int {
    spans_leakages(text, extract_spans(text, 0))
}

/// Detects leaked secret values.
pub struct UnredactedSecrets;

#[verifier::loop_isolation(false)]
fn leakages_acc(e: &Expr, out: &mut Vec<()>)
    ensures
        final(out)@.len() == old(out)@.len() + secret_leakages_count(*e),
    decreases expr_size(*e),
{
    match e {
        Expr::Call { func, args } => {
            let mut found = false;
            let mut i: usize = 0;
            while i < args.len()
                invariant
                    i <= args@.len(),
                    found == (exists|k: int|
                        0 <= k < i && is_secrets_rooted(#[trigger] args@[k])),
                decreases args@.len() - i,
            {
                let rooted = match &args[i] {
                    Expr::Context { raw, .. } => context_child_of(raw.as_str(), "secrets"),
                    _ => false,
                };
                if rooted {
                    found = true;
                }
                i += 1;
            }
            if found && eq_ignore_case(func.as_str(), "fromJSON") {
                out.push(());
            } else {
                let ghost mid = out@.len();
                let mut i: usize = 0;
                while i < args.len()
                    invariant
                        i <= args@.len(),
                        out@.len() == mid + secret_leakages_count_list(args@.take(i as int)),
                    decreases args@.len() - i,
                {
                    proof {
                        lemma_expr_list_size_elem(args@, i as int);
                        assert(expr_size(*e) == 1 + expr_list_size(args@));
                    }
                    leakages_acc(&args[i], out);
                    proof {
                        lemma_leakages_count_snoc(args@, i as int);
                    }
                    i += 1;
                }
                proof {
                    assert(args@.take(args@.len() as int) =~= args@);
                }
            }
        },
        Expr::Context { raw, components } => {
            let ghost mid = out@.len();
            let mut i: usize = 0;
            while i < components.len()
                invariant
                    i <= components@.len(),
                    out@.len() == mid + secret_leakages_count_list(components@.take(i as int)),
                decreases components@.len() - i,
            {
                proof {
                    lemma_expr_list_size_elem(components@, i as int);
                    assert(expr_size(*e) == 1 + expr_list_size(components@));
                }
                leakages_acc(&components[i], out);
                proof {
                    lemma_leakages_count_snoc(components@, i as int);
                }
                i += 1;
            }
            proof {
                assert(components@.take(components@.len() as int) =~= components@);
            }
        },
        Expr::Index(inner) => {
            leakages_acc(inner, out);
        },
        Expr::BinOp { lhs, op, rhs } => {
            leakages_acc(lhs, out);
            leakages_acc(rhs, out);
        },
        Expr::UnOp { op, expr } => {
            leakages_acc(expr, out);
        },
        _ => {},
    }
}

impl UnredactedSecrets {
    /// The rule's stable identifier.
    pub fn ident() -> (r: &'static str)
        ensures
            r@ == "secret-leakage"@,
    {
        "secret-leakage"
    }

    /// One entry per redaction-bypassing decode found in the expression.
    pub fn secret_leakages(e: &Expr) -> (r: Vec<()>)
        ensures
            r@.len() == secret_leakages_count(*e),
    {
        let mut out: Vec<()> = Vec::new();
        leakages_acc(e, &mut out);
        out
    }
}

impl UnredactedSecrets {
    /// Audit a raw document: one medium-severity, high-confidence finding
    /// per redaction-bypassing decode in any template marker, each anchored
    /// at its marker's span — exactly [`leakage_total`] findings.
    #[verifier::loop_isolation(false)]
    pub fn audit_raw(&self, input: &Input) -> (r: Result<Vec<Finding>, BuildError>)
        requires
            input.wf(),
        ensures
            !(r matches Err(BuildError::NoPrimaryLocation)),
            match r {
                Ok(v) => v@.len() == leakage_total(input.text()) && (forall|k: int|
                    0 <= k < v@.len() ==> {
                        let f = #[trigger] v@[k];
                        &&& f.ident@ == "secret-leakage"@
                        &&& f.determinations.severity == Severity::Medium
                        &&& f.determinations.confidence == Confidence::High
                        &&& f.locations@[0].symbolic.primary
                        &&& (exists|m: int|
                            0 <= m < extract_spans(input.text(), 0).len()
                                && f.locations@[0].concrete.location.start_offset as int == (
                            #[trigger] extract_spans(input.text(), 0)[m]).0
                                && f.locations@[0].concrete.location.end_offset as int
                                == extract_spans(input.text(), 0)[m].1)
                    }),
                Err(_) => false,
            },
    {
        let mut findings: Vec<Finding> = Vec::new();
        let raw = input.source();
        let exprs = crate::utils::extract_expressions(raw);
        let ghost spans = extract_spans(input.text(), 0);
        proof {
            assert(spans.skip(0) =~= spans);
        }
        let mut i: usize = 0;
        while i < exprs.len()
            invariant
                i <= exprs@.len(),
                input.wf(),
                findings@.len() + spans_leakages(input.text(), spans.skip(i as int))
                    == leakage_total(input.text()),
                forall|k: int|
                    0 <= k < findings@.len() ==> {
                        let f = #[trigger] findings@[k];
                        &&& f.ident@ == "secret-leakage"@
                        &&& f.determinations.severity == Severity::Medium
                        &&& f.determinations.confidence == Confidence::High
                        &&& f.locations@[0].symbolic.primary
                        &&& (exists|m: int|
                            0 <= m < extract_spans(input.text(), 0).len()
                                && f.locations@[0].concrete.location.start_offset as int == (
                            #[trigger] extract_spans(input.text(), 0)[m]).0
                                && f.locations@[0].concrete.location.end_offset as int
                                == extract_spans(input.text(), 0)[m].1)
                    },
            decreases exprs@.len() - i,
        {
            proof {
                assert(spans.skip(i as int)[0] == spans[i as int]);
                assert(spans.skip(i as int).drop_first() =~= spans.skip(i + 1));
            }
            let bare = exprs[i].0.as_bare();
            let parsed = match crate::expr::Expr::parse(bare.as_str()) {
                Err(_) => {
                    i += 1;
                    continue;
                },
                Ok(e) => e,
            };
            proof {
                lemma_leakages_view(parsed);
            }
            let leakages = Self::secret_leakages(&parsed);
            let mut k: usize = 0;
            while k < leakages.len()
                invariant
                    k <= leakages@.len(),
                    input.wf(),
                    i < exprs@.len(),
                    exprs@[i as int].1 <= exprs@[i as int].2 <= input.text().len(),
                    findings@.len() + (leakages@.len() - k) + spans_leakages(
                        input.text(),
                        spans.skip(i + 1),
                    ) == leakage_total(input.text()),
                    forall|j: int|
                        0 <= j < findings@.len() ==> {
                            let f = #[trigger] findings@[j];
                            &&& f.ident@ == "secret-leakage"@
                            &&& f.determinations.severity == Severity::Medium
                            &&& f.determinations.confidence == Confidence::High
                            &&& f.locations@[0].symbolic.primary
                            &&& (exists|m: int|
                                0 <= m < extract_spans(input.text(), 0).len()
                                    && f.locations@[0].concrete.location.start_offset as int == (
                                #[trigger] extract_spans(input.text(), 0)[m]).0
                                    && f.locations@[0].concrete.location.end_offset as int
                                    == extract_spans(input.text(), 0)[m].1)
                            },
                decreases leakages@.len() - k,
            {
                let feature = crate::locate::feature_from_span(input, exprs[i].1, exprs[i].2);
                let b = FindingBuilder::new(
                    "secret-leakage",
                    "leaked secret values",
                    "https://docs.zizmor.sh/audits#secret-leakage",
                ).confidence(Confidence::High).severity(Severity::Medium).add_raw_location(
                    Location::new(
                        input.location().annotated(
                            "bypasses secret redaction".to_owned(),
                        ).primary(),
                        feature,
                    ),
                );
                let ghost braws = b.raw_locations@;
                let built = b.build(input);
                match built {
                    Ok(f) => {
                        proof {
                            assert(spans[i as int] == (#[trigger] extract_spans(
                                input.text(),
                                0,
                            )[i as int]));
                            assert(f.locations@[0].concrete.location.start_offset as int
                                == spans[i as int].0);
                            assert(f.locations@[0].concrete.location.end_offset as int
                                == spans[i as int].1);
                            assert(f.locations@[0].symbolic.primary);
                        }
                        findings.push(f);
                    },
                    Err(e) => {
                        proof {
                            assert(braws[0].symbolic.primary);
                            if e is Unresolvable {
                                assert(crate::finding::all_routes_resolve(*input, b.locations@))
                                    by {
                                    assert(b.locations@.len() == 0);
                                }
                            }
                            assert(false);
                        }
                        return Err(e);
                    },
                }
                k += 1;
            }
            i += 1;
        }
        proof {
            assert(spans.skip(exprs@.len() as int) =~= Seq::<(int, int)>::empty());
        }
        Ok(findings)
    }
}

} // verus!
