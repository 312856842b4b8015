//! Flags expansions that inject the entire `secrets` context into the
//! runner, typically through `toJSON(secrets)`.

use vstd::prelude::*;
use vstd::string::*;
use crate::expr::{
    Expr, ExprModel, expr_size, expr_list_size, expr_view, exprs_view, lemma_expr_list_size_elem,
    lemma_exprs_view_index, spec_parse,
};
use crate::utils::{bare_of, extract_spans};
use crate::document::Input;
use crate::finding::{BuildError, Confidence, Finding, FindingBuilder, Location, Severity};
use crate::text::str_eq;

verus! {

/// Whether an argument is the whole `secrets` context itself.
pub open spec fn is_whole_secrets(e: Expr) -> bool {
    match e {
        Expr::Context { raw, .. } => raw@ == "secrets"@,
        _ => false,
    }
}

/// How many whole-secrets expansions the expression holds: a `toJSON` call
/// with the bare `secrets` context among its arguments counts once and is
/// not descended into; every other node is searched structurally.
pub open spec fn secrets_expansions_count(e: Expr) -> nat
    decreases e, 0int,
{
    match e {
        Expr::Call { func, args } => if func@ == "toJSON"@ && (exists|i: int|
            0 <= i < args@.len() && is_whole_secrets(#[trigger] args@[i])) {
            1
        } else {
            secrets_expansions_count_list(args@)
        },
        Expr::Context { raw, components } => secrets_expansions_count_list(components@),
        Expr::Index(inner) => secrets_expansions_count(*inner),
        Expr::BinOp { lhs, op, rhs } => secrets_expansions_count(*lhs) + secrets_expansions_count(
            *rhs,
        ),
        Expr::UnOp { op, expr } => secrets_expansions_count(*expr),
        _ => 0,
    }
}

pub open spec fn secrets_expansions_count_list(es: Seq<Expr>) -> nat
    decreases es, 1int,
{
    if es.len() == 0 {
        0
    } else {
        secrets_expansions_count(es[0]) + secrets_expansions_count_list(es.drop_first())
    }
}

proof fn lemma_secrets_count_snoc(es: Seq<Expr>, i: int)
    requires
        0 <= i < es.len(),
    ensures
        secrets_expansions_count_list(es.take(i + 1)) == secrets_expansions_count_list(es.take(i))
            + secrets_expansions_count(es[i]),
    decreases i,
{
    let a = es.take(i + 1);
    let b = es.take(i);
    if i == 0 {
        assert(a.drop_first() =~= Seq::<Expr>::empty());
        assert(a[0] == es[0]);
        assert(secrets_expansions_count_list(a) == secrets_expansions_count(a[0]) + secrets_expansions_count_list(a.drop_first()));
        assert(secrets_expansions_count_list(Seq::<Expr>::empty()) == 0);
        assert(secrets_expansions_count_list(b) == 0);
    } else {
        lemma_secrets_count_snoc(es.drop_first(), i - 1);
        assert(a.drop_first() =~= es.drop_first().take(i));
        assert(b.drop_first() =~= es.drop_first().take(i - 1));
        assert(es.drop_first()[i - 1] == es[i]);
        assert(a[0] == es[0]);
        assert(b[0] == es[0]);
        assert(secrets_expansions_count_list(a) == secrets_expansions_count(a[0]) + secrets_expansions_count_list(a.drop_first()));
        assert(secrets_expansions_count_list(b) == secrets_expansions_count(b[0]) + secrets_expansions_count_list(b.drop_first()));
    }
}


/// The same count over the model, mirroring [`secrets_expansions_count`].
pub open spec fn is_whole_secrets_model(m: ExprModel) -> bool {
    match m {
        ExprModel::Context { raw, .. } => raw == "secrets"@,
        _ => false,
    }
}

pub open spec fn expansions_count_model(m: ExprModel) -> nat
    decreases m, 0int,
{
    match m {
        ExprModel::Call { func, args } => if func == "toJSON"@ && (exists|i: int|
            0 <= i < args.len() && is_whole_secrets_model(#[trigger] args[i])) {
            1
        } else {
            expansions_count_model_list(args)
        },
        ExprModel::Context { raw, components } => expansions_count_model_list(components),
        ExprModel::Index(inner) => expansions_count_model(*inner),
        ExprModel::BinOp { lhs, op, rhs } => expansions_count_model(*lhs) + expansions_count_model(
            *rhs,
        ),
        ExprModel::UnOp { op, expr } => expansions_count_model(*expr),
        _ => 0,
    }
}

pub open spec fn expansions_count_model_list(ms: Seq<ExprModel>) -> nat
    decreases ms, 1int,
{
    if ms.len() == 0 {
        0
    } else {
        expansions_count_model(ms[0]) + expansions_count_model_list(ms.drop_first())
    }
}

/// The count over a tree equals the count over its model.
pub proof fn lemma_expansions_view(e: Expr)
    ensures
        secrets_expansions_count(e) == expansions_count_model(expr_view(e)),
    decreases e, 0int,
{
    match e {
        Expr::Call { func, args } => {
            lemma_exprs_view_index(args@);
            lemma_expansions_view_list(args@);
            assert forall|i: int| 0 <= i < args@.len() implies is_whole_secrets(
                #[trigger] args@[i],
            ) == is_whole_secrets_model(exprs_view(args@)[i]) by {}
            if exists|i: int| 0 <= i < args@.len() && is_whole_secrets(#[trigger] args@[i]) {
                let i = choose|i: int| 0 <= i < args@.len() && is_whole_secrets(
                    #[trigger] args@[i],
                );
                assert(is_whole_secrets_model(exprs_view(args@)[i]));
            }
            if exists|i: int|
                0 <= i < exprs_view(args@).len() && is_whole_secrets_model(
                    #[trigger] exprs_view(args@)[i],
                ) {
                let i = choose|i: int|
                    0 <= i < exprs_view(args@).len() && is_whole_secrets_model(
                        #[trigger] exprs_view(args@)[i],
                    );
                assert(is_whole_secrets(args@[i]));
            }
        },
        Expr::Context { raw, components } => {
            lemma_expansions_view_list(components@);
        },
        Expr::Index(inner) => {
            lemma_expansions_view(*inner);
        },
        Expr::BinOp { lhs, op, rhs } => {
            lemma_expansions_view(*lhs);
            lemma_expansions_view(*rhs);
        },
        Expr::UnOp { op, expr } => {
            lemma_expansions_view(*expr);
        },
        _ => {},
    }
}

pub proof fn lemma_expansions_view_list(es: Seq<Expr>)
    ensures
        expansions_count_model_list(exprs_view(es)) == secrets_expansions_count_list(es),
    decreases es, 1int,
{
    if es.len() > 0 {
        lemma_expansions_view(es[0]);
        lemma_expansions_view_list(es.drop_first());
        assert(exprs_view(es)[0] == expr_view(es[0]));
        assert(exprs_view(es).drop_first() =~= exprs_view(es.drop_first()));
        assert(exprs_view(es).len() > 0);
        assert(expansions_count_model_list(exprs_view(es)) == expansions_count_model(
            exprs_view(es)[0],
        ) + expansions_count_model_list(exprs_view(es).drop_first()));
    }
}

/// How many whole-secrets expansions one marker holds: none when its bare
/// text does not parse.
pub open spec fn marker_expansions(raw: Seq<char>) -> int {
    match spec_parse(bare_of(raw)) {
        None => 0int,
        Some(m) => expansions_count_model(m) as int,
    }
}

/// The total over the markers at the given spans.
pub open spec fn spans_expansions(text: Seq<char>, spans: Seq<(int, int)>) -> int
    decreases spans.len(),
{
    if spans.len() == 0 {
        0int
    } else {
        (if 0 <= spans[0].0 <= spans[0].1 <= text.len() {
            marker_expansions(text.subrange(spans[0].0, spans[0].1))
        } else {
            0int
        }) + spans_expansions(text, spans.drop_first())
    }
}

/// Everything the rule reports for one raw document: one finding per
/// whole-secrets expansion in any of its markers.
pub open spec fn overprovisioned_total(text: Seq<char>) -> int {
    spans_expansions(text, extract_spans(text, 0))
}

/// Detects excessively provisioned secrets.
pub struct OverprovisionedSecrets;

#[verifier::loop_isolation(false)]
fn expansions_acc(e: &Expr, out: &mut Vec<()>)
    ensures
        final(out)@.len() == old(out)@.len() + secrets_expansions_count(*e),
    decreases expr_size(*e),
{
    match e {
        Expr::Call { func, args } => {
            let mut found = false;
            let mut i: usize = 0;
            while i < args.len()
                invariant
                    i <= args@.len(),
                    found == (exists|k: int|
                        0 <= k < i && is_whole_secrets(#[trigger] args@[k])),
                decreases args@.len() - i,
            {
                let whole = match &args[i] {
                    Expr::Context { raw, .. } => str_eq(raw.as_str(), "secrets"),
                    _ => false,
                };
                if whole {
                    found = true;
                }
                i += 1;
            }
            if found && str_eq(func.as_str(), "toJSON") {
                out.push(());
            } else {
                let ghost mid = out@.len();
                let mut i: usize = 0;
                while i < args.len()
                    invariant
                        i <= args@.len(),
                        out@.len() == mid + secrets_expansions_count_list(args@.take(i as int)),
                    decreases args@.len() - i,
                {
                    proof {
                        lemma_expr_list_size_elem(args@, i as int);
                        assert(expr_size(*e) == 1 + expr_list_size(args@));
                    }
                    expansions_acc(&args[i], out);
                    proof {
                        lemma_secrets_count_snoc(args@, i as int);
                    }
                    i += 1;
                }
                proof {
                    assert(args@.take(args@.len() as int) =~= args@);
                }
            }
        },
        Expr::Context { raw, components } => {
            let ghost mid = out@.len();
            let mut i: usize = 0;
            while i < components.len()
                invariant
                    i <= components@.len(),
                    out@.len() == mid + secrets_expansions_count_list(components@.take(i as int)),
                decreases components@.len() - i,
            {
                proof {
                    lemma_expr_list_size_elem(components@, i as int);
                    assert(expr_size(*e) == 1 + expr_list_size(components@));
                }
                expansions_acc(&components[i], out);
                proof {
                    lemma_secrets_count_snoc(components@, i as int);
                }
                i += 1;
            }
            proof {
                assert(components@.take(components@.len() as int) =~= components@);
            }
        },
        Expr::Index(inner) => {
            expansions_acc(inner, out);
        },
        Expr::BinOp { lhs, op, rhs } => {
            expansions_acc(lhs, out);
            expansions_acc(rhs, out);
        },
        Expr::UnOp { op, expr } => {
            expansions_acc(expr, out);
        },
        _ => {},
    }
}

impl OverprovisionedSecrets {
    /// The rule's stable identifier.
    pub fn ident() -> (r: &'static str)
        ensures
            r@ == "overprovisioned-secrets"@,
    {
        "overprovisioned-secrets"
    }

    /// One entry per whole-secrets expansion found in the expression.
    pub fn secrets_expansions(e: &Expr) -> (r: Vec<()>)
        ensures
            r@.len() == secrets_expansions_count(*e),
    {
        let mut out: Vec<()> = Vec::new();
        expansions_acc(e, &mut out);
        out
    }
}

impl OverprovisionedSecrets {
    /// Audit a raw document: one medium-severity, high-confidence finding
    /// per whole-secrets expansion in any template marker, each anchored at
    /// its marker's span — exactly [`overprovisioned_total`] findings.
    #[verifier::loop_isolation(false)]
    pub fn audit_raw(&self, input: &Input) -> (r: Result<Vec<Finding>, BuildError>)
        requires
            input.wf(),
        ensures
            !(r matches Err(BuildError::NoPrimaryLocation)),
            match r {
                Ok(v) => v@.len() == overprovisioned_total(input.text()) && (forall|k: int|
                    0 <= k < v@.len() ==> {
                        let f = #[trigger] v@[k];
                        &&& f.ident@ == "overprovisioned-secrets"@
                        &&& f.determinations.severity == Severity::Medium
                        &&& f.determinations.confidence == Confidence::High
                        &&& f.locations@[0].symbolic.primary
                        &&& (exists|m: int|
                            0 <= m < extract_spans(input.text(), 0).len()
                                && f.locations@[0].concrete.location.start_offset as int == (
                            #[trigger] extract_spans(input.text(), 0)[m]).0
                                && f.locations@[0].concrete.location.end_offset as int
                                == extract_spans(input.text(), 0)[m].1)
                    }),
                Err(_) => false,
            },
    {
        let mut findings: Vec<Finding> = Vec::new();
        let raw = input.source();
        let exprs = crate::utils::extract_expressions(raw);
        let ghost spans = extract_spans(input.text(), 0);
        proof {
            assert(spans.skip(0) =~= spans);
        }
        let mut i: usize = 0;
        while i < exprs.len()
            invariant
                i <= exprs@.len(),
                input.wf(),
                findings@.len() + spans_expansions(input.text(), spans.skip(i as int))
                    == overprovisioned_total(input.text()),
                forall|k: int|
                    0 <= k < findings@.len() ==> {
                        let f = #[trigger] findings@[k];
                        &&& f.ident@ == "overprovisioned-secrets"@
                        &&& f.determinations.severity == Severity::Medium
                        &&& f.determinations.confidence == Confidence::High
                        &&& f.locations@[0].symbolic.primary
                        &&& (exists|m: int|
                            0 <= m < extract_spans(input.text(), 0).len()
                                && f.locations@[0].concrete.location.start_offset as int == (
                            #[trigger] extract_spans(input.text(), 0)[m]).0
                                && f.locations@[0].concrete.location.end_offset as int
                                == extract_spans(input.text(), 0)[m].1)
                    },
            decreases exprs@.len() - i,
        {
            proof {
                assert(spans.skip(i as int)[0] == spans[i as int]);
                assert(spans.skip(i as int).drop_first() =~= spans.skip(i + 1));
            }
            let ghost raw_model = input.text().subrange(spans[i as int].0, spans[i as int].1);
            let bare = exprs[i].0.as_bare();
            let parsed = match crate::expr::Expr::parse(bare.as_str()) {
                Err(_) => {
                    i += 1;
                    continue;
                },
                Ok(e) => e,
            };
            proof {
                lemma_expansions_view(parsed);
            }
            let expansions = Self::secrets_expansions(&parsed);
            let mut k: usize = 0;
            while k < expansions.len()
                invariant
                    k <= expansions@.len(),
                    input.wf(),
                    i < exprs@.len(),
                    exprs@[i as int].1 <= exprs@[i as int].2 <= input.text().len(),
                    findings@.len() + (expansions@.len() - k) + spans_expansions(
                        input.text(),
                        spans.skip(i + 1),
                    ) == overprovisioned_total(input.text()),
                    forall|j: int|
                        0 <= j < findings@.len() ==> {
                            let f = #[trigger] findings@[j];
                            &&& f.ident@ == "overprovisioned-secrets"@
                            &&& f.determinations.severity == Severity::Medium
                            &&& f.determinations.confidence == Confidence::High
                            &&& f.locations@[0].symbolic.primary
                            &&& (exists|m: int|
                                0 <= m < extract_spans(input.text(), 0).len()
                                    && f.locations@[0].concrete.location.start_offset as int == (
                                #[trigger] extract_spans(input.text(), 0)[m]).0
                                    && f.locations@[0].concrete.location.end_offset as int
                                    == extract_spans(input.text(), 0)[m].1)
                            },
                decreases expansions@.len() - k,
            {
                let feature = crate::locate::feature_from_span(input, exprs[i].1, exprs[i].2);
                let b = FindingBuilder::new(
                    "overprovisioned-secrets",
                    "excessively provisioned secrets",
                    "https://docs.zizmor.sh/audits#overprovisioned-secrets",
                ).confidence(Confidence::High).severity(Severity::Medium).add_raw_location(
                    Location::new(
                        input.location().annotated(
                            "injects the entire secrets context into the runner".to_owned(),
                        ).primary(),
                        feature,
                    ),
                );
                let ghost braws = b.raw_locations@;
                let built = b.build(input);
                match built {
                    Ok(f) => {
                        proof {
                            assert(spans[i as int] == (#[trigger] extract_spans(
                                input.text(),
                                0,
                            )[i as int]));
                            assert(f.locations@[0].concrete.location.start_offset as int
                                == spans[i as int].0);
                            assert(f.locations@[0].concrete.location.end_offset as int
                                == spans[i as int].1);
                            assert(f.locations@[0].symbolic.primary);
                        }
                        findings.push(f);
                    },
                    Err(e) => {
                        proof {
                            assert(braws[0].symbolic.primary);
                            if e is Unresolvable {
                                assert(crate::finding::all_routes_resolve(*input, b.locations@))
                                    by {
                                    assert(b.locations@.len() == 0);
                                }
                            }
                            assert(false);
                        }
                        return Err(e);
                    },
                }
                k += 1;
            }
            i += 1;
        }
        proof {
            assert(spans.skip(exprs@.len() as int) =~= Seq::<(int, int)>::empty());
        }
        Ok(findings)
    }
}

} // verus!
