//! The template expression language: abstract syntax tree, parser, and the
//! context-collection fold.
//!
//! An expression tree is built once by [`Expr::parse`], consumed by the
//! classifier folds, and never mutated.

use vstd::prelude::*;
use vstd::string::*;
use crate::text::{
    eq_ignore_case, eq_ignore_case_range, first_char_match, is_space_char, lemma_first_char_match,
    lower_seq, matches_at, starts_at, str_eq, substr_copy,
};

verus! {

/// Binary operators, lowest precedence first: or, and, equality,
/// inequality, relational comparison.
#[derive(Copy, Clone, Debug, PartialEq, Eq, Structural)]
pub enum BinOp {
    And,
    Or,
    Eq,
    Neq,
    Gt,
    Ge,
    Lt,
    Le,
}

/// Unary operators: only logical negation.
#[derive(Copy, Clone, Debug, PartialEq, Eq, Structural)]
pub enum UnOp {
    Not,
}

/// One node of an expression tree.
///
/// A `Context` stores the raw source text of the whole dotted/indexed
/// reference plus the sub-expressions embedded in it (a leading call, each
/// bracketed index, each wildcard); plain identifier segments live only in
/// the raw text.
#[derive(Debug)]
pub enum Expr {
    /// A numeric literal, kept as its source text.
    Number(String),
    /// A string literal, with quote escapes decoded.
    Str(String),
    /// A boolean literal.
    Boolean(bool),
    /// The null literal.
    Null,
    /// The wildcard, as it appears inside a context reference.
    Star,
    /// A dotted/indexed context reference.
    Context { raw: String, components: Vec<Expr> },
    /// A bracketed index sub-expression of a context reference.
    Index(Box<Expr>),
    /// A function call.
    Call { func: String, args: Vec<Expr> },
    /// A binary operation.
    BinOp { lhs: Box<Expr>, op: BinOp, rhs: Box<Expr> },
    /// A unary operation.
    UnOp { op: UnOp, expr: Box<Expr> },
}

/// Structural size of an expression tree, used as a termination measure by
/// the executable folds.
pub open spec fn expr_size(e: Expr) -> nat
    decreases e, 0int,
{
    match e {
        Expr::Context { raw, components } => 1 + expr_list_size(components@),
        Expr::Call { func, args } => 1 + expr_list_size(args@),
        Expr::Index(inner) => 1 + expr_size(*inner),
        Expr::BinOp { lhs, op, rhs } => 1 + expr_size(*lhs) + expr_size(*rhs),
        Expr::UnOp { op, expr } => 1 + expr_size(*expr),
        _ => 1,
    }
}

pub open spec fn expr_list_size(es: Seq<Expr>) -> nat
    decreases es, 1int,
{
    if es.len() == 0 {
        0
    } else {
        expr_size(es[0]) + expr_list_size(es.drop_first())
    }
}

pub proof fn lemma_expr_list_size_elem(es: Seq<Expr>, i: int)
    requires
        0 <= i < es.len(),
    ensures
        expr_size(es[i]) <= expr_list_size(es),
    decreases i,
{
    if i == 0 {
    } else {
        lemma_expr_list_size_elem(es.drop_first(), i - 1);
        assert(es.drop_first()[i - 1] == es[i]);
    }
}

/// Every context reference in the expression, one entry per syntactic
/// occurrence, in left-to-right order.
pub open spec fn contexts_of(e: Expr) -> Seq<Seq<char>>
    decreases e, 0int,
{
    match e {
        Expr::Context { raw, components } => seq![raw@] + contexts_of_list(components@),
        Expr::Call { func, args } => contexts_of_list(args@),
        Expr::Index(inner) => contexts_of(*inner),
        Expr::BinOp { lhs, op, rhs } => contexts_of(*lhs) + contexts_of(*rhs),
        Expr::UnOp { op, expr } => contexts_of(*expr),
        _ => Seq::empty(),
    }
}

pub open spec fn contexts_of_list(es: Seq<Expr>) -> Seq<Seq<char>>
    decreases es, 1int,
{
    if es.len() == 0 {
        Seq::empty()
    } else {
        contexts_of(es[0]) + contexts_of_list(es.drop_first())
    }
}

/// The views of a vector of strings.
pub open spec fn views_of(v: Seq<String>) -> Seq<Seq<char>> {
    v.map_values(|s: String| s@)
}

/// Law: context collection is complete and counts once per occurrence.
/// Every composite node contributes exactly the concatenation of its
/// children's collections — call arguments, index bases, operator operands
/// and context sub-components alike — and a context node contributes its own
/// reference exactly once before its sub-components. A reference nested
/// arbitrarily deep is therefore included once per syntactic occurrence.
pub proof fn lemma_context_collection_structure(e: Expr)
    ensures
        match e {
            Expr::Context { raw, components } => contexts_of(e) == seq![raw@] + contexts_of_list(
                components@,
            ),
            Expr::Call { func, args } => contexts_of(e) == contexts_of_list(args@),
            Expr::Index(inner) => contexts_of(e) == contexts_of(*inner),
            Expr::BinOp { lhs, op, rhs } => contexts_of(e) == contexts_of(*lhs) + contexts_of(
                *rhs,
            ),
            Expr::UnOp { op, expr } => contexts_of(e) == contexts_of(*expr),
            _ => contexts_of(e) == Seq::<Seq<char>>::empty(),
        },
{
}

proof fn lemma_contexts_of_list_snoc(es: Seq<Expr>, i: int)
    requires
        0 <= i < es.len(),
    ensures
        contexts_of_list(es.take(i + 1)) == contexts_of_list(es.take(i)) + contexts_of(es[i]),
    decreases i,
{
    let a = es.take(i + 1);
    let b = es.take(i);
    if i == 0 {
        assert(a.drop_first() =~= Seq::<Expr>::empty());
        assert(contexts_of_list(a) == contexts_of(es[0]) + contexts_of_list(a.drop_first()));
        assert(contexts_of_list(b) == Seq::<Seq<char>>::empty());
        assert(contexts_of_list(a) =~= contexts_of_list(b) + contexts_of(es[0]));
    } else {
        lemma_contexts_of_list_snoc(es.drop_first(), i - 1);
        assert(a.drop_first() =~= es.drop_first().take(i));
        assert(b.drop_first() =~= es.drop_first().take(i - 1));
        assert(es.drop_first()[i - 1] == es[i]);
        assert(contexts_of_list(a) == contexts_of(es[0]) + contexts_of_list(
            es.drop_first().take(i),
        ));
        assert(contexts_of_list(b) == contexts_of(es[0]) + contexts_of_list(
            es.drop_first().take(i - 1),
        ));
        assert(contexts_of_list(a) =~= contexts_of_list(b) + contexts_of(es[i]));
    }
}

#[verifier::loop_isolation(false)]
fn collect_contexts(e: &Expr, out: &mut Vec<String>)
    ensures
        views_of(final(out)@) == views_of(old(out)@) + contexts_of(*e),
    decreases expr_size(*e),
{
    match e {
        Expr::Context { raw, components } => {
            out.push(raw.clone());
            proof {
                assert(views_of(out@) =~= views_of(old(out)@) + seq![raw@]);
            }
            let ghost mid = out@;
            let mut i: usize = 0;
            while i < components.len()
                invariant
                    i <= components@.len(),
                    views_of(out@) == views_of(mid) + contexts_of_list(
                        components@.take(i as int),
                    ),
                decreases components@.len() - i,
            {
                proof {
                    lemma_expr_list_size_elem(components@, i as int);
                    assert(expr_size(*e) == 1 + expr_list_size(components@));
                }
                collect_contexts(&components[i], out);
                proof {
                    lemma_contexts_of_list_snoc(components@, i as int);
                }
                i += 1;
            }
            proof {
                assert(components@.take(components@.len() as int) =~= components@);
                assert(views_of(out@) =~= views_of(old(out)@) + contexts_of(*e));
            }
        },
        Expr::Call { func, args } => {
            let ghost mid = out@;
            let mut i: usize = 0;
            while i < args.len()
                invariant
                    i <= args@.len(),
                    views_of(out@) == views_of(mid) + contexts_of_list(args@.take(i as int)),
                decreases args@.len() - i,
            {
                proof {
                    lemma_expr_list_size_elem(args@, i as int);
                    assert(expr_size(*e) == 1 + expr_list_size(args@));
                }
                collect_contexts(&args[i], out);
                proof {
                    lemma_contexts_of_list_snoc(args@, i as int);
                }
                i += 1;
            }
            proof {
                assert(args@.take(args@.len() as int) =~= args@);
                assert(views_of(out@) =~= views_of(old(out)@) + contexts_of(*e));
            }
        },
        Expr::Index(inner) => {
            collect_contexts(inner, out);
        },
        Expr::BinOp { lhs, op, rhs } => {
            collect_contexts(lhs, out);
            collect_contexts(rhs, out);
            proof {
                assert(views_of(out@) =~= views_of(old(out)@) + contexts_of(*e));
            }
        },
        Expr::UnOp { op, expr } => {
            collect_contexts(expr, out);
        },
        _ => {
            proof {
                assert(views_of(out@) =~= views_of(old(out)@) + contexts_of(*e));
            }
        },
    }
}

impl Expr {
    /// Every context reference in this expression, one entry per syntactic
    /// occurrence, in left-to-right order.
    pub fn contexts(&self) -> (r: Vec<String>)
        ensures
            views_of(r@) == contexts_of(*self),
    {
        let mut out: Vec<String> = Vec::new();
        proof {
            assert(views_of(out@) =~= Seq::<Seq<char>>::empty());
        }
        collect_contexts(self, &mut out);
        out
    }
}

/// Whether a context reference with raw text `raw` draws from the named
/// context `parent`: either the reference is `parent` itself, or it starts
/// with `parent` followed by a dot. ASCII-case-insensitive.
pub open spec fn child_of_spec(raw: Seq<char>, parent: Seq<char>) -> bool {
    ||| lower_seq(raw) == lower_seq(parent)
    ||| (raw.len() > parent.len() && lower_seq(raw.subrange(0, parent.len() as int)) == lower_seq(
        parent,
    ) && raw[parent.len() as int] == '.')
}

/// Whether the context reference `raw` is `parent` itself or a dotted child
/// of it, ignoring ASCII case.
pub fn context_child_of(raw: &str, parent: &str) -> (r: bool)
    ensures
        r == child_of_spec(raw@, parent@),
{
    let n = raw.unicode_len();
    let m = parent.unicode_len();
    if eq_ignore_case(raw, parent) {
        return true;
    }
    if n > m {
        if eq_ignore_case_range(raw, 0, m, parent) && raw.get_char(m) == '.' {
            return true;
        }
    }
    false
}


/// The printed form of a string literal's content: each quote doubled.
pub open spec fn spec_escape(s: Seq<char>) -> Seq<char>
    decreases s.len(),
{
    if s.len() == 0 {
        Seq::empty()
    } else {
        (if s[0] == '\'' {
            seq!['\'', '\'']
        } else {
            seq![s[0]]
        }) + spec_escape(s.drop_first())
    }
}

/// The text an operator prints as.
pub open spec fn op_text(op: BinOp) -> Seq<char> {
    match op {
        BinOp::And => " && "@,
        BinOp::Or => " || "@,
        BinOp::Eq => " == "@,
        BinOp::Neq => " != "@,
        BinOp::Gt => " > "@,
        BinOp::Ge => " >= "@,
        BinOp::Lt => " < "@,
        BinOp::Le => " <= "@,
    }
}

/// The printed form of a tree's model: every binary operation fully
/// parenthesized, string literals re-quoted and re-escaped, context
/// references as their raw source text.
pub open spec fn spec_unparse(m: ExprModel) -> Seq<char>
    decreases m, 0int, 0int,
{
    match m {
        ExprModel::Number(t) => t,
        ExprModel::Str(t) => seq!['\''] + spec_escape(t) + seq!['\''],
        ExprModel::Boolean(b) => if b {
            "true"@
        } else {
            "false"@
        },
        ExprModel::Null => "null"@,
        ExprModel::Star => "*"@,
        ExprModel::Context { raw, .. } => raw,
        ExprModel::Index(inner) => "["@ + spec_unparse(*inner) + "]"@,
        ExprModel::Call { func, args } => func + "("@ + spec_unparse_args(args, 0) + ")"@,
        ExprModel::BinOp { lhs, op, rhs } => "("@ + spec_unparse(*lhs) + op_text(op)
            + spec_unparse(*rhs) + ")"@,
        ExprModel::UnOp { op, expr } => "!"@ + spec_unparse(*expr),
    }
}

/// The printed argument list from index `i` on, comma-separated.
pub open spec fn spec_unparse_args(args: Seq<ExprModel>, i: int) -> Seq<char>
    decreases args, 1int, args.len() - i,
    when 0 <= i <= args.len()
{
    if i >= args.len() {
        Seq::empty()
    } else {
        (if i > 0 {
            ", "@
        } else {
            Seq::empty()
        }) + spec_unparse(args[i]) + spec_unparse_args(args, i + 1)
    }
}

#[verifier::loop_isolation(false)]
fn unparse_into(e: &Expr, out: &mut String)
    ensures
        final(out)@ == old(out)@ + spec_unparse(expr_view(*e)),
    decreases expr_size(*e),
{
    match e {
        Expr::Number(s) => {
            out.append(s.as_str());
        },
        Expr::Str(s) => {
            out.append("'");
            proof {
                reveal_strlit("'");
                reveal_strlit("''");
                assert("'"@ =~= seq!['\'']);
                assert("''"@ =~= seq!['\'', '\'']);
                assert(s@.skip(0) =~= s@);
            }
            let ghost base = out@;
            let n = s.as_str().unicode_len();
            let mut i: usize = 0;
            while i < n
                invariant
                    n == s@.len(),
                    i <= n,
                    out@ + spec_escape(s@.skip(i as int)) == base + spec_escape(s@),
                decreases n - i,
            {
                proof {
                    assert(s@.skip(i as int)[0] == s@[i as int]);
                    assert(s@.skip(i as int).drop_first() =~= s@.skip(i + 1));
                }
                if s.as_str().get_char(i) == '\'' {
                    out.append("''");
                } else {
                    out.append(s.as_str().substring_char(i, i + 1));
                    proof {
                        assert(s@.subrange(i as int, i + 1) =~= seq![s@[i as int]]);
                    }
                }
                i += 1;
            }
            proof {
                assert(s@.skip(n as int) =~= Seq::<char>::empty());
                assert(spec_escape(Seq::<char>::empty()) =~= Seq::<char>::empty());
            }
            out.append("'");
            proof {
                assert(out@ =~= old(out)@ + spec_unparse(expr_view(*e)));
            }
        },
        Expr::Boolean(b) => {
            if *b {
                out.append("true");
            } else {
                out.append("false");
            }
        },
        Expr::Null => {
            out.append("null");
        },
        Expr::Star => {
            out.append("*");
        },
        Expr::Context { raw, components } => {
            out.append(raw.as_str());
        },
        Expr::Index(inner) => {
            out.append("[");
            unparse_into(inner, out);
            out.append("]");
        },
        Expr::Call { func, args } => {
            out.append(func.as_str());
            out.append("(");
            let ghost base = out@;
            let ghost av = exprs_view(args@);
            proof {
                lemma_exprs_view_index(args@);
            }
            let mut i: usize = 0;
            while i < args.len()
                invariant
                    i <= args@.len(),
                    out@ + spec_unparse_args(av, i as int) == base + spec_unparse_args(av, 0),
                decreases args@.len() - i,
            {
                if i > 0 {
                    out.append(", ");
                    proof {
                        reveal_strlit(", ");
                    }
                }
                proof {
                    lemma_expr_list_size_elem(args@, i as int);
                    assert(expr_size(*e) == 1 + expr_list_size(args@));
                    assert(av[i as int] == expr_view(args@[i as int]));
                }
                unparse_into(&args[i], out);
                i += 1;
            }
            out.append(")");
            proof {
                assert(out@ =~= old(out)@ + spec_unparse(expr_view(*e)));
            }
        },
        Expr::BinOp { lhs, op, rhs } => {
            out.append("(");
            unparse_into(lhs, out);
            match op {
                BinOp::And => out.append(" && "),
                BinOp::Or => out.append(" || "),
                BinOp::Eq => out.append(" == "),
                BinOp::Neq => out.append(" != "),
                BinOp::Gt => out.append(" > "),
                BinOp::Ge => out.append(" >= "),
                BinOp::Lt => out.append(" < "),
                BinOp::Le => out.append(" <= "),
            }
            unparse_into(rhs, out);
            out.append(")");
            proof {
                assert(out@ =~= old(out)@ + spec_unparse(expr_view(*e)));
            }
        },
        Expr::UnOp { op, expr } => {
            out.append("!");
            unparse_into(expr, out);
        },
    }
}

impl Expr {
    /// Print the tree back to expression text: exactly [`spec_unparse`] of
    /// the tree's model. The printed form parenthesizes every binary
    /// operation and re-escapes string literals; context references print
    /// as their original source text.
    pub fn unparse(&self) -> (r: String)
        ensures
            r@ == spec_unparse(expr_view(*self)),
    {
        let mut out = String::new();
        unparse_into(self, &mut out);
        out
    }
}


/// The mathematical model of an expression tree: the same shape as [`Expr`],
/// over sequences instead of owned strings and vectors. The spec-level
/// parser below produces values of this type, and [`expr_view`] maps parsed
/// trees into it.
pub enum ExprModel {
    Number(Seq<char>),
    Str(Seq<char>),
    Boolean(bool),
    Null,
    Star,
    Context { raw: Seq<char>, components: Seq<ExprModel> },
    Index(Box<ExprModel>),
    Call { func: Seq<char>, args: Seq<ExprModel> },
    BinOp { lhs: Box<ExprModel>, op: BinOp, rhs: Box<ExprModel> },
    UnOp { op: UnOp, expr: Box<ExprModel> },
}

/// The model of an expression tree.
pub open spec fn expr_view(e: Expr) -> ExprModel
    decreases e, 0int,
{
    match e {
        Expr::Number(t) => ExprModel::Number(t@),
        Expr::Str(t) => ExprModel::Str(t@),
        Expr::Boolean(b) => ExprModel::Boolean(b),
        Expr::Null => ExprModel::Null,
        Expr::Star => ExprModel::Star,
        Expr::Context { raw, components } => ExprModel::Context {
            raw: raw@,
            components: exprs_view(components@),
        },
        Expr::Index(inner) => ExprModel::Index(Box::new(expr_view(*inner))),
        Expr::Call { func, args } => ExprModel::Call { func: func@, args: exprs_view(args@) },
        Expr::BinOp { lhs, op, rhs } => ExprModel::BinOp {
            lhs: Box::new(expr_view(*lhs)),
            op,
            rhs: Box::new(expr_view(*rhs)),
        },
        Expr::UnOp { op, expr } => ExprModel::UnOp { op, expr: Box::new(expr_view(*expr)) },
    }
}

pub open spec fn exprs_view(es: Seq<Expr>) -> Seq<ExprModel>
    decreases es, 1int,
{
    if es.len() == 0 {
        Seq::empty()
    } else {
        seq![expr_view(es[0])] + exprs_view(es.drop_first())
    }
}

pub proof fn lemma_exprs_view_index(es: Seq<Expr>)
    ensures
        exprs_view(es).len() == es.len(),
        forall|i: int| 0 <= i < es.len() ==> exprs_view(es)[i] == expr_view(#[trigger] es[i]),
    decreases es.len(),
{
    if es.len() > 0 {
        lemma_exprs_view_index(es.drop_first());
        assert forall|i: int| 0 <= i < es.len() implies exprs_view(es)[i] == expr_view(
            #[trigger] es[i],
        ) by {
            if i > 0 {
                assert(es.drop_first()[i - 1] == es[i]);
                assert(exprs_view(es)[i] == exprs_view(es.drop_first())[i - 1]);
            }
        }
    }
}

pub proof fn lemma_exprs_view_push(es: Seq<Expr>, e: Expr)
    ensures
        exprs_view(es.push(e)) == exprs_view(es) + seq![expr_view(e)],
    decreases es.len(),
{
    if es.len() == 0 {
        assert(es.push(e)[0] == e);
        assert(es.push(e).drop_first() =~= Seq::<Expr>::empty());
        assert(exprs_view(Seq::<Expr>::empty()) == Seq::<ExprModel>::empty());
        assert(exprs_view(es.push(e)) == seq![expr_view(es.push(e)[0])] + exprs_view(
            es.push(e).drop_first(),
        ));
        assert(exprs_view(es) == Seq::<ExprModel>::empty());
        assert(exprs_view(es.push(e)) =~= exprs_view(es) + seq![expr_view(e)]);
    } else {
        lemma_exprs_view_push(es.drop_first(), e);
        assert(es.push(e)[0] == es[0]);
        assert(es.push(e).drop_first() =~= es.drop_first().push(e));
        assert(es.push(e).len() > 0);
        assert(exprs_view(es.push(e)) == seq![expr_view(es.push(e)[0])] + exprs_view(
            es.push(e).drop_first(),
        ));
        assert(exprs_view(es.push(e).drop_first()) == exprs_view(es.drop_first()) + seq![
            expr_view(e),
        ]);
        assert(exprs_view(es) == seq![expr_view(es[0])] + exprs_view(es.drop_first()));
        assert(exprs_view(es.push(e)) =~= exprs_view(es) + seq![expr_view(e)]);
    }
}

/// The first non-whitespace position at or after `pos`.
pub open spec fn sp_ws(s: Seq<char>, pos: int) -> int
    decreases s.len() - pos,
    when 0 <= pos <= s.len()
{
    if pos >= s.len() || !is_space_char(s[pos]) {
        pos
    } else {
        sp_ws(s, pos + 1)
    }
}

pub broadcast proof fn lemma_sp_ws_bounds(s: Seq<char>, pos: int)
    requires
        0 <= pos <= s.len(),
    ensures
        pos <= #[trigger] sp_ws(s, pos) <= s.len(),
    decreases s.len() - pos,
{
    if !(pos >= s.len() || !is_space_char(s[pos])) {
        lemma_sp_ws_bounds(s, pos + 1);
    }
}

/// The end of a maximal digit run starting at `pos`.
pub open spec fn digits_end(s: Seq<char>, pos: int) -> int
    decreases s.len() - pos,
    when 0 <= pos <= s.len()
{
    if pos >= s.len() || !is_digit_char(s[pos]) {
        pos
    } else {
        digits_end(s, pos + 1)
    }
}

pub broadcast proof fn lemma_digits_end_bounds(s: Seq<char>, pos: int)
    requires
        0 <= pos <= s.len(),
    ensures
        pos <= #[trigger] digits_end(s, pos) <= s.len(),
    decreases s.len() - pos,
{
    if !(pos >= s.len() || !is_digit_char(s[pos])) {
        lemma_digits_end_bounds(s, pos + 1);
    }
}

/// The end of a maximal identifier-character run starting at `pos`.
pub open spec fn ident_end(s: Seq<char>, pos: int) -> int
    decreases s.len() - pos,
    when 0 <= pos <= s.len()
{
    if pos >= s.len() || !is_ident_char_spec(s[pos]) {
        pos
    } else {
        ident_end(s, pos + 1)
    }
}

pub broadcast proof fn lemma_ident_end_bounds(s: Seq<char>, pos: int)
    requires
        0 <= pos <= s.len(),
    ensures
        pos <= #[trigger] ident_end(s, pos) <= s.len(),
    decreases s.len() - pos,
{
    if !(pos >= s.len() || !is_ident_char_spec(s[pos])) {
        lemma_ident_end_bounds(s, pos + 1);
    }
}

/// The string-literal scan: `pos` points just past an opening quote, `acc`
/// holds the decoded content so far; a doubled quote decodes to one quote.
pub open spec fn sp_string(s: Seq<char>, pos: int, acc: Seq<char>) -> Option<(ExprModel, int)>
    decreases s.len() - pos,
    when 0 <= pos <= s.len()
    via sp_string_decreases
{
    match first_char_match(s, '\'', pos) {
        None => None,
        Some(k) => {
            let acc2 = acc + s.subrange(pos, k);
            if k + 1 < s.len() && s[k + 1] == '\'' {
                sp_string(s, k + 2, acc2 + seq!['\''])
            } else {
                Some((ExprModel::Str(acc2), k + 1))
            }
        },
    }
}

#[via_fn]
proof fn sp_string_decreases(s: Seq<char>, pos: int, acc: Seq<char>) {
    if 0 <= pos <= s.len() {
        lemma_first_char_match(s, '\'', pos);
    }
}

/// The numeric-literal scan: an optional sign, digits, an optional fraction
/// and an optional exponent, kept as raw text.
pub open spec fn sp_number(s: Seq<char>, pos: int) -> Option<(ExprModel, int)>
    recommends
        0 <= pos < s.len(),
{
    let cur0 = if s[pos] == '-' {
        pos + 1
    } else {
        pos
    };
    if cur0 >= s.len() || !is_digit_char(s[cur0]) {
        None
    } else {
        let c1 = digits_end(s, cur0 + 1);
        let c2 = if c1 < s.len() && s[c1] == '.' && c1 + 1 < s.len() && is_digit_char(s[c1 + 1]) {
            digits_end(s, c1 + 2)
        } else {
            c1
        };
        let c3 = if c2 < s.len() && (s[c2] == 'e' || s[c2] == 'E') {
            let ep = if c2 + 1 < s.len() && s[c2 + 1] == '-' {
                c2 + 2
            } else {
                c2 + 1
            };
            if ep < s.len() && is_digit_char(s[ep]) {
                digits_end(s, ep + 1)
            } else {
                c2
            }
        } else {
            c2
        };
        Some((ExprModel::Number(s.subrange(pos, c3)), c3))
    }
}

/// The dotted/indexed continuation of a context chain from `cur`: `acc`
/// holds the embedded sub-expressions collected so far, `chained` whether
/// any continuation was consumed. Yields the components, the flag, and the
/// end of the chain.
pub open spec fn sp_chain_steps(s: Seq<char>, cur: int, acc: Seq<ExprModel>, chained: bool) -> Option<
    (Seq<ExprModel>, bool, int),
>
    decreases s.len() - cur, 8int,
    when 0 <= cur <= s.len()
    via sp_chain_steps_decreases
{
    if cur < s.len() && s[cur] == '.' {
        if cur + 1 < s.len() && s[cur + 1] == '*' {
            sp_chain_steps(s, cur + 2, acc.push(ExprModel::Star), true)
        } else if cur + 1 < s.len() && is_ident_start_char(s[cur + 1]) {
            sp_chain_steps(s, ident_end(s, cur + 2), acc, true)
        } else {
            None
        }
    } else if cur < s.len() && s[cur] == '[' {
        let q = sp_ws(s, cur + 1);
        if q < s.len() && s[q] == '*' {
            let q2 = sp_ws(s, q + 1);
            if q2 < s.len() && s[q2] == ']' {
                sp_chain_steps(s, q2 + 1, acc.push(ExprModel::Star), true)
            } else {
                None
            }
        } else {
            match sp_or(s, cur + 1) {
                None => None,
                Some((e, p)) => if !(cur + 1 < p && p <= s.len()) {
                    None
                } else {
                    let q2 = sp_ws(s, p);
                    if q2 < s.len() && s[q2] == ']' {
                        sp_chain_steps(s, q2 + 1, acc.push(ExprModel::Index(Box::new(e))), true)
                    } else {
                        None
                    }
                },
            }
        }
    } else {
        Some((acc, chained, cur))
    }
}

#[via_fn]
proof fn sp_chain_steps_decreases(s: Seq<char>, cur: int, acc: Seq<ExprModel>, chained: bool) {
    if 0 <= cur <= s.len() {
        broadcast use lemma_sp_ws_bounds, lemma_ident_end_bounds;

    }
}

/// The whole context chain: steps from `pos`, then assembly. A chain headed
/// by a call that has no continuation stays a bare call; a bare identifier
/// with no continuation reads as a keyword literal or a plain context; any
/// chained form becomes a context whose raw text is the source slice.
pub open spec fn sp_chain(s: Seq<char>, chain_start: int, head: Option<ExprModel>, pos: int) -> Option<
    (ExprModel, int),
>
    decreases s.len() - pos, 9int,
    when 0 <= pos <= s.len()
{
    match sp_chain_steps(s, pos, Seq::empty(), false) {
        None => None,
        Some((comps, chained, end)) => if !(0 <= chain_start && chain_start <= end && end
            <= s.len()) {
            None
        } else {
            match head {
                Some(h) => if !chained {
                    Some((h, end))
                } else {
                    Some(
                        (
                            ExprModel::Context {
                                raw: s.subrange(chain_start, end),
                                components: seq![h] + comps,
                            },
                            end,
                        ),
                    )
                },
                None => {
                    let raw = s.subrange(chain_start, end);
                    if !chained {
                        if raw == "true"@ {
                            Some((ExprModel::Boolean(true), end))
                        } else if raw == "false"@ {
                            Some((ExprModel::Boolean(false), end))
                        } else if raw == "null"@ {
                            Some((ExprModel::Null, end))
                        } else {
                            Some((ExprModel::Context { raw, components: Seq::empty() }, end))
                        }
                    } else {
                        Some((ExprModel::Context { raw, components: comps }, end))
                    }
                },
            }
        },
    }
}

/// The argument-list scan, after the opening parenthesis; `acc` holds the
/// arguments parsed so far.
pub open spec fn sp_args_loop(s: Seq<char>, cur: int, acc: Seq<ExprModel>) -> Option<
    (Seq<ExprModel>, int),
>
    decreases s.len() - cur, 7int,
    when 0 <= cur <= s.len()
    via sp_args_loop_decreases
{
    match sp_or(s, cur) {
        None => None,
        Some((e, p)) => if !(cur < p && p <= s.len()) {
            None
        } else {
            let acc2 = acc.push(e);
            let q = sp_ws(s, p);
            if q < s.len() && s[q] == ',' {
                sp_args_loop(s, q + 1, acc2)
            } else if q < s.len() && s[q] == ')' {
                Some((acc2, q + 1))
            } else {
                None
            }
        },
    }
}

#[via_fn]
proof fn sp_args_loop_decreases(s: Seq<char>, cur: int, acc: Seq<ExprModel>) {
    if 0 <= cur <= s.len() {
        broadcast use lemma_sp_ws_bounds;

    }
}

/// A parenthesized, comma-separated argument list; `pos` points just past
/// the opening parenthesis.
pub open spec fn sp_args(s: Seq<char>, pos: int) -> Option<(Seq<ExprModel>, int)>
    decreases s.len() - pos, 8int,
    when 0 <= pos <= s.len()
    via sp_args_decreases
{
    let q0 = sp_ws(s, pos);
    if q0 < s.len() && s[q0] == ')' {
        Some((Seq::empty(), q0 + 1))
    } else {
        sp_args_loop(s, q0, Seq::empty())
    }
}

#[via_fn]
proof fn sp_args_decreases(s: Seq<char>, pos: int) {
    if 0 <= pos <= s.len() {
        broadcast use lemma_sp_ws_bounds;

    }
}

/// A primary expression: a literal, a parenthesized expression, a call, or
/// a context chain.
pub open spec fn sp_primary(s: Seq<char>, pos: int) -> Option<(ExprModel, int)>
    decreases s.len() - pos, 1int,
    when 0 <= pos <= s.len()
    via sp_primary_decreases
{
    let start = sp_ws(s, pos);
    if start >= s.len() {
        None
    } else if s[start] == '\'' {
        sp_string(s, start + 1, Seq::empty())
    } else if s[start] == '(' {
        match sp_or(s, start + 1) {
            None => None,
            Some((e, p)) => if !(start + 1 < p && p <= s.len()) {
                None
            } else {
                let q = sp_ws(s, p);
                if q < s.len() && s[q] == ')' {
                    Some((e, q + 1))
                } else {
                    None
                }
            },
        }
    } else if is_digit_char(s[start]) || s[start] == '-' {
        sp_number(s, start)
    } else if is_ident_start_char(s[start]) {
        let idend = ident_end(s, start + 1);
        if idend < s.len() && s[idend] == '(' {
            match sp_args(s, idend + 1) {
                None => None,
                Some((args, p)) => if !(idend + 1 < p && p <= s.len()) {
                    None
                } else {
                    sp_chain(
                        s,
                        start,
                        Some(ExprModel::Call { func: s.subrange(start, idend), args }),
                        p,
                    )
                },
            }
        } else {
            sp_chain(s, start, None, idend)
        }
    } else {
        None
    }
}

#[via_fn]
proof fn sp_primary_decreases(s: Seq<char>, pos: int) {
    if 0 <= pos <= s.len() {
        broadcast use lemma_sp_ws_bounds, lemma_ident_end_bounds;

    }
}

/// A unary expression: any number of negations, then a primary.
pub open spec fn sp_unary(s: Seq<char>, pos: int) -> Option<(ExprModel, int)>
    decreases s.len() - pos, 2int,
    when 0 <= pos <= s.len()
    via sp_unary_decreases
{
    let q = sp_ws(s, pos);
    if q < s.len() && s[q] == '!' {
        match sp_unary(s, q + 1) {
            None => None,
            Some((e, p)) => Some((ExprModel::UnOp { op: UnOp::Not, expr: Box::new(e) }, p)),
        }
    } else {
        sp_primary(s, q)
    }
}

#[via_fn]
proof fn sp_unary_decreases(s: Seq<char>, pos: int) {
    if 0 <= pos <= s.len() {
        broadcast use lemma_sp_ws_bounds;

    }
}

/// The relational-comparison operator run over a parsed left operand.
pub open spec fn sp_comp_loop(s: Seq<char>, e: ExprModel, p: int) -> Option<(ExprModel, int)>
    decreases s.len() - p, 7int,
    when 0 <= p <= s.len()
    via sp_comp_loop_decreases
{
    let q = sp_ws(s, p);
    let opw: Option<(BinOp, int)> = if matches_at(s, ">="@, q) {
        Some((BinOp::Ge, 2int))
    } else if matches_at(s, "<="@, q) {
        Some((BinOp::Le, 2int))
    } else if matches_at(s, ">"@, q) {
        Some((BinOp::Gt, 1int))
    } else if matches_at(s, "<"@, q) {
        Some((BinOp::Lt, 1int))
    } else {
        None
    };
    match opw {
        None => Some((e, p)),
        Some((op, w)) => match sp_unary(s, q + w) {
            None => None,
            Some((e2, p2)) => if !(q + w < p2 && p2 <= s.len()) {
                None
            } else {
                sp_comp_loop(
                    s,
                    ExprModel::BinOp { lhs: Box::new(e), op, rhs: Box::new(e2) },
                    p2,
                )
            },
        },
    }
}

#[via_fn]
proof fn sp_comp_loop_decreases(s: Seq<char>, e: ExprModel, p: int) {
    if 0 <= p <= s.len() {
        broadcast use lemma_sp_ws_bounds;

        reveal_strlit(">=");
        reveal_strlit("<=");
        reveal_strlit(">");
        reveal_strlit("<");
    }
}

pub open spec fn sp_comp(s: Seq<char>, pos: int) -> Option<(ExprModel, int)>
    decreases s.len() - pos, 3int,
    when 0 <= pos <= s.len()
{
    match sp_unary(s, pos) {
        None => None,
        Some((e, p)) => if !(pos < p && p <= s.len()) {
            None
        } else {
            sp_comp_loop(s, e, p)
        },
    }
}

/// The equality/inequality operator run over a parsed left operand.
pub open spec fn sp_eq_loop(s: Seq<char>, e: ExprModel, p: int) -> Option<(ExprModel, int)>
    decreases s.len() - p, 7int,
    when 0 <= p <= s.len()
    via sp_eq_loop_decreases
{
    let q = sp_ws(s, p);
    let opk: Option<BinOp> = if matches_at(s, "=="@, q) {
        Some(BinOp::Eq)
    } else if matches_at(s, "!="@, q) {
        Some(BinOp::Neq)
    } else {
        None
    };
    match opk {
        None => Some((e, p)),
        Some(op) => match sp_comp(s, q + 2) {
            None => None,
            Some((e2, p2)) => if !(q + 2 < p2 && p2 <= s.len()) {
                None
            } else {
                sp_eq_loop(s, ExprModel::BinOp { lhs: Box::new(e), op, rhs: Box::new(e2) }, p2)
            },
        },
    }
}

#[via_fn]
proof fn sp_eq_loop_decreases(s: Seq<char>, e: ExprModel, p: int) {
    if 0 <= p <= s.len() {
        broadcast use lemma_sp_ws_bounds;

        reveal_strlit("==");
        reveal_strlit("!=");
    }
}

pub open spec fn sp_eq(s: Seq<char>, pos: int) -> Option<(ExprModel, int)>
    decreases s.len() - pos, 4int,
    when 0 <= pos <= s.len()
{
    match sp_comp(s, pos) {
        None => None,
        Some((e, p)) => if !(pos < p && p <= s.len()) {
            None
        } else {
            sp_eq_loop(s, e, p)
        },
    }
}

/// The logical-and operator run over a parsed left operand.
pub open spec fn sp_and_loop(s: Seq<char>, e: ExprModel, p: int) -> Option<(ExprModel, int)>
    decreases s.len() - p, 7int,
    when 0 <= p <= s.len()
    via sp_and_loop_decreases
{
    let q = sp_ws(s, p);
    if matches_at(s, "&&"@, q) {
        match sp_eq(s, q + 2) {
            None => None,
            Some((e2, p2)) => if !(q + 2 < p2 && p2 <= s.len()) {
                None
            } else {
                sp_and_loop(
                    s,
                    ExprModel::BinOp { lhs: Box::new(e), op: BinOp::And, rhs: Box::new(e2) },
                    p2,
                )
            },
        }
    } else {
        Some((e, p))
    }
}

#[via_fn]
proof fn sp_and_loop_decreases(s: Seq<char>, e: ExprModel, p: int) {
    if 0 <= p <= s.len() {
        broadcast use lemma_sp_ws_bounds;

        reveal_strlit("&&");
    }
}

pub open spec fn sp_and(s: Seq<char>, pos: int) -> Option<(ExprModel, int)>
    decreases s.len() - pos, 5int,
    when 0 <= pos <= s.len()
{
    match sp_eq(s, pos) {
        None => None,
        Some((e, p)) => if !(pos < p && p <= s.len()) {
            None
        } else {
            sp_and_loop(s, e, p)
        },
    }
}

/// The logical-or operator run over a parsed left operand.
pub open spec fn sp_or_loop(s: Seq<char>, e: ExprModel, p: int) -> Option<(ExprModel, int)>
    decreases s.len() - p, 7int,
    when 0 <= p <= s.len()
    via sp_or_loop_decreases
{
    let q = sp_ws(s, p);
    if matches_at(s, "||"@, q) {
        match sp_and(s, q + 2) {
            None => None,
            Some((e2, p2)) => if !(q + 2 < p2 && p2 <= s.len()) {
                None
            } else {
                sp_or_loop(
                    s,
                    ExprModel::BinOp { lhs: Box::new(e), op: BinOp::Or, rhs: Box::new(e2) },
                    p2,
                )
            },
        }
    } else {
        Some((e, p))
    }
}

#[via_fn]
proof fn sp_or_loop_decreases(s: Seq<char>, e: ExprModel, p: int) {
    if 0 <= p <= s.len() {
        broadcast use lemma_sp_ws_bounds;

        reveal_strlit("||");
    }
}

pub open spec fn sp_or(s: Seq<char>, pos: int) -> Option<(ExprModel, int)>
    decreases s.len() - pos, 6int,
    when 0 <= pos <= s.len()
{
    match sp_and(s, pos) {
        None => None,
        Some((e, p)) => if !(pos < p && p <= s.len()) {
            None
        } else {
            sp_or_loop(s, e, p)
        },
    }
}

/// The grammar: what one whole expression text parses to, if anything — a
/// lowest-precedence expression covering, up to trailing whitespace, the
/// entire text.
pub open spec fn spec_parse(text: Seq<char>) -> Option<ExprModel> {
    match sp_or(text, 0) {
        None => None,
        Some((e, p)) => if 0 <= p <= text.len() && sp_ws(text, p) == text.len() {
            Some(e)
        } else {
            None
        },
    }
}


/// Context collection over the model, mirroring [`contexts_of`].
pub open spec fn contexts_of_model(m: ExprModel) -> Seq<Seq<char>>
    decreases m, 0int,
{
    match m {
        ExprModel::Context { raw, components } => seq![raw] + contexts_of_model_list(components),
        ExprModel::Call { func, args } => contexts_of_model_list(args),
        ExprModel::Index(inner) => contexts_of_model(*inner),
        ExprModel::BinOp { lhs, op, rhs } => contexts_of_model(*lhs) + contexts_of_model(*rhs),
        ExprModel::UnOp { op, expr } => contexts_of_model(*expr),
        _ => Seq::empty(),
    }
}

pub open spec fn contexts_of_model_list(ms: Seq<ExprModel>) -> Seq<Seq<char>>
    decreases ms, 1int,
{
    if ms.len() == 0 {
        Seq::empty()
    } else {
        contexts_of_model(ms[0]) + contexts_of_model_list(ms.drop_first())
    }
}

/// The collection over a tree equals the collection over its model.
pub proof fn lemma_contexts_view(e: Expr)
    ensures
        contexts_of(e) == contexts_of_model(expr_view(e)),
    decreases e, 0int,
{
    match e {
        Expr::Context { raw, components } => {
            lemma_contexts_view_list(components@);
        },
        Expr::Call { func, args } => {
            lemma_contexts_view_list(args@);
        },
        Expr::Index(inner) => {
            lemma_contexts_view(*inner);
        },
        Expr::BinOp { lhs, op, rhs } => {
            lemma_contexts_view(*lhs);
            lemma_contexts_view(*rhs);
        },
        Expr::UnOp { op, expr } => {
            lemma_contexts_view(*expr);
        },
        _ => {},
    }
}

pub proof fn lemma_contexts_view_list(es: Seq<Expr>)
    ensures
        contexts_of_list(es) == contexts_of_model_list(exprs_view(es)),
    decreases es, 1int,
{
    if es.len() > 0 {
        lemma_contexts_view(es[0]);
        lemma_contexts_view_list(es.drop_first());
        assert(exprs_view(es)[0] == expr_view(es[0]));
        assert(exprs_view(es).drop_first() =~= exprs_view(es.drop_first()));
        assert(exprs_view(es).len() > 0);
        assert(contexts_of_model_list(exprs_view(es)) == contexts_of_model(exprs_view(es)[0])
            + contexts_of_model_list(exprs_view(es).drop_first()));
    }
}

/// Parse failure: the text is not a well-formed expression.
#[derive(Copy, Clone, Debug, PartialEq, Eq, Structural)]
pub struct ExprParseError;

pub open spec fn is_digit_char(c: char) -> bool {
    48 <= c as u32 && c as u32 <= 57
}

fn is_digit(c: char) -> (r: bool)
    ensures
        r == is_digit_char(c),
{
    let x = c as u32;
    48 <= x && x <= 57
}

pub open spec fn is_ident_start_char(c: char) -> bool {
    (65 <= c as u32 && c as u32 <= 90) || (97 <= c as u32 && c as u32 <= 122) || c as u32 == 95
}

fn is_ident_start(c: char) -> (r: bool)
    ensures
        r == is_ident_start_char(c),
{
    let x = c as u32;
    (65 <= x && x <= 90) || (97 <= x && x <= 122) || x == 95
}

pub open spec fn is_ident_char_spec(c: char) -> bool {
    is_ident_start_char(c) || is_digit_char(c) || c as u32 == 45
}

fn is_ident_char(c: char) -> (r: bool)
    ensures
        r == is_ident_char_spec(c),
{
    let x = c as u32;
    is_ident_start(c) || is_digit(c) || x == 45
}

/// First non-whitespace position at or after `pos`.
fn skip_ws(s: &str, pos: usize) -> (r: usize)
    requires
        pos <= s@.len(),
    ensures
        pos <= r <= s@.len(),
        r as int == sp_ws(s@, pos as int),
{
    let n = s.unicode_len();
    let mut cur = pos;
    while cur < n && crate::text::is_space(s.get_char(cur))
        invariant
            pos <= cur <= n,
            n == s@.len(),
            sp_ws(s@, pos as int) == sp_ws(s@, cur as int),
        decreases n - cur,
    {
        cur += 1;
    }
    cur
}

/// Parse a single-quoted string literal starting at `pos`; a doubled quote
/// inside the literal stands for one quote character.
#[verifier::loop_isolation(false)]
fn parse_string(s: &str, pos: usize) -> (r: Option<(Expr, usize)>)
    requires
        pos < s@.len(),
        s@[pos as int] == '\'',
    ensures
        r matches Some(t) ==> pos < t.1 <= s@.len(),
        match r {
            Some(t) => sp_string(s@, pos + 1, Seq::<char>::empty()) == Some(
                (expr_view(t.0), t.1 as int),
            ),
            None => sp_string(s@, pos + 1, Seq::<char>::empty()) is None,
        },
{
    let n = s.unicode_len();
    let mut cur = pos + 1;
    let mut out = String::new();
    proof {
        assert(out@ =~= Seq::<char>::empty());
    }
    loop
        invariant
            pos < cur <= n,
            n == s@.len(),
            sp_string(s@, pos + 1, Seq::<char>::empty()) == sp_string(s@, cur as int, out@),
        decreases n - cur,
    {
        let found = crate::text::find_char_before(s, '\'', cur, n);
        proof {
            match found {
                Some(i) => {
                    crate::text::lemma_first_char_match_witness(s@, '\'', cur as int, i as int);
                },
                None => {
                    crate::text::lemma_first_char_match_absent(s@, '\'', cur as int);
                },
            }
        }
        let k = match found {
            None => {
                return None;
            },
            Some(k) => k,
        };
        let piece = s.substring_char(cur, k);
        out.append(piece);
        if k + 1 < n && s.get_char(k + 1) == '\'' {
            out.append("'");
            proof {
                reveal_strlit("'");
                assert("'"@ =~= seq!['\'']);
            }
            cur = k + 2;
        } else {
            return Some((Expr::Str(out), k + 1));
        }
    }
}

/// Parse a numeric literal (optional sign, digits, optional fraction and
/// exponent) starting at `pos`, keeping its raw text.
#[verifier::loop_isolation(false)]
fn parse_number(s: &str, pos: usize) -> (r: Option<(Expr, usize)>)
    requires
        pos < s@.len(),
    ensures
        r matches Some(t) ==> pos < t.1 <= s@.len(),
        match r {
            Some(t) => sp_number(s@, pos as int) == Some((expr_view(t.0), t.1 as int)),
            None => sp_number(s@, pos as int) is None,
        },
{
    let n = s.unicode_len();
    let mut cur = pos;
    if s.get_char(cur) == '-' {
        cur += 1;
    }
    let ghost cur0 = cur as int;
    if cur >= n || !is_digit(s.get_char(cur)) {
        return None;
    }
    cur += 1;
    while cur < n && is_digit(s.get_char(cur))
        invariant
            pos < cur <= n,
            cur0 + 1 <= cur,
            n == s@.len(),
            digits_end(s@, cur0 + 1) == digits_end(s@, cur as int),
        decreases n - cur,
    {
        cur += 1;
    }
    proof {
        assert(cur as int == digits_end(s@, cur0 + 1));
    }
    let ghost c1 = cur as int;
    if cur < n && s.get_char(cur) == '.' && cur + 1 < n && is_digit(s.get_char(cur + 1)) {
        cur += 2;
        while cur < n && is_digit(s.get_char(cur))
            invariant
                pos < cur <= n,
                c1 + 2 <= cur,
                n == s@.len(),
                digits_end(s@, c1 + 2) == digits_end(s@, cur as int),
            decreases n - cur,
        {
            cur += 1;
        }
        proof {
            assert(cur as int == digits_end(s@, c1 + 2));
        }
    }
    let ghost c2 = cur as int;
    if cur < n && (s.get_char(cur) == 'e' || s.get_char(cur) == 'E') {
        let mut epos = cur + 1;
        if epos < n && s.get_char(epos) == '-' {
            epos += 1;
        }
        let ghost ep = epos as int;
        if epos < n && is_digit(s.get_char(epos)) {
            cur = epos + 1;
            while cur < n && is_digit(s.get_char(cur))
                invariant
                    pos < cur <= n,
                    ep + 1 <= cur,
                    n == s@.len(),
                    digits_end(s@, ep + 1) == digits_end(s@, cur as int),
                decreases n - cur,
            {
                cur += 1;
            }
            proof {
                assert(cur as int == digits_end(s@, ep + 1));
            }
        }
    }
    proof {
        assert(sp_number(s@, pos as int) == Some(
            (ExprModel::Number(s@.subrange(pos as int, cur as int)), cur as int),
        ));
    }
    Some((Expr::Number(substr_copy(s, pos, cur)), cur))
}

/// Parse a parenthesized, comma-separated argument list; `pos` points just
/// past the opening parenthesis.
#[verifier::loop_isolation(false)]
fn parse_args(s: &str, pos: usize) -> (r: Option<(Vec<Expr>, usize)>)
    requires
        pos <= s@.len(),
    ensures
        r matches Some(t) ==> pos < t.1 <= s@.len(),
        match r {
            Some(t) => sp_args(s@, pos as int) == Some((exprs_view(t.0@), t.1 as int)),
            None => sp_args(s@, pos as int) is None,
        },
    decreases s@.len() - pos, 8int,
{
    let n = s.unicode_len();
    let mut args: Vec<Expr> = Vec::new();
    proof {
        assert(exprs_view(args@) =~= Seq::<ExprModel>::empty());
    }
    let q0 = skip_ws(s, pos);
    if q0 < n && s.get_char(q0) == ')' {
        return Some((args, q0 + 1));
    }
    let mut cur = q0;
    loop
        invariant
            pos <= cur <= n,
            sp_args(s@, pos as int) == sp_args_loop(s@, cur as int, exprs_view(args@)),
        decreases n - cur,
    {
        let (e, p) = match parse_or(s, cur) {
            None => {
                return None;
            },
            Some(t) => t,
        };
        let ghost av = exprs_view(args@);
        proof {
            lemma_exprs_view_push(args@, e);
        }
        args.push(e);
        proof {
            assert(exprs_view(args@) =~= av.push(expr_view(e)));
        }
        let q = skip_ws(s, p);
        if q < n && s.get_char(q) == ',' {
            cur = q + 1;
        } else if q < n && s.get_char(q) == ')' {
            return Some((args, q + 1));
        } else {
            return None;
        }
    }
}

/// Parse the dotted/indexed continuation of a context chain beginning at
/// `chain_start`; `head` is a leading call expression, if the chain starts
/// with one, and `pos` points just past the head segment.
#[verifier::loop_isolation(false)]
fn parse_chain(s: &str, chain_start: usize, head: Option<Expr>, pos: usize) -> (r: Option<
    (Expr, usize),
>)
    requires
        chain_start < pos <= s@.len(),
    ensures
        r matches Some(t) ==> chain_start < t.1 <= s@.len(),
        ({
            let hv = match head {
                Some(h) => Some(expr_view(h)),
                None => None,
            };
            match r {
                Some(t) => sp_chain(s@, chain_start as int, hv, pos as int) == Some(
                    (expr_view(t.0), t.1 as int),
                ),
                None => sp_chain(s@, chain_start as int, hv, pos as int) is None,
            }
        }),
    decreases s@.len() - pos, 8int,
{
    let ghost hv: Option<ExprModel> = match &head {
        Some(h) => Some(expr_view(*h)),
        None => None,
    };
    let ghost head_seq: Seq<ExprModel> = match hv {
        Some(m) => seq![m],
        None => Seq::empty(),
    };
    let n = s.unicode_len();
    let mut components: Vec<Expr> = Vec::new();
    let is_call_head = match head {
        Some(h) => {
            proof {
                lemma_exprs_view_push(components@, h);
                assert(exprs_view(components@) =~= Seq::<ExprModel>::empty());
            }
            components.push(h);
            true
        },
        None => false,
    };
    proof {
        assert(exprs_view(components@) =~= head_seq);
        assert(is_call_head == (hv is Some));
    }
    let ghost mut steps_acc: Seq<ExprModel> = Seq::empty();
    let mut cur = pos;
    let mut chained = false;
    loop
        invariant
            chain_start < pos <= cur <= n,
            n == s@.len(),
            exprs_view(components@) == head_seq + steps_acc,
            is_call_head == (hv is Some),
            !chained ==> steps_acc == Seq::<ExprModel>::empty(),
            sp_chain_steps(s@, pos as int, Seq::<ExprModel>::empty(), false) == sp_chain_steps(
                s@,
                cur as int,
                steps_acc,
                chained,
            ),
        decreases n - cur,
    {
        if cur < n && s.get_char(cur) == '.' {
            if cur + 1 < n && s.get_char(cur + 1) == '*' {
                proof {
                    lemma_exprs_view_push(components@, Expr::Star);
                    steps_acc = steps_acc.push(ExprModel::Star);
                }
                components.push(Expr::Star);
                proof {
                    assert(exprs_view(components@) =~= head_seq + steps_acc);
                }
                chained = true;
                cur = cur + 2;
            } else if cur + 1 < n && is_ident_start(s.get_char(cur + 1)) {
                let mut idend = cur + 2;
                while idend < n && is_ident_char(s.get_char(idend))
                    invariant
                        cur + 2 <= idend <= n,
                        ident_end(s@, cur as int + 2) == ident_end(s@, idend as int),
                    decreases n - idend,
                {
                    idend += 1;
                }
                proof {
                    assert(idend as int == ident_end(s@, cur as int + 2));
                }
                chained = true;
                cur = idend;
            } else {
                return None;
            }
        } else if cur < n && s.get_char(cur) == '[' {
            let q = skip_ws(s, cur + 1);
            if q < n && s.get_char(q) == '*' {
                let q2 = skip_ws(s, q + 1);
                if q2 < n && s.get_char(q2) == ']' {
                    proof {
                        lemma_exprs_view_push(components@, Expr::Star);
                        steps_acc = steps_acc.push(ExprModel::Star);
                    }
                    components.push(Expr::Star);
                    proof {
                        assert(exprs_view(components@) =~= head_seq + steps_acc);
                    }
                    chained = true;
                    cur = q2 + 1;
                } else {
                    return None;
                }
            } else {
                let (e, p) = match parse_or(s, cur + 1) {
                    None => {
                        return None;
                    },
                    Some(t) => t,
                };
                let q2 = skip_ws(s, p);
                if q2 < n && s.get_char(q2) == ']' {
                    let boxed = Expr::Index(Box::new(e));
                    proof {
                        lemma_exprs_view_push(components@, boxed);
                        steps_acc = steps_acc.push(expr_view(boxed));
                    }
                    components.push(boxed);
                    proof {
                        assert(exprs_view(components@) =~= head_seq + steps_acc);
                    }
                    chained = true;
                    cur = q2 + 1;
                } else {
                    return None;
                }
            }
        } else {
            break;
        }
    }
    proof {
        assert(sp_chain_steps(s@, pos as int, Seq::<ExprModel>::empty(), false) == Some(
            (steps_acc, chained, cur as int),
        ));
        lemma_exprs_view_index(components@);
    }
    if is_call_head {
        if !chained {
            // A bare call: `components` holds exactly the head.
            proof {
                assert(head_seq.len() == 1);
                assert(exprs_view(components@).len() == 1);
                assert(components@.len() == 1);
            }
            let mut components = components;
            let ghost cv = components@;
            match components.pop() {
                Some(h) => {
                    proof {
                        lemma_exprs_view_index(cv);
                        assert(exprs_view(cv)[0] == expr_view(h));
                    }
                    return Some((h, cur));
                },
                None => {
                    proof {
                        assert(false);
                    }
                    return None;
                },
            }
        }
        let raw = substr_copy(s, chain_start, cur);
        return Some((Expr::Context { raw, components }, cur));
    }
    let raw = substr_copy(s, chain_start, cur);
    if !chained {
        if str_eq(raw.as_str(), "true") {
            return Some((Expr::Boolean(true), cur));
        }
        if str_eq(raw.as_str(), "false") {
            return Some((Expr::Boolean(false), cur));
        }
        if str_eq(raw.as_str(), "null") {
            return Some((Expr::Null, cur));
        }
    }
    proof {
        assert(head_seq =~= Seq::<ExprModel>::empty());
        assert(exprs_view(components@) =~= steps_acc);
    }
    Some((Expr::Context { raw, components }, cur))
}

/// Parse a primary expression: a literal, a parenthesized expression, a
/// function call, or a context reference.
#[verifier::loop_isolation(false)]
fn parse_primary(s: &str, pos: usize) -> (r: Option<(Expr, usize)>)
    requires
        pos <= s@.len(),
    ensures
        r matches Some(t) ==> pos < t.1 <= s@.len(),
        match r {
            Some(t) => sp_primary(s@, pos as int) == Some((expr_view(t.0), t.1 as int)),
            None => sp_primary(s@, pos as int) is None,
        },
    decreases s@.len() - pos, 1int,
{
    let n = s.unicode_len();
    let start = skip_ws(s, pos);
    if start >= n {
        return None;
    }
    let c = s.get_char(start);
    if c == '\'' {
        match parse_string(s, start) {
            None => None,
            Some((e, p)) => Some((e, p)),
        }
    } else if c == '(' {
        let (e, p) = match parse_or(s, start + 1) {
            None => {
                return None;
            },
            Some(t) => t,
        };
        let q = skip_ws(s, p);
        if q < n && s.get_char(q) == ')' {
            Some((e, q + 1))
        } else {
            None
        }
    } else if is_digit(c) || c == '-' {
        parse_number(s, start)
    } else if is_ident_start(c) {
        let mut idend = start + 1;
        while idend < n && is_ident_char(s.get_char(idend))
            invariant
                start + 1 <= idend <= n,
                ident_end(s@, start as int + 1) == ident_end(s@, idend as int),
            decreases n - idend,
        {
            idend += 1;
        }
        proof {
            assert(idend as int == ident_end(s@, start as int + 1));
        }
        if idend < n && s.get_char(idend) == '(' {
            let (args, p) = match parse_args(s, idend + 1) {
                None => {
                    return None;
                },
                Some(t) => t,
            };
            let func = substr_copy(s, start, idend);
            parse_chain(s, start, Some(Expr::Call { func, args }), p)
        } else {
            parse_chain(s, start, None, idend)
        }
    } else {
        None
    }
}

/// Parse a unary expression: any number of negations, then a primary.
fn parse_unary(s: &str, pos: usize) -> (r: Option<(Expr, usize)>)
    requires
        pos <= s@.len(),
    ensures
        r matches Some(t) ==> pos < t.1 <= s@.len(),
        match r {
            Some(t) => sp_unary(s@, pos as int) == Some((expr_view(t.0), t.1 as int)),
            None => sp_unary(s@, pos as int) is None,
        },
    decreases s@.len() - pos, 2int,
{
    let n = s.unicode_len();
    let q = skip_ws(s, pos);
    if q < n && s.get_char(q) == '!' {
        match parse_unary(s, q + 1) {
            None => None,
            Some((e, p)) => Some((Expr::UnOp { op: UnOp::Not, expr: Box::new(e) }, p)),
        }
    } else {
        match parse_primary(s, q) {
            None => None,
            Some((e, p)) => Some((e, p)),
        }
    }
}

/// Parse a relational-comparison level expression.
#[verifier::loop_isolation(false)]
fn parse_comp(s: &str, pos: usize) -> (r: Option<(Expr, usize)>)
    requires
        pos <= s@.len(),
    ensures
        r matches Some(t) ==> pos < t.1 <= s@.len(),
        match r {
            Some(t) => sp_comp(s@, pos as int) == Some((expr_view(t.0), t.1 as int)),
            None => sp_comp(s@, pos as int) is None,
        },
    decreases s@.len() - pos, 3int,
{
    let n = s.unicode_len();
    let (mut e, mut p) = match parse_unary(s, pos) {
        None => {
            return None;
        },
        Some(t) => t,
    };
    loop
        invariant
            pos < p <= n,
            n == s@.len(),
            sp_comp(s@, pos as int) == sp_comp_loop(s@, expr_view(e), p as int),
        decreases n - p,
    {
        let q = skip_ws(s, p);
        proof {
            reveal_strlit(">=");
            reveal_strlit("<=");
            reveal_strlit(">");
            reveal_strlit("<");
        }
        let (op, w) = if starts_at(s, ">=", q) {
            (BinOp::Ge, 2usize)
        } else if starts_at(s, "<=", q) {
            (BinOp::Le, 2usize)
        } else if starts_at(s, ">", q) {
            (BinOp::Gt, 1usize)
        } else if starts_at(s, "<", q) {
            (BinOp::Lt, 1usize)
        } else {
            return Some((e, p));
        };
        let (e2, p2) = match parse_unary(s, q + w) {
            None => {
                return None;
            },
            Some(t) => t,
        };
        e = Expr::BinOp { lhs: Box::new(e), op, rhs: Box::new(e2) };
        p = p2;
    }
}

/// Parse an equality/inequality level expression.
#[verifier::loop_isolation(false)]
fn parse_eq(s: &str, pos: usize) -> (r: Option<(Expr, usize)>)
    requires
        pos <= s@.len(),
    ensures
        r matches Some(t) ==> pos < t.1 <= s@.len(),
        match r {
            Some(t) => sp_eq(s@, pos as int) == Some((expr_view(t.0), t.1 as int)),
            None => sp_eq(s@, pos as int) is None,
        },
    decreases s@.len() - pos, 4int,
{
    let n = s.unicode_len();
    let (mut e, mut p) = match parse_comp(s, pos) {
        None => {
            return None;
        },
        Some(t) => t,
    };
    loop
        invariant
            pos < p <= n,
            n == s@.len(),
            sp_eq(s@, pos as int) == sp_eq_loop(s@, expr_view(e), p as int),
        decreases n - p,
    {
        let q = skip_ws(s, p);
        proof {
            reveal_strlit("==");
            reveal_strlit("!=");
        }
        let op = if starts_at(s, "==", q) {
            BinOp::Eq
        } else if starts_at(s, "!=", q) {
            BinOp::Neq
        } else {
            return Some((e, p));
        };
        let (e2, p2) = match parse_comp(s, q + 2) {
            None => {
                return None;
            },
            Some(t) => t,
        };
        e = Expr::BinOp { lhs: Box::new(e), op, rhs: Box::new(e2) };
        p = p2;
    }
}

/// Parse a logical-and level expression.
#[verifier::loop_isolation(false)]
fn parse_and(s: &str, pos: usize) -> (r: Option<(Expr, usize)>)
    requires
        pos <= s@.len(),
    ensures
        r matches Some(t) ==> pos < t.1 <= s@.len(),
        match r {
            Some(t) => sp_and(s@, pos as int) == Some((expr_view(t.0), t.1 as int)),
            None => sp_and(s@, pos as int) is None,
        },
    decreases s@.len() - pos, 5int,
{
    let n = s.unicode_len();
    let (mut e, mut p) = match parse_eq(s, pos) {
        None => {
            return None;
        },
        Some(t) => t,
    };
    loop
        invariant
            pos < p <= n,
            n == s@.len(),
            sp_and(s@, pos as int) == sp_and_loop(s@, expr_view(e), p as int),
        decreases n - p,
    {
        let q = skip_ws(s, p);
        proof {
            reveal_strlit("&&");
        }
        if starts_at(s, "&&", q) {
            let (e2, p2) = match parse_eq(s, q + 2) {
                None => {
                    return None;
                },
                Some(t) => t,
            };
            e = Expr::BinOp { lhs: Box::new(e), op: BinOp::And, rhs: Box::new(e2) };
            p = p2;
        } else {
            return Some((e, p));
        }
    }
}

/// Parse a logical-or level expression: the whole grammar's lowest level.
#[verifier::loop_isolation(false)]
fn parse_or(s: &str, pos: usize) -> (r: Option<(Expr, usize)>)
    requires
        pos <= s@.len(),
    ensures
        r matches Some(t) ==> pos < t.1 <= s@.len(),
        match r {
            Some(t) => sp_or(s@, pos as int) == Some((expr_view(t.0), t.1 as int)),
            None => sp_or(s@, pos as int) is None,
        },
    decreases s@.len() - pos, 6int,
{
    let n = s.unicode_len();
    let (mut e, mut p) = match parse_and(s, pos) {
        None => {
            return None;
        },
        Some(t) => t,
    };
    loop
        invariant
            pos < p <= n,
            n == s@.len(),
            sp_or(s@, pos as int) == sp_or_loop(s@, expr_view(e), p as int),
        decreases n - p,
    {
        let q = skip_ws(s, p);
        proof {
            reveal_strlit("||");
        }
        if starts_at(s, "||", q) {
            let (e2, p2) = match parse_and(s, q + 2) {
                None => {
                    return None;
                },
                Some(t) => t,
            };
            e = Expr::BinOp { lhs: Box::new(e), op: BinOp::Or, rhs: Box::new(e2) };
            p = p2;
        } else {
            return Some((e, p));
        }
    }
}

impl Expr {
    /// Parse the bare text of one template expression into a tree.
    ///
    /// Exactly the grammar: parsing succeeds, with the tree [`spec_parse`]
    /// gives, on precisely the texts that function accepts, and fails on
    /// every other text — never with a panic or a partial result.
    pub fn parse(text: &str) -> (r: Result<Expr, ExprParseError>)
        ensures
            match r {
                Ok(e) => spec_parse(text@) == Some(expr_view(e)),
                Err(_) => spec_parse(text@) is None,
            },
    {
        match parse_or(text, 0) {
            None => Err(ExprParseError),
            Some((e, p)) => {
                let q = skip_ws(text, p);
                if q == text.unicode_len() {
                    Ok(e)
                } else {
                    Err(ExprParseError)
                }
            },
        }
    }
}

} // verus!
