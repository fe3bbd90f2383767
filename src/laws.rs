use vstd::prelude::*;
use crate::ast::{Atom, AtomValue, Expression, Program, Statement};
use crate::folding::{
    combine, expr_error, fold_expr, prefix_folded, program_error, program_folded,
    stmt_error, stmt_folded, stmts_error,
};
use crate::operator::Operator;

verus! {

broadcast use vstd::std_specs::vec::group_vec_axioms, vstd::seq::group_seq_axioms;

/// Changing the sign of an atom that folding leaves unchanged leaves it a
/// fixed point.
proof fn lemma_atom_fixpoint_any_sign(
    a: Atom,
    n: bool,
    dec: spec_fn(Operator, u64, u64) -> u64,
)
    requires
        fold_expr(Expression::Atom(a), dec) == Ok::<Expression, crate::folding::FoldError>(
            Expression::Atom(a),
        ),
    ensures
        fold_expr(Expression::Atom(Atom { negative: n, ..a }), dec) == Ok::<
            Expression,
            crate::folding::FoldError,
        >(Expression::Atom(Atom { negative: n, ..a })),
{
}

/// Folding a folded expression gives it back.
pub proof fn lemma_fold_expr_fixpoint(e: Expression, dec: spec_fn(Operator, u64, u64) -> u64)
    requires
        fold_expr(e, dec) is Ok,
    ensures
        fold_expr(fold_expr(e, dec)->Ok_0, dec) == fold_expr(e, dec),
    decreases e,
{
    match e {
        Expression::Atom(a) => {
            if let AtomValue::ParExpr(inner) = a.value {
                lemma_fold_expr_fixpoint(*inner, dec);
                let fi = fold_expr(*inner, dec)->Ok_0;
                if let Expression::Atom(ia) = fi {
                    lemma_atom_fixpoint_any_sign(ia, a.negative != ia.negative, dec);
                }
            }
        },
        Expression::BinaryOperation(l, op, r) => {
            lemma_fold_expr_fixpoint(*l, dec);
            lemma_fold_expr_fixpoint(*r, dec);
        },
    }
}

proof fn lemma_prefix_fixpoint(
    s: Seq<Statement>,
    r: Seq<Statement>,
    n: nat,
    dec: spec_fn(Operator, u64, u64) -> u64,
)
    requires
        stmts_error(s, n, dec) is None,
        prefix_folded(s, r, n, dec),
    ensures
        stmts_error(r, n, dec) is None,
        prefix_folded(r, r, n, dec),
    decreases s, n,
{
    if n > 0 {
        lemma_prefix_fixpoint(s, r, (n - 1) as nat, dec);
        assert(decreases_to!(s => s[n - 1]));
        lemma_stmt_fixpoint(s[n - 1], r[n - 1], dec);
    }
}

proof fn lemma_stmt_fixpoint(s: Statement, r: Statement, dec: spec_fn(Operator, u64, u64) -> u64)
    requires
        stmt_error(s, dec) is None,
        stmt_folded(s, r, dec),
    ensures
        stmt_error(r, dec) is None,
        stmt_folded(r, r, dec),
    decreases s, 0nat,
{
    match (s, r) {
        (Statement::Function(fd), Statement::Function(fr)) => {
            lemma_prefix_fixpoint(
                fd.body.statements@,
                fr.body.statements@,
                fd.body.statements@.len(),
                dec,
            );
        },
        (Statement::VariableDeclaration(v), Statement::VariableDeclaration(w)) => {
            if let Some(e) = v.value {
                lemma_fold_expr_fixpoint(e, dec);

            }
        },
        (Statement::Expression(e), Statement::Expression(f)) => {
            lemma_fold_expr_fixpoint(e, dec);
        },
        (Statement::Conditional(c), Statement::Conditional(d)) => {
            lemma_fold_expr_fixpoint(c.condition, dec);
            lemma_prefix_fixpoint(
                c.then_block.statements@,
                d.then_block.statements@,
                c.then_block.statements@.len(),
                dec,
            );
            if let (Some(x), Some(y)) = (c.else_block, d.else_block) {
                lemma_prefix_fixpoint(x.statements@, y.statements@, x.statements@.len(), dec);
            }
        },
        _ => {},
    }
}

/// Folding is idempotent: a program produced by folding folds without error
/// back to itself, whatever the evaluation of decimal operations.
pub proof fn lemma_fold_idempotent(p: Program, q: Program, dec: spec_fn(Operator, u64, u64) -> u64)
    requires
        program_error(p, dec) is None,
        program_folded(p, q, dec),
    ensures
        program_error(q, dec) is None,
        program_folded(q, q, dec),
{
    lemma_prefix_fixpoint(p.statements@, q.statements@, p.statements@.len(), dec);
}

/// Comparison operators are never folded: over any folded operands the
/// operation stays as it is.
pub proof fn lemma_comparison_not_folded(
    lhs: Expression,
    op: Operator,
    rhs: Expression,
    dec: spec_fn(Operator, u64, u64) -> u64,
)
    requires
        op.spec_is_comparison(),
    ensures
        combine(lhs, op, rhs, dec) == Ok::<Expression, crate::folding::FoldError>(
            Expression::BinaryOperation(Box::new(lhs), op, Box::new(rhs)),
        ),
{
}

/// Integer literals of different signedness are never combined: their types
/// do not join, so the operation stays as it is.
pub proof fn lemma_mixed_signedness_not_folded(
    lhs: Atom,
    op: Operator,
    rhs: Atom,
    dec: spec_fn(Operator, u64, u64) -> u64,
)
    requires
        lhs.ty matches Some(lt) && lt.spec_is_integral(),
        rhs.ty matches Some(rt) && rt.spec_is_integral(),
        lhs.ty->0.spec_is_signed() != rhs.ty->0.spec_is_signed(),
    ensures
        combine(Expression::Atom(lhs), op, Expression::Atom(rhs), dec) == Ok::<
            Expression,
            crate::folding::FoldError,
        >(Expression::BinaryOperation(Box::new(Expression::Atom(lhs)), op, Box::new(Expression::Atom(rhs)))),
{
}

} // verus!
