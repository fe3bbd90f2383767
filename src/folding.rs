use vstd::prelude::*;
use crate::ast::{
    below_zero, signed_bits, signed_value, Atom, AtomValue, Block, Conditional,
    Expression, FunctionDefinition, Program, Statement, VariableDeclaration, SIGN_BIT,
};
use crate::copying::{copy_type, opt_type_eqv};
use crate::operator::Operator;
use crate::types::Type;

verus! {

broadcast use vstd::std_specs::vec::group_vec_axioms, vstd::seq::group_seq_axioms;

/// Why a fold could not be completed.
#[derive(PartialEq, Eq, Structural, Debug, Clone, Copy)]
pub enum FoldError {
    /// An integer division or remainder whose divisor is zero.
    DivisionByZero,
    /// An integer result whose magnitude does not fit in 128 bits.
    Overflow,
}

/// The constant-folding pass: collapses literal arithmetic bottom-up.
#[derive(Debug, Clone, Copy)]
pub struct ConstantFolding;

/// A caller-supplied evaluator of floating-point operations on binary64 bit
/// patterns: total, and a function of its arguments.
pub open spec fn decimal_evaluator<F: Fn(Operator, u64, u64) -> u64>(f: F) -> bool {
    &&& forall|op: Operator, a: u64, b: u64| #[trigger] f.requires((op, a, b))
    &&& forall|op: Operator, a: u64, b: u64, x: u64, y: u64|
        #![trigger f.ensures((op, a, b), x), f.ensures((op, a, b), y)]
        f.ensures((op, a, b), x) && f.ensures((op, a, b), y) ==> x == y
}

/// The function that an evaluator computes.
pub open spec fn decimal_fn<F: Fn(Operator, u64, u64) -> u64>(f: F) -> spec_fn(
    Operator,
    u64,
    u64,
) -> u64 {
    |op: Operator, a: u64, b: u64| choose|x: u64| f.ensures((op, a, b), x)
}

pub open spec fn abs_int(x: int) -> int {
    if x < 0 {
        -x
    } else {
        x
    }
}

/// Integer division truncating toward zero.
pub open spec fn trunc_div(a: int, b: int) -> int {
    let q = abs_int(a) / abs_int(b);
    if (a < 0) != (b < 0) {
        -q
    } else {
        q
    }
}

/// The remainder of truncating division: it takes the dividend's sign.
pub open spec fn trunc_rem(a: int, b: int) -> int {
    let m = abs_int(a) % abs_int(b);
    if a < 0 {
        -m
    } else {
        m
    }
}

/// `a <op> b` on mathematical integers, for the five foldable operators.
pub open spec fn integer_result(op: Operator, a: int, b: int) -> int {
    match op {
        Operator::Add => a + b,
        Operator::Subtract => a - b,
        Operator::Multiply => a * b,
        Operator::Divide => trunc_div(a, b),
        _ => trunc_rem(a, b),
    }
}

/// Sign and magnitude of an integer fold, or why it fails.
pub open spec fn integer_fold(op: Operator, ln: bool, lm: u128, rn: bool, rm: u128) -> Result<
    (bool, u128),
    FoldError,
> {
    let r = integer_result(op, signed_value(ln, lm), signed_value(rn, rm));
    if (op is Divide || op is Modulo) && rm == 0 {
        Err(FoldError::DivisionByZero)
    } else if abs_int(r) > u128::MAX {
        Err(FoldError::Overflow)
    } else {
        Ok((r < 0, abs_int(r) as u128))
    }
}

/// Whether `la <op> ra` is evaluated: a foldable operator over two typed
/// literals of one category whose types join.
pub open spec fn folds_numerically(la: Atom, op: Operator, ra: Atom) -> bool {
    &&& op.spec_is_foldable()
    &&& la.ty is Some
    &&& ra.ty is Some
    &&& la.ty->0.spec_join(ra.ty->0) matches Some(t) && ((t.spec_is_integral()
        && la.value is Integer && ra.value is Integer) || (t.spec_is_decimal()
        && la.value is Float && ra.value is Float))
}

/// The result of evaluating `la <op> ra` (when `folds_numerically` holds).
pub open spec fn numeric_result(
    la: Atom,
    op: Operator,
    ra: Atom,
    dec: spec_fn(Operator, u64, u64) -> u64,
) -> Result<Expression, FoldError> {
    let t = la.ty->0.spec_join(ra.ty->0)->0;
    if t.spec_is_integral() {
        match integer_fold(
            op,
            la.negative,
            la.value->Integer_0,
            ra.negative,
            ra.value->Integer_0,
        ) {
            Ok((n, m)) => Ok(
                Expression::Atom(Atom { negative: n, value: AtomValue::Integer(m), ty: Some(t) }),
            ),
            Err(e) => Err(e),
        }
    } else {
        let x = dec(
            op,
            signed_bits(la.negative, la.value->Float_0),
            signed_bits(ra.negative, ra.value->Float_0),
        );
        Ok(
            Expression::Atom(
                Atom {
                    negative: below_zero(x),
                    value: AtomValue::Float(x & !SIGN_BIT),
                    ty: Some(t),
                },
            ),
        )
    }
}

/// A binary operation over already folded operands.
pub open spec fn combine(
    l: Expression,
    op: Operator,
    r: Expression,
    dec: spec_fn(Operator, u64, u64) -> u64,
) -> Result<Expression, FoldError> {
    if l is Atom && r is Atom && folds_numerically(l->Atom_0, op, r->Atom_0) {
        numeric_result(l->Atom_0, op, r->Atom_0, dec)
    } else {
        Ok(Expression::BinaryOperation(Box::new(l), op, Box::new(r)))
    }
}

/// Folding of an expression, children before parents. A parenthesized
/// composite that folds to an atom loses its parentheses, the outer sign
/// flipping the inner one.
pub open spec fn fold_expr(e: Expression, dec: spec_fn(Operator, u64, u64) -> u64) -> Result<
    Expression,
    FoldError,
>
    decreases e,
{
    match e {
        Expression::Atom(a) => match a.value {
            AtomValue::ParExpr(inner) => match fold_expr(*inner, dec) {
                Ok(Expression::Atom(ia)) => Ok(
                    Expression::Atom(
                        Atom { negative: a.negative != ia.negative, value: ia.value, ty: ia.ty },
                    ),
                ),
                Ok(f) => Ok(
                    Expression::Atom(
                        Atom { negative: a.negative, value: AtomValue::ParExpr(Box::new(f)), ty: a.ty },
                    ),
                ),
                Err(x) => Err(x),
            },
            _ => Ok(e),
        },
        Expression::BinaryOperation(l, op, r) => match fold_expr(*l, dec) {
            Err(x) => Err(x),
            Ok(fl) => match fold_expr(*r, dec) {
                Err(x) => Err(x),
                Ok(fr) => combine(fl, op, fr, dec),
            },
        },
    }
}

pub open spec fn expr_error(e: Expression, dec: spec_fn(Operator, u64, u64) -> u64) -> Option<
    FoldError,
> {
    match fold_expr(e, dec) {
        Err(x) => Some(x),
        Ok(_) => None,
    }
}

/// The type a declaration records once its initializer is folded: a numeric
/// literal imposes a copy of its own type; otherwise the declared type stays.
pub open spec fn records_type(declared: Option<Type>, folded: Expression, recorded: Option<Type>) -> bool {
    if folded is Atom && folded->Atom_0.value.spec_is_simple() {
        opt_type_eqv(folded->Atom_0.ty, recorded)
    } else {
        recorded == declared
    }
}

/// The first error met when folding a statement, in program order.
pub open spec fn stmt_error(s: Statement, dec: spec_fn(Operator, u64, u64) -> u64) -> Option<
    FoldError,
>
    decreases s, 0nat,
{
    match s {
        Statement::Function(fd) => stmts_error(
            fd.body.statements@,
            fd.body.statements@.len(),
            dec,
        ),
        Statement::VariableDeclaration(vd) => match vd.value {
            Some(e) => expr_error(e, dec),
            None => None,
        },
        Statement::Expression(e) => expr_error(e, dec),
        Statement::Conditional(c) => match expr_error(c.condition, dec) {
            Some(x) => Some(x),
            None => match stmts_error(
                c.then_block.statements@,
                c.then_block.statements@.len(),
                dec,
            ) {
                Some(x) => Some(x),
                None => match c.else_block {
                    Some(b) => stmts_error(b.statements@, b.statements@.len(), dec),
                    None => None,
                },
            },
        },
    }
}

/// The first error met when folding the first `n` statements of `s`.
pub open spec fn stmts_error(
    s: Seq<Statement>,
    n: nat,
    dec: spec_fn(Operator, u64, u64) -> u64,
) -> Option<FoldError>
    decreases s, n,
{
    if n == 0 || n > s.len() {
        None
    } else {
        match stmts_error(s, (n - 1) as nat, dec) {
            Some(x) => Some(x),
            None => stmt_error(s[n - 1], dec),
        }
    }
}

/// `r` is the fold of `s`: the same shape, every expression folded, and a
/// declaration's recorded type as `records_type` says.
pub open spec fn stmt_folded(
    s: Statement,
    r: Statement,
    dec: spec_fn(Operator, u64, u64) -> u64,
) -> bool
    decreases s, 0nat,
{
    match (s, r) {
        (Statement::Function(fd), Statement::Function(fr)) => {
            &&& fr.name == fd.name
            &&& fr.inputs == fd.inputs
            &&& fr.return_type == fd.return_type
            &&& stmts_folded(fd.body.statements@, fr.body.statements@, dec)
        },
        (Statement::VariableDeclaration(v), Statement::VariableDeclaration(w)) => {
            &&& w.name == v.name
            &&& match v.value {
                None => w.value is None && w.var_type == v.var_type,
                Some(e) => fold_expr(e, dec) matches Ok(fe) && w.value == Some(fe)
                    && records_type(v.var_type, fe, w.var_type),
            }
        },
        (Statement::Expression(e), Statement::Expression(f)) => fold_expr(e, dec) == Ok::<
            Expression,
            FoldError,
        >(f),
        (Statement::Conditional(c), Statement::Conditional(d)) => {
            &&& fold_expr(c.condition, dec) == Ok::<Expression, FoldError>(d.condition)
            &&& stmts_folded(c.then_block.statements@, d.then_block.statements@, dec)
            &&& match (c.else_block, d.else_block) {
                (None, None) => true,
                (Some(x), Some(y)) => stmts_folded(x.statements@, y.statements@, dec),
                _ => false,
            }
        },
        _ => false,
    }
}

/// `r` is the statement-by-statement fold of `s`.
pub open spec fn stmts_folded(
    s: Seq<Statement>,
    r: Seq<Statement>,
    dec: spec_fn(Operator, u64, u64) -> u64,
) -> bool
    decreases s, s.len() + 1,
{
    r.len() == s.len() && prefix_folded(s, r, s.len(), dec)
}

/// The first `n` statements of `r` are the folds of those of `s`.
pub open spec fn prefix_folded(
    s: Seq<Statement>,
    r: Seq<Statement>,
    n: nat,
    dec: spec_fn(Operator, u64, u64) -> u64,
) -> bool
    decreases s, n,
{
    if n == 0 {
        true
    } else if n > s.len() || n > r.len() {
        false
    } else {
        prefix_folded(s, r, (n - 1) as nat, dec) && stmt_folded(s[n - 1], r[n - 1], dec)
    }
}

pub open spec fn program_error(p: Program, dec: spec_fn(Operator, u64, u64) -> u64) -> Option<
    FoldError,
> {
    stmts_error(p.statements@, p.statements@.len(), dec)
}

pub open spec fn program_folded(
    p: Program,
    q: Program,
    dec: spec_fn(Operator, u64, u64) -> u64,
) -> bool {
    stmts_folded(p.statements@, q.statements@, dec)
}

/// What folding statement `s` may return: its fold, or its first error.
pub open spec fn stmt_outcome(
    s: Statement,
    r: Result<Statement, FoldError>,
    dec: spec_fn(Operator, u64, u64) -> u64,
) -> bool {
    match r {
        Ok(t) => stmt_error(s, dec) is None && stmt_folded(s, t, dec),
        Err(x) => stmt_error(s, dec) == Some(x),
    }
}

/// What folding a list of statements may return.
pub open spec fn stmts_outcome(
    s: Seq<Statement>,
    r: Result<Vec<Statement>, FoldError>,
    dec: spec_fn(Operator, u64, u64) -> u64,
) -> bool {
    match r {
        Ok(t) => stmts_error(s, s.len(), dec) is None && stmts_folded(s, t@, dec),
        Err(x) => stmts_error(s, s.len(), dec) == Some(x),
    }
}

proof fn lemma_prefix_from_pointwise(
    s: Seq<Statement>,
    r: Seq<Statement>,
    n: nat,
    dec: spec_fn(Operator, u64, u64) -> u64,
)
    requires
        n <= s.len(),
        n <= r.len(),
        forall|i: int| 0 <= i < n ==> #[trigger] stmt_folded(s[i], r[i], dec),
    ensures
        prefix_folded(s, r, n, dec),
    decreases n,
{
    if n > 0 {
        lemma_prefix_from_pointwise(s, r, (n - 1) as nat, dec);
        assert(stmt_folded(s[n - 1], r[n - 1], dec));
    }
}

/// Once an error is met in a prefix, it stays the first error.
proof fn lemma_error_persists(
    s: Seq<Statement>,
    n: nat,
    m: nat,
    dec: spec_fn(Operator, u64, u64) -> u64,
)
    requires
        n <= m <= s.len(),
        stmts_error(s, n, dec) is Some,
    ensures
        stmts_error(s, m, dec) == stmts_error(s, n, dec),
    decreases m - n,
{
    if m > n {
        lemma_error_persists(s, n, (m - 1) as nat, dec);
    }
}

/// Sum of two sign-magnitude integers.
fn add_signed(ln: bool, lm: u128, rn: bool, rm: u128) -> (r: Result<(bool, u128), FoldError>)
    ensures
        r == integer_fold(Operator::Add, ln, lm, rn, rm),
{
    if ln == rn {
        match lm.checked_add(rm) {
            Some(m) => Ok((ln && m != 0, m)),
            None => Err(FoldError::Overflow),
        }
    } else if lm >= rm {
        let m = lm - rm;
        Ok((ln && m != 0, m))
    } else {
        Ok((rn, rm - lm))
    }
}

/// `a <op> b` on sign-magnitude integers, for the five foldable operators.
fn integer_op(op: Operator, ln: bool, lm: u128, rn: bool, rm: u128) -> (r: Result<
    (bool, u128),
    FoldError,
>)
    requires
        op.spec_is_foldable(),
    ensures
        r == integer_fold(op, ln, lm, rn, rm),
{
    match op {
        Operator::Add => add_signed(ln, lm, rn, rm),
        Operator::Subtract => {
            let r = add_signed(ln, lm, !rn, rm);
            assert(signed_value(!rn, rm) == -signed_value(rn, rm));
            r
        },
        Operator::Multiply => {
            proof {
                let (a, b) = (lm as int, rm as int);
                assert(abs_int(signed_value(ln, lm) * signed_value(rn, rm)) == a * b
                    && (signed_value(ln, lm) * signed_value(rn, rm) < 0 <==> (ln != rn && a * b
                    != 0))) by (nonlinear_arith)
                    requires
                        a >= 0,
                        b >= 0,
                        signed_value(ln, lm) == (if ln { -a } else { a }),
                        signed_value(rn, rm) == (if rn { -b } else { b }),
                ;
            }
            match lm.checked_mul(rm) {
                Some(m) => Ok((ln != rn && m != 0, m)),
                None => Err(FoldError::Overflow),
            }
        },
        Operator::Divide => {
            if rm == 0 {
                return Err(FoldError::DivisionByZero);
            }
            let q = lm / rm;
            proof {
                assert(abs_int(signed_value(ln, lm)) == lm as int);
                assert(abs_int(signed_value(rn, rm)) == rm as int);
                if lm == 0 {
                    assert(q == 0) by (nonlinear_arith)
                        requires
                            lm == 0,
                            rm > 0,
                            q == lm / rm,
                    ;
                }
            }
            Ok((ln != rn && q != 0, q))
        },
        _ => {
            if rm == 0 {
                return Err(FoldError::DivisionByZero);
            }
            let m = lm % rm;
            proof {
                assert(abs_int(signed_value(ln, lm)) == lm as int);
                assert(abs_int(signed_value(rn, rm)) == rm as int);
                if lm == 0 {
                    assert(m == 0) by (nonlinear_arith)
                        requires
                            lm == 0,
                            rm > 0,
                            m == lm % rm,
                    ;
                }
            }
            Ok((ln && m != 0, m))
        },
    }
}

/// Calls the evaluator once: the result is what `decimal_fn` says.
fn eval_decimal<F: Fn(Operator, u64, u64) -> u64>(dec: &F, op: Operator, a: u64, b: u64) -> (r:
    u64)
    requires
        decimal_evaluator(*dec),
    ensures
        r == decimal_fn(*dec)(op, a, b),
{
    let x = dec(op, a, b);
    assert(dec.ensures((op, a, b), x));
    let ghost y = choose|y: u64| dec.ensures((op, a, b), y);
    assert(dec.ensures((op, a, b), y));
    x
}

fn unfolded(lhs: Expression, op: Operator, rhs: Expression) -> (r: Result<Expression, FoldError>)
    ensures
        r == Ok::<Expression, FoldError>(
            Expression::BinaryOperation(Box::new(lhs), op, Box::new(rhs)),
        ),
{
    Ok(Expression::BinaryOperation(Box::new(lhs), op, Box::new(rhs)))
}

impl ConstantFolding {
    /// Evaluates `lhs <op> rhs` when both are typed literals of one category
    /// with joinable types and the operator is one of the five foldable ones;
    /// otherwise keeps the operation.
    pub fn fold_numeric_op<F: Fn(Operator, u64, u64) -> u64>(
        &self,
        lhs: Atom,
        op: Operator,
        rhs: Atom,
        dec: &F,
    ) -> (r: Result<Expression, FoldError>)
        requires
            decimal_evaluator(*dec),
        ensures
            r == combine(Expression::Atom(lhs), op, Expression::Atom(rhs), decimal_fn(*dec)),
    {
        let joined = match (&lhs.ty, &rhs.ty) {
            (Some(lt), Some(rt)) => lt.join(rt),
            _ => None,
        };
        let ty = match joined {
            Some(t) => t,
            None => return unfolded(Expression::Atom(lhs), op, Expression::Atom(rhs)),
        };
        if !op.is_foldable() {
            return unfolded(Expression::Atom(lhs), op, Expression::Atom(rhs));
        }
        if ty.is_integral() {
            if let (AtomValue::Integer(lm), AtomValue::Integer(rm)) = (&lhs.value, &rhs.value) {
                return match integer_op(op, lhs.negative, *lm, rhs.negative, *rm) {
                    Ok((n, m)) => Ok(
                        Expression::Atom(
                            Atom { negative: n, value: AtomValue::Integer(m), ty: Some(ty) },
                        ),
                    ),
                    Err(e) => Err(e),
                };
            }
        } else if ty.is_decimal() {
            if let (AtomValue::Float(lb), AtomValue::Float(rb)) = (&lhs.value, &rhs.value) {
                let a = if lhs.negative { *lb | SIGN_BIT } else { *lb };
                let b = if rhs.negative { *rb | SIGN_BIT } else { *rb };
                let x = eval_decimal(dec, op, a, b);
                return Ok(Expression::Atom(Atom::from_f64_bits(x, Some(ty))));
            }
        }
        unfolded(Expression::Atom(lhs), op, Expression::Atom(rhs))
    }

    /// Folds an expression bottom-up (see `fold_expr`).
    pub fn fold_expression<F: Fn(Operator, u64, u64) -> u64>(&self, expr: Expression, dec: &F) -> (r:
        Result<Expression, FoldError>)
        requires
            decimal_evaluator(*dec),
        ensures
            r == fold_expr(expr, decimal_fn(*dec)),
        decreases expr,
    {
        match expr {
            Expression::Atom(atom) => {
                let Atom { negative, value, ty } = atom;
                match value {
                    AtomValue::ParExpr(inner) => match self.fold_expression(*inner, dec) {
                        Ok(Expression::Atom(ia)) => Ok(
                            Expression::Atom(
                                Atom {
                                    negative: negative != ia.negative,
                                    value: ia.value,
                                    ty: ia.ty,
                                },
                            ),
                        ),
                        Ok(folded) => Ok(
                            Expression::Atom(
                                Atom { negative, value: AtomValue::ParExpr(Box::new(folded)), ty },
                            ),
                        ),
                        Err(e) => Err(e),
                    },
                    value => Ok(Expression::Atom(Atom { negative, value, ty })),
                }
            },
            Expression::BinaryOperation(lhs, op, rhs) => {
                let lhs = match self.fold_expression(*lhs, dec) {
                    Ok(l) => l,
                    Err(e) => return Err(e),
                };
                let rhs = match self.fold_expression(*rhs, dec) {
                    Ok(r) => r,
                    Err(e) => return Err(e),
                };
                match (lhs, rhs) {
                    (Expression::Atom(la), Expression::Atom(ra)) => self.fold_numeric_op(
                        la,
                        op,
                        ra,
                        dec,
                    ),
                    (lhs, rhs) => unfolded(lhs, op, rhs),
                }
            },
        }
    }
}

impl ConstantFolding {
    /// Folds a list of statements in order, stopping at the first error.
    fn fold_statements<F: Fn(Operator, u64, u64) -> u64>(
        &self,
        statements: Vec<Statement>,
        dec: &F,
    ) -> (r: Result<Vec<Statement>, FoldError>)
        requires
            decimal_evaluator(*dec),
        ensures
            stmts_outcome(statements@, r, decimal_fn(*dec)),
        decreases statements,
    {
        let ghost d = decimal_fn(*dec);
        let ghost orig = statements;
        let mut rest = statements;
        let mut out: Vec<Statement> = Vec::new();
        while rest.len() > 0
            invariant
                decimal_evaluator(*dec),
                d == decimal_fn(*dec),
                orig == statements,
                out@.len() + rest@.len() == orig@.len(),
                rest@ == orig@.subrange(out@.len() as int, orig@.len() as int),
                stmts_error(orig@, out@.len() as nat, d) is None,
                forall|j: int| 0 <= j < out@.len() ==> #[trigger] stmt_folded(orig@[j], out@[j], d),
            decreases rest@.len(),
        {
            let ghost k = out@.len();
            let st = rest.remove(0);
            assert(st == orig@[k as int]);
            assert(decreases_to!(orig => orig[k as int]));
            match self.fold_statement(st, dec) {
                Ok(t) => {
                    out.push(t);
                    assert(stmts_error(orig@, (k + 1) as nat, d) is None);
                },
                Err(x) => {
                    proof {
                        assert(stmts_error(orig@, (k + 1) as nat, d) == Some(x));
                        lemma_error_persists(orig@, (k + 1) as nat, orig@.len(), d);
                    }
                    return Err(x);
                },
            }
        }
        assert(out@.len() == orig@.len());
        assert(stmts_error(orig@, orig@.len(), d) is None);
        proof {
            lemma_prefix_from_pointwise(orig@, out@, orig@.len(), d);
        }
        Ok(out)
    }

    /// Folds one statement.
    pub fn fold_statement<F: Fn(Operator, u64, u64) -> u64>(&self, statement: Statement, dec: &F) -> (r:
        Result<Statement, FoldError>)
        requires
            decimal_evaluator(*dec),
        ensures
            stmt_outcome(statement, r, decimal_fn(*dec)),
        decreases statement,
    {
        match statement {
            Statement::Function(fd) => self.fold_function_definition(fd, dec),
            Statement::VariableDeclaration(vd) => self.fold_variable_declaration(vd, dec),
            Statement::Expression(expr) => match self.fold_expression(expr, dec) {
                Ok(e) => Ok(Statement::expression(e)),
                Err(x) => Err(x),
            },
            Statement::Conditional(cond) => self.fold_conditional(cond, dec),
        }
    }

    /// Folds a function's body; its name, parameters and return type stay.
    pub fn fold_function_definition<F: Fn(Operator, u64, u64) -> u64>(
        &self,
        fd: FunctionDefinition,
        dec: &F,
    ) -> (r: Result<Statement, FoldError>)
        requires
            decimal_evaluator(*dec),
        ensures
            stmt_outcome(Statement::Function(fd), r, decimal_fn(*dec)),
        decreases fd,
    {
        let FunctionDefinition { name, inputs, return_type, body } = fd;
        match self.fold_statements(body.statements, dec) {
            Ok(processed) => Ok(
                Statement::Function(
                    FunctionDefinition::new(name, inputs, return_type, Block::new(processed)),
                ),
            ),
            Err(x) => Err(x),
        }
    }

    /// Folds a declaration's initializer. A numeric literal result imposes
    /// its own type on the declaration, in place of the declared one.
    pub fn fold_variable_declaration<F: Fn(Operator, u64, u64) -> u64>(
        &self,
        vd: VariableDeclaration,
        dec: &F,
    ) -> (r: Result<Statement, FoldError>)
        requires
            decimal_evaluator(*dec),
        ensures
            stmt_outcome(Statement::VariableDeclaration(vd), r, decimal_fn(*dec)),
    {
        let VariableDeclaration { name, var_type, value } = vd;
        match value {
            None => Ok(
                Statement::VariableDeclaration(VariableDeclaration::new(name, var_type, None)),
            ),
            Some(expr) => match self.fold_expression(expr, dec) {
                Err(x) => Err(x),
                Ok(folded) => {
                    let literal_type: Option<Option<Type>> = match &folded {
                        Expression::Atom(a) => if a.value.is_simple() {
                            Some(copy_type(&a.ty))
                        } else {
                            None
                        },
                        _ => None,
                    };
                    let ty = match literal_type {
                        Some(t) => t,
                        None => var_type,
                    };
                    Ok(
                        Statement::VariableDeclaration(
                            VariableDeclaration::new(name, ty, Some(folded)),
                        ),
                    )
                },
            },
        }
    }

    /// Folds a conditional's condition and both branches.
    pub fn fold_conditional<F: Fn(Operator, u64, u64) -> u64>(
        &self,
        cond: Conditional,
        dec: &F,
    ) -> (r: Result<Statement, FoldError>)
        requires
            decimal_evaluator(*dec),
        ensures
            stmt_outcome(Statement::Conditional(cond), r, decimal_fn(*dec)),
        decreases cond,
    {
        let Conditional { condition, then_block, else_block } = cond;
        let condition = match self.fold_expression(condition, dec) {
            Ok(e) => e,
            Err(x) => return Err(x),
        };
        let then_statements = match self.fold_statements(then_block.statements, dec) {
            Ok(s) => s,
            Err(x) => return Err(x),
        };
        let else_block = match else_block {
            None => None,
            Some(b) => match self.fold_statements(b.statements, dec) {
                Ok(s) => Some(Block::new(s)),
                Err(x) => return Err(x),
            },
        };
        Ok(Statement::Conditional(Conditional::new(condition, Block::new(then_statements), else_block)))
    }

    /// Runs the pass over a whole program: its fold, or the first error met
    /// in program order.
    pub fn run<F: Fn(Operator, u64, u64) -> u64>(&self, program: Program, dec: &F) -> (r: Result<
        Program,
        FoldError,
    >)
        requires
            decimal_evaluator(*dec),
        ensures
            match r {
                Ok(q) => program_error(program, decimal_fn(*dec)) is None && program_folded(
                    program,
                    q,
                    decimal_fn(*dec),
                ),
                Err(x) => program_error(program, decimal_fn(*dec)) == Some(x),
            },
    {
        match self.fold_statements(program.statements, dec) {
            Ok(s) => Ok(Program::new(s)),
            Err(x) => Err(x),
        }
    }
}

} // verus!
