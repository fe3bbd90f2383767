use vstd::prelude::*;
use crate::operator::Operator;
use crate::types::Type;

verus! {

/// Sign bit of a binary64 bit pattern.
pub const SIGN_BIT: u64 = 0x8000_0000_0000_0000;

/// Exponent bits of a binary64 bit pattern.
pub const EXPONENT_BITS: u64 = 0x7ff0_0000_0000_0000;

/// Fraction bits of a binary64 bit pattern.
pub const FRACTION_BITS: u64 = 0x000f_ffff_ffff_ffff;

/// Whether a binary64 value is below zero: its sign bit is set, and it is
/// neither a zero nor a NaN.
pub open spec fn below_zero(bits: u64) -> bool {
    let magnitude = bits & !SIGN_BIT;
    &&& bits & SIGN_BIT != 0
    &&& magnitude != 0
    &&& !(magnitude & EXPONENT_BITS == EXPONENT_BITS && magnitude & FRACTION_BITS != 0)
}

/// A leaf of an expression: a literal, an identifier or a parenthesized
/// composite, with its sign kept apart from its magnitude.
#[derive(PartialEq, Debug)]
pub struct Atom {
    pub negative: bool,
    pub value: AtomValue,
    pub ty: Option<Type>,
}

/// What an atom holds. Numeric magnitudes are non-negative: an integer as a
/// `u128`, a decimal as the binary64 bit pattern of its absolute value.
#[derive(PartialEq, Debug)]
pub enum AtomValue {
    Integer(u128),
    Float(u64),
    String(String),
    Boolean(bool),
    Identity(String),
    ParExpr(Box<Expression>),
}

/// An expression tree.
#[derive(PartialEq, Debug)]
pub enum Expression {
    BinaryOperation(Box<Expression>, Operator, Box<Expression>),
    Atom(Atom),
}

/// One statement of a program or block.
#[derive(PartialEq, Debug)]
pub enum Statement {
    Function(FunctionDefinition),
    VariableDeclaration(VariableDeclaration),
    Expression(Expression),
    Conditional(Conditional),
}

/// A lexical scope: an ordered list of statements.
#[derive(PartialEq, Debug)]
pub struct Block {
    pub statements: Vec<Statement>,
}

/// `fn <name>(<inputs>) -> <return_type> <body>`.
#[derive(PartialEq, Debug)]
pub struct FunctionDefinition {
    pub name: String,
    pub inputs: Vec<VariableDeclaration>,
    pub return_type: Type,
    pub body: Block,
}

/// A declaration `let <name>[: <type>][ = <value>]`, also used for parameters.
#[derive(PartialEq, Debug)]
pub struct VariableDeclaration {
    pub name: String,
    pub var_type: Option<Type>,
    pub value: Option<Expression>,
}

/// `if <condition> <then_block>[ else <else_block>]`.
#[derive(PartialEq, Debug)]
pub struct Conditional {
    pub condition: Expression,
    pub then_block: Block,
    pub else_block: Option<Block>,
}

/// A whole program: the root of the tree.
#[derive(PartialEq, Debug)]
pub struct Program {
    pub statements: Vec<Statement>,
}

/// The signed value of an integer atom's sign and magnitude.
pub open spec fn signed_value(negative: bool, magnitude: u128) -> int {
    if negative {
        -(magnitude as int)
    } else {
        magnitude as int
    }
}

/// The signed binary64 bit pattern of a decimal atom's sign and magnitude.
pub open spec fn signed_bits(negative: bool, magnitude: u64) -> u64 {
    if negative {
        magnitude | SIGN_BIT
    } else {
        magnitude
    }
}

/// The type of an expression: an atom's own type, or for an operation the
/// operator's result type over its operands' types.
pub open spec fn expr_type(e: Expression) -> Option<Type>
    decreases e,
{
    match e {
        Expression::Atom(a) => a.ty,
        Expression::BinaryOperation(l, op, r) => op.result_type(expr_type(*l), expr_type(*r)),
    }
}

pub open spec fn is_flat_type(t: Option<Type>) -> bool {
    t matches Some(ty) ==> ty.is_flat()
}

impl Atom {
    pub fn new(negative: bool, value: AtomValue, ty: Option<Type>) -> (r: Atom)
        ensures
            r == (Atom { negative, value, ty }),
    {
        Atom { negative, value, ty }
    }

    pub fn get_type(&self) -> (r: &Option<Type>)
        ensures
            *r == self.ty,
    {
        &self.ty
    }

    pub fn set_type(&mut self, ty: Type)
        ensures
            final(self).ty == Some(ty),
            final(self).negative == old(self).negative,
            final(self).value == old(self).value,
    {
        self.ty = Some(ty);
    }

    /// An integer atom of the given signed value: sign and magnitude apart.
    pub fn from_i128(i: i128, ty: Option<Type>) -> (r: Atom)
        ensures
            r.negative == (i < 0),
            r.value == AtomValue::Integer(if i < 0 { (-(i as int)) as u128 } else { i as u128 }),
            signed_value(r.negative, r.value->Integer_0) == i,
            r.ty == ty,
    {
        let magnitude: u128 = if i < 0 {
            if i == i128::MIN {
                0x8000_0000_0000_0000_0000_0000_0000_0000u128
            } else {
                (-i) as u128
            }
        } else {
            i as u128
        };
        Atom { negative: i < 0, value: AtomValue::Integer(magnitude), ty }
    }

    /// A decimal atom from the binary64 bit pattern of a signed value: it is
    /// negative when the value is below zero, and its magnitude is the
    /// value's absolute value (the pattern without its sign bit).
    pub fn from_f64_bits(bits: u64, ty: Option<Type>) -> (r: Atom)
        ensures
            r.negative == below_zero(bits),
            r.value == AtomValue::Float(bits & !SIGN_BIT),
            r.ty == ty,
    {
        let magnitude = bits & !SIGN_BIT;
        let nan = magnitude & EXPONENT_BITS == EXPONENT_BITS && magnitude & FRACTION_BITS != 0;
        let negative = bits & SIGN_BIT != 0 && magnitude != 0 && !nan;
        Atom { negative, value: AtomValue::Float(magnitude), ty }
    }

    /// Unary minus on an atom: the sign flips, nothing else changes.
    pub fn negated(self) -> (r: Atom)
        ensures
            r == (Atom { negative: !self.negative, ..self }),
    {
        Atom { negative: !self.negative, value: self.value, ty: self.ty }
    }
}

impl AtomValue {
    pub open spec fn spec_is_simple(&self) -> bool {
        self is Integer || self is Float
    }

    /// Numeric literals are the simple values.
    #[verifier::when_used_as_spec(spec_is_simple)]
    pub fn is_simple(&self) -> (r: bool)
        ensures
            r == self.spec_is_simple(),
    {
        matches!(self, AtomValue::Integer(_) | AtomValue::Float(_))
    }
}

impl Expression {
    pub fn binary(lhs: Expression, op: Operator, rhs: Expression) -> (r: Expression)
        ensures
            r == Expression::BinaryOperation(Box::new(lhs), op, Box::new(rhs)),
    {
        Expression::BinaryOperation(Box::new(lhs), op, Box::new(rhs))
    }

    pub fn atom(atom: Atom) -> (r: Expression)
        ensures
            r == Expression::Atom(atom),
    {
        Expression::Atom(atom)
    }

    /// Unary minus: a bare atom flips its sign; a composite becomes a
    /// negative parenthesized atom with no type.
    pub fn negate(self) -> (r: Expression)
        ensures
            r == (match self {
                Expression::Atom(a) => Expression::Atom(Atom { negative: !a.negative, ..a }),
                Expression::BinaryOperation(..) => Expression::Atom(
                    Atom { negative: true, value: AtomValue::ParExpr(Box::new(self)), ty: None },
                ),
            }),
    {
        match self {
            Expression::Atom(a) => Expression::Atom(a.negated()),
            Expression::BinaryOperation(..) => Expression::Atom(
                Atom { negative: true, value: AtomValue::ParExpr(Box::new(self)), ty: None },
            ),
        }
    }

    /// The type of the expression (see `expr_type`).
    pub fn return_type(&self) -> (r: Option<Type>)
        ensures
            crate::copying::opt_type_eqv(expr_type(*self), r),
            is_flat_type(expr_type(*self)) ==> r == expr_type(*self),
        decreases self,
    {
        match self {
            Expression::Atom(a) => crate::copying::copy_type(&a.ty),
            Expression::BinaryOperation(l, op, r) => {
                let lt = l.operand_type();
                let rt = r.operand_type();
                op.type_of_operands(&lt, &rt)
            }
        }
    }

    /// The type of an operand, as far as an operator's result type needs it:
    /// exact for flat types, and absent for the rest (which join nothing).
    fn operand_type(&self) -> (r: Option<Type>)
        ensures
            forall|op: Operator, t: Option<Type>|
                #![auto]
                op.result_type(r, t) == op.result_type(expr_type(*self), t)
                && op.result_type(t, r) == op.result_type(t, expr_type(*self)),
        decreases self,
    {
        match self {
            Expression::Atom(a) => match &a.ty {
                Some(t) => if t.is_flat() {
                    Some(t.duplicate())
                } else {
                    None
                },
                None => None,
            },
            Expression::BinaryOperation(l, op, r) => {
                let lt = l.operand_type();
                let rt = r.operand_type();
                op.type_of_operands(&lt, &rt)
            }
        }
    }
}

impl Block {
    pub fn new(statements: Vec<Statement>) -> (r: Block)
        ensures
            r.statements == statements,
    {
        Block { statements }
    }

    pub fn statements(&self) -> (r: &Vec<Statement>)
        ensures
            *r == self.statements,
    {
        &self.statements
    }
}

impl Program {
    pub fn new(statements: Vec<Statement>) -> (r: Program)
        ensures
            r.statements == statements,
    {
        Program { statements }
    }
}

impl Conditional {
    pub fn new(condition: Expression, then_block: Block, else_block: Option<Block>) -> (r:
        Conditional)
        ensures
            r == (Conditional { condition, then_block, else_block }),
    {
        Conditional { condition, then_block, else_block }
    }
}

impl FunctionDefinition {
    pub fn new(name: String, inputs: Vec<VariableDeclaration>, return_type: Type, body: Block) -> (r:
        FunctionDefinition)
        ensures
            r == (FunctionDefinition { name, inputs, return_type, body }),
    {
        FunctionDefinition { name, inputs, return_type, body }
    }

    pub fn name(&self) -> (r: &String)
        ensures
            *r == self.name,
    {
        &self.name
    }

    pub fn inputs(&self) -> (r: &Vec<VariableDeclaration>)
        ensures
            *r == self.inputs,
    {
        &self.inputs
    }

    pub fn return_type(&self) -> (r: &Type)
        ensures
            *r == self.return_type,
    {
        &self.return_type
    }

    pub fn body(&self) -> (r: &Block)
        ensures
            *r == self.body,
    {
        &self.body
    }
}

impl VariableDeclaration {
    pub fn new(name: String, var_type: Option<Type>, value: Option<Expression>) -> (r:
        VariableDeclaration)
        ensures
            r == (VariableDeclaration { name, var_type, value }),
    {
        VariableDeclaration { name, var_type, value }
    }

    pub fn name(&self) -> (r: &String)
        ensures
            *r == self.name,
    {
        &self.name
    }

    pub fn var_type(&self) -> (r: &Option<Type>)
        ensures
            *r == self.var_type,
    {
        &self.var_type
    }
}

impl Statement {
    pub fn function(fi: FunctionDefinition) -> (r: Statement)
        ensures
            r == Statement::Function(fi),
    {
        Statement::Function(fi)
    }

    pub fn variable_declaration(v: VariableDeclaration) -> (r: Statement)
        ensures
            r == Statement::VariableDeclaration(v),
    {
        Statement::VariableDeclaration(v)
    }

    pub fn expression(e: Expression) -> (r: Statement)
        ensures
            r == Statement::Expression(e),
    {
        Statement::Expression(e)
    }

    pub fn conditional(c: Conditional) -> (r: Statement)
        ensures
            r == Statement::Conditional(c),
    {
        Statement::Conditional(c)
    }
}

} // verus!
