use vstd::prelude::*;
use crate::ast::{
    expr_type, Atom, AtomValue, Block, Conditional, Expression, FunctionDefinition, Program,
    Statement, VariableDeclaration,
};
use crate::operator::Operator;
use crate::text::{all_digits, digits_value, parse_digits, same_text};
use crate::types::{primitive_type, DType, GType, Type};

verus! {

broadcast use vstd::std_specs::vec::group_vec_axioms, vstd::seq::group_seq_axioms;

/// The kind of a node of the surface parse tree.
#[derive(PartialEq, Eq, Structural, Debug, Clone, Copy)]
pub enum Rule {
    Program,
    Statement,
    FunctionDeclaration,
    VariableDeclaration,
    Conditional,
    Block,
    Inputs,
    Param,
    Expression,
    Atom,
    Numeric,
    Integer,
    Decimal,
    Suffix,
    String,
    Bool,
    Ident,
    UnaryMinus,
    Not,
    Add,
    Sub,
    Mul,
    Div,
    Mod,
    Pow,
    Eq,
    Ne,
    Lt,
    Le,
    Gt,
    Ge,
    BitwiseAnd,
    BitwiseOr,
    LogicalAnd,
    LogicalOr,
    PrimitiveType,
    GType,
    DType,
    Eoi,
}

/// A node of the surface parse tree: its kind, its source text and span,
/// and its children in order.
///
/// The children follow the grammar's shapes:
/// `Program`: `Statement`s, then `Eoi`; `Statement`: one of
/// `FunctionDeclaration` (`Ident`, `Inputs`, type, `Block`),
/// `VariableDeclaration` (`Ident`, then a type, an `Expression`, or both),
/// `Expression`, `Conditional` (`Expression`, `Block`, optional `Block`);
/// `Block`: `Statement`s; `Inputs`: `Param`s (`Ident`, type);
/// `Expression`: prefix operators, `Atom`s and infix operators in source
/// order; `Atom`: optional `UnaryMinus`, then `Numeric` (`Integer` or
/// `Decimal`, optional `Suffix`), `String`, `Bool`, `Ident` or a
/// parenthesized `Expression`; a type: `Ident`, `PrimitiveType`, `GType`
/// (`Ident`, types) or `DType` (`Inputs`, `Ident`).
///
/// For a `Decimal` literal, `decimal_bits` is the binary64 encoding of its
/// text; it is unused for the other kinds.
#[derive(PartialEq, Debug)]
pub struct ParseNode {
    pub rule: Rule,
    pub text: String,
    pub start: usize,
    pub end: usize,
    pub decimal_bits: u64,
    pub children: Vec<ParseNode>,
}

/// A parse failure: a message and the source span it concerns.
#[derive(PartialEq, Debug)]
pub struct ParseError {
    pub message: String,
    pub start: usize,
    pub end: usize,
}

fn error_at(node: &ParseNode, message: &str) -> (r: ParseError)
    ensures
        r.message@ == message@,
        r.start == node.start,
        r.end == node.end,
{
    ParseError { message: message.to_owned(), start: node.start, end: node.end }
}

/// Whether a type node builds: a known primitive name, an identifier, or a
/// generic / dependent type whose parts build.
pub open spec fn type_ok(node: ParseNode) -> bool
    decreases node, node.children@.len() + 1,
{
    match node.rule {
        Rule::Ident => true,
        Rule::PrimitiveType => primitive_type(node.text@) is Some,
        Rule::GType => node.children@.len() >= 2 && fields_ok(
            node,
            (node.children@.len() - 1) as nat,
        ),
        Rule::DType => node.children@.len() >= 2 && params_ok(
            node.children@[0],
            node.children@[0].children@.len(),
        ),
        _ => false,
    }
}

/// The first `n` type arguments of a generic type node (its children after
/// the name) build.
pub open spec fn fields_ok(node: ParseNode, n: nat) -> bool
    decreases node, n,
{
    if n == 0 {
        true
    } else if n >= node.children@.len() {
        false
    } else {
        fields_ok(node, (n - 1) as nat) && type_ok(node.children@[n as int])
    }
}

/// The first `n` parameters of an `Inputs` node build: each has a name and
/// a type that builds.
pub open spec fn params_ok(node: ParseNode, n: nat) -> bool
    decreases node, n,
{
    if n == 0 {
        true
    } else if n > node.children@.len() {
        false
    } else {
        &&& params_ok(node, (n - 1) as nat)
        &&& node.children@[n - 1].children@.len() >= 2
        &&& type_ok(node.children@[n - 1].children@[1])
    }
}

/// `t` is the type that a type node builds to.
pub open spec fn type_from(node: ParseNode, t: Type) -> bool
    decreases node, node.children@.len() + 1,
{
    match node.rule {
        Rule::Ident => t == Type::Custom(node.text),
        Rule::PrimitiveType => primitive_type(node.text@) == Some(t),
        Rule::GType => {
            &&& node.children@.len() >= 2
            &&& t is Generic
            &&& t->Generic_0.name == node.children@[0].text
            &&& t->Generic_0.fields@.len() + 1 == node.children@.len()
            &&& fields_from(node, t->Generic_0.fields@, (node.children@.len() - 1) as nat)
        },
        Rule::DType => {
            &&& node.children@.len() >= 2
            &&& t is Dependent
            &&& t->Dependent_0.name == node.children@[1].text
            &&& t->Dependent_0.fields@.len() == node.children@[0].children@.len()
            &&& params_from(
                node.children@[0],
                t->Dependent_0.fields@,
                node.children@[0].children@.len(),
            )
        },
        _ => false,
    }
}

/// The first `n` type arguments are built from the children after the name.
pub open spec fn fields_from(node: ParseNode, ts: Seq<Type>, n: nat) -> bool
    decreases node, n,
{
    if n == 0 {
        true
    } else if n >= node.children@.len() || n > ts.len() {
        false
    } else {
        fields_from(node, ts, (n - 1) as nat) && type_from(node.children@[n as int], ts[n - 1])
    }
}

/// The first `n` declarations are the parameters of an `Inputs` node: the
/// `Param`'s name, the type it builds, and no value.
pub open spec fn params_from(node: ParseNode, ps: Seq<VariableDeclaration>, n: nat) -> bool
    decreases node, n,
{
    if n == 0 {
        true
    } else if n > node.children@.len() || n > ps.len() {
        false
    } else {
        &&& params_from(node, ps, (n - 1) as nat)
        &&& node.children@[n - 1].children@.len() >= 2
        &&& ps[n - 1].name == node.children@[n - 1].children@[0].text
        &&& ps[n - 1].value is None
        &&& ps[n - 1].var_type is Some
        &&& type_from(node.children@[n - 1].children@[1], ps[n - 1].var_type->0)
    }
}

/// The message for a primitive type name that is not known.
pub open spec fn unknown_type_message(name: Seq<char>) -> Seq<char> {
    seq!['u', 'n', 'k', 'n', 'o', 'w', 'n', ' ', 't', 'y', 'p', 'e', ':', ' '] + name
}

/// A failure: its message and the span of the node it concerns.
pub open spec fn failure_at(node: ParseNode, message: Seq<char>) -> (Seq<char>, usize, usize) {
    (message, node.start, node.end)
}

/// The message and span that an error carries.
pub open spec fn failure_of(e: ParseError) -> (Seq<char>, usize, usize) {
    (e.message@, e.start, e.end)
}

/// The value of a failure function on a node that builds (never reported).
pub open spec fn no_failure() -> (Seq<char>, usize, usize) {
    (seq![], 0, 0)
}

/// The first failure met when building a type node: an unknown primitive
/// name, a malformed node, or the first type argument or parameter that
/// fails.
pub open spec fn type_failure(node: ParseNode) -> (Seq<char>, usize, usize)
    decreases node, node.children@.len() + 1,
{
    match node.rule {
        Rule::Ident => no_failure(),
        Rule::PrimitiveType => failure_at(node, unknown_type_message(node.text@)),
        Rule::GType => if node.children@.len() < 2 {
            failure_at(node, "expected type"@)
        } else {
            fields_failure(node, (node.children@.len() - 1) as nat)
        },
        Rule::DType => if node.children@.len() < 2 {
            failure_at(node, "expected type"@)
        } else {
            params_failure(node.children@[0], node.children@[0].children@.len())
        },
        _ => failure_at(node, "expected type"@),
    }
}

/// The first failure among the first `n` type arguments.
pub open spec fn fields_failure(node: ParseNode, n: nat) -> (Seq<char>, usize, usize)
    decreases node, n,
{
    if n == 0 || n >= node.children@.len() {
        no_failure()
    } else if !fields_ok(node, (n - 1) as nat) {
        fields_failure(node, (n - 1) as nat)
    } else {
        type_failure(node.children@[n as int])
    }
}

/// The first failure among the first `n` parameters.
pub open spec fn params_failure(node: ParseNode, n: nat) -> (Seq<char>, usize, usize)
    decreases node, n,
{
    if n == 0 || n > node.children@.len() {
        no_failure()
    } else if !params_ok(node, (n - 1) as nat) {
        params_failure(node, (n - 1) as nat)
    } else if node.children@[n - 1].children@.len() < 2 {
        failure_at(node.children@[n - 1], "expected parameter"@)
    } else {
        type_failure(node.children@[n - 1].children@[1])
    }
}

proof fn lemma_fields_failure_at(node: ParseNode, i: int, m: nat)
    requires
        1 <= i <= m < node.children@.len(),
        fields_ok(node, (i - 1) as nat),
        !type_ok(node.children@[i]),
    ensures
        fields_failure(node, m) == type_failure(node.children@[i]),
    decreases m,
{
    if m > i {
        if fields_ok(node, (m - 1) as nat) {
            lemma_fields_ok_at(node, (m - 1) as nat, i);
        }
        lemma_fields_failure_at(node, i, (m - 1) as nat);
    }
}

proof fn lemma_params_failure_at(node: ParseNode, i: int, m: nat)
    requires
        0 <= i < m <= node.children@.len(),
        params_ok(node, i as nat),
        !param_ok(node.children@[i]),
    ensures
        params_failure(node, m) == (if node.children@[i].children@.len() < 2 {
            failure_at(node.children@[i], "expected parameter"@)
        } else {
            type_failure(node.children@[i].children@[1])
        }),
    decreases m,
{
    if m > i + 1 {
        if params_ok(node, (m - 1) as nat) {
            lemma_params_ok_at(node, (m - 1) as nat, i);
        }
        lemma_params_failure_at(node, i, (m - 1) as nat);
    }
}

/// `r` reports an unknown primitive type name at the node's span.
pub open spec fn unknown_type_error(node: ParseNode, r: Result<Type, ParseError>) -> bool {
    &&& r is Err
    &&& r->Err_0.message@ == unknown_type_message(node.text@)
    &&& r->Err_0.start == node.start
    &&& r->Err_0.end == node.end
}

/// The `Param` node `p` has a name and a type that builds.
pub open spec fn param_ok(p: ParseNode) -> bool {
    p.children@.len() >= 2 && type_ok(p.children@[1])
}

proof fn lemma_fields_ok_from_pointwise(node: ParseNode, n: nat)
    requires
        n < node.children@.len(),
        forall|k: int| 1 <= k <= n ==> #[trigger] type_ok(node.children@[k]),
    ensures
        fields_ok(node, n),
    decreases n,
{
    if n > 0 {
        lemma_fields_ok_from_pointwise(node, (n - 1) as nat);
        assert(type_ok(node.children@[n as int]));
    }
}

proof fn lemma_params_ok_from_pointwise(node: ParseNode, n: nat)
    requires
        n <= node.children@.len(),
        forall|k: int| 0 <= k < n ==> #[trigger] param_ok(node.children@[k]),
    ensures
        params_ok(node, n),
    decreases n,
{
    if n > 0 {
        lemma_params_ok_from_pointwise(node, (n - 1) as nat);
        assert(param_ok(node.children@[n - 1]));
    }
}

proof fn lemma_fields_ok_at(node: ParseNode, n: nat, k: int)
    requires
        fields_ok(node, n),
        1 <= k <= n,
    ensures
        type_ok(node.children@[k]),
    decreases n,
{
    if k < n {
        lemma_fields_ok_at(node, (n - 1) as nat, k);
    }
}

proof fn lemma_fields_from_pointwise(node: ParseNode, ts: Seq<Type>, n: nat)
    requires
        n < node.children@.len(),
        n <= ts.len(),
        forall|k: int| 1 <= k <= n ==> #[trigger] type_from(node.children@[k], ts[k - 1]),
    ensures
        fields_from(node, ts, n),
    decreases n,
{
    if n > 0 {
        lemma_fields_from_pointwise(node, ts, (n - 1) as nat);
        assert(type_from(node.children@[n as int], ts[n - 1]));
    }
}

proof fn lemma_params_ok_at(node: ParseNode, n: nat, k: int)
    requires
        params_ok(node, n),
        0 <= k < n,
    ensures
        node.children@[k].children@.len() >= 2,
        type_ok(node.children@[k].children@[1]),
    decreases n,
{
    if k < n - 1 {
        lemma_params_ok_at(node, (n - 1) as nat, k);
    }
}

/// The parameter built from `Param` node `p`.
pub open spec fn param_from(p: ParseNode, v: VariableDeclaration) -> bool {
    &&& p.children@.len() >= 2
    &&& v.name == p.children@[0].text
    &&& v.value is None
    &&& v.var_type is Some
    &&& type_from(p.children@[1], v.var_type->0)
}

proof fn lemma_params_from_pointwise(node: ParseNode, ps: Seq<VariableDeclaration>, n: nat)
    requires
        n <= node.children@.len(),
        n <= ps.len(),
        forall|k: int| 0 <= k < n ==> #[trigger] param_from(node.children@[k], ps[k]),
    ensures
        params_from(node, ps, n),
    decreases n,
{
    if n > 0 {
        lemma_params_from_pointwise(node, ps, (n - 1) as nat);
        assert(param_from(node.children@[n - 1], ps[n - 1]));
    }
}

/// Builds a type from a type node: a primitive name resolves strictly, any
/// other identifier is a nominal reference.
pub fn parse_type(node: &ParseNode) -> (r: Result<Type, ParseError>)
    ensures
        r is Ok <==> type_ok(*node),
        r matches Ok(t) ==> type_from(*node, t),
        r matches Err(e) ==> failure_of(e) == type_failure(*node),
        node.rule is PrimitiveType && primitive_type(node.text@) is None ==> unknown_type_error(
            *node,
            r,
        ),
    decreases node,
{
    match node.rule {
        Rule::Ident => Ok(Type::Custom(node.text.clone())),
        Rule::PrimitiveType => match Type::from_str(node.text.as_str()) {
            Some(t) => Ok(t),
            None => {
                proof {
                    reveal_strlit("unknown type: ");
                    assert("unknown type: "@ =~= seq!['u', 'n', 'k', 'n', 'o', 'w', 'n', ' ', 't', 'y', 'p', 'e', ':', ' ']);
                }
                let mut message = "unknown type: ".to_owned();
                message.append(node.text.as_str());
                Err(ParseError { message, start: node.start, end: node.end })
            },
        },
        Rule::GType => {
            if node.children.len() < 2 {
                return Err(error_at(node, "expected type"));
            }
            let name = node.children[0].text.clone();
            let mut fields: Vec<Type> = Vec::new();
            let mut i: usize = 1;
            while i < node.children.len()
                invariant
                    node.rule is GType,
                    node.children@.len() >= 2,
                    1 <= i <= node.children@.len(),
                    fields@.len() + 1 == i,
                    forall|k: int|
                        1 <= k < i ==> #[trigger] type_from(node.children@[k], fields@[k - 1]),
                    forall|k: int| 1 <= k < i ==> #[trigger] type_ok(node.children@[k]),
                decreases node.children@.len() - i,
            {
                assert(decreases_to!(node.children => node.children[i as int]));
                match parse_type(&node.children[i]) {
                    Ok(t) => fields.push(t),
                    Err(e) => {
                        proof {
                            if type_ok(*node) {
                                lemma_fields_ok_at(*node, (node.children@.len() - 1) as nat, i as int);
                            }
                            lemma_fields_ok_from_pointwise(*node, (i - 1) as nat);
                            lemma_fields_failure_at(
                                *node,
                                i as int,
                                (node.children@.len() - 1) as nat,
                            );
                        }
                        return Err(e);
                    },
                }
                i = i + 1;
            }
            proof {
                lemma_fields_from_pointwise(*node, fields@, (node.children@.len() - 1) as nat);
                lemma_fields_ok_from_pointwise(*node, (node.children@.len() - 1) as nat);
            }
            Ok(Type::Generic(GType { name, fields }))
        },
        Rule::DType => {
            if node.children.len() < 2 {
                return Err(error_at(node, "expected type"));
            }
            assert(decreases_to!(node.children => node.children[0]));
            let fields = match parse_inputs(&node.children[0]) {
                Ok(p) => p,
                Err(e) => return Err(e),
            };
            let name = node.children[1].text.clone();
            Ok(Type::Dependent(DType { name, fields }))
        },
        _ => Err(error_at(node, "expected type")),
    }
}

/// Builds a parameter list: one declaration per `Param` child, with the
/// type it builds and without a value.
pub fn parse_inputs(node: &ParseNode) -> (r: Result<Vec<VariableDeclaration>, ParseError>)
    ensures
        r is Ok <==> params_ok(*node, node.children@.len()),
        r matches Err(e) ==> failure_of(e) == params_failure(*node, node.children@.len()),
        r matches Ok(ps) ==> ps@.len() == node.children@.len() && params_from(
            *node,
            ps@,
            node.children@.len(),
        ),
    decreases node,
{
    let mut params: Vec<VariableDeclaration> = Vec::new();
    let mut i: usize = 0;
    while i < node.children.len()
        invariant
            i <= node.children@.len(),
            params@.len() == i,
            forall|k: int| 0 <= k < i ==> #[trigger] param_from(node.children@[k], params@[k]),
            forall|k: int| 0 <= k < i ==> #[trigger] param_ok(node.children@[k]),
        decreases node.children@.len() - i,
    {
        let param = &node.children[i];
        proof {
            lemma_params_ok_from_pointwise(*node, i as nat);
        }
        if param.children.len() < 2 {
            proof {
                if params_ok(*node, node.children@.len()) {
                    lemma_params_ok_at(*node, node.children@.len(), i as int);
                }
                lemma_params_failure_at(*node, i as int, node.children@.len());
            }
            return Err(error_at(param, "expected parameter"));
        }
        assert(decreases_to!(node.children => node.children[i as int]));
        assert(decreases_to!(param.children => param.children[1]));
        let name = param.children[0].text.clone();
        let ty = match parse_type(&param.children[1]) {
            Ok(t) => t,
            Err(e) => {
                proof {
                    if params_ok(*node, node.children@.len()) {
                        lemma_params_ok_at(*node, node.children@.len(), i as int);
                    }
                    lemma_params_failure_at(*node, i as int, node.children@.len());
                }
                return Err(e);
            },
        };
        params.push(VariableDeclaration::new(name, Some(ty), None));
        i = i + 1;
    }
    proof {
        lemma_params_from_pointwise(*node, params@, node.children@.len());
        lemma_params_ok_from_pointwise(*node, node.children@.len());
    }
    Ok(params)
}

/// The binary operator an infix node stands for.
pub open spec fn infix_of(rule: Rule) -> Option<Operator> {
    match rule {
        Rule::Add => Some(Operator::Add),
        Rule::Sub => Some(Operator::Subtract),
        Rule::Mul => Some(Operator::Multiply),
        Rule::Div => Some(Operator::Divide),
        Rule::Mod => Some(Operator::Modulo),
        Rule::Pow => Some(Operator::Pow),
        Rule::Eq => Some(Operator::Equal),
        Rule::Ne => Some(Operator::NotEqual),
        Rule::Lt => Some(Operator::LessThan),
        Rule::Le => Some(Operator::LessThanOrEqual),
        Rule::Gt => Some(Operator::GreaterThan),
        Rule::Ge => Some(Operator::GreaterThanOrEqual),
        Rule::BitwiseAnd => Some(Operator::And),
        Rule::BitwiseOr => Some(Operator::Or),
        Rule::LogicalAnd => Some(Operator::LogicalAnd),
        Rule::LogicalOr => Some(Operator::LogicalOr),
        _ => None,
    }
}

fn infix_operator(rule: Rule) -> (r: Option<Operator>)
    ensures
        r == infix_of(rule),
{
    match rule {
        Rule::Add => Some(Operator::Add),
        Rule::Sub => Some(Operator::Subtract),
        Rule::Mul => Some(Operator::Multiply),
        Rule::Div => Some(Operator::Divide),
        Rule::Mod => Some(Operator::Modulo),
        Rule::Pow => Some(Operator::Pow),
        Rule::Eq => Some(Operator::Equal),
        Rule::Ne => Some(Operator::NotEqual),
        Rule::Lt => Some(Operator::LessThan),
        Rule::Le => Some(Operator::LessThanOrEqual),
        Rule::Gt => Some(Operator::GreaterThan),
        Rule::Ge => Some(Operator::GreaterThanOrEqual),
        Rule::BitwiseAnd => Some(Operator::And),
        Rule::BitwiseOr => Some(Operator::Or),
        Rule::LogicalAnd => Some(Operator::LogicalAnd),
        Rule::LogicalOr => Some(Operator::LogicalOr),
        _ => None,
    }
}

/// Whether an atom node starts with a unary minus.
pub open spec fn atom_negative(node: ParseNode) -> bool {
    node.children@.len() > 0 && node.children@[0].rule is UnaryMinus
}

pub open spec fn atom_body_index(node: ParseNode) -> int {
    if atom_negative(node) {
        1
    } else {
        0
    }
}

pub open spec fn has_atom_body(node: ParseNode) -> bool {
    node.children@.len() > atom_body_index(node)
}

/// The type a numeric literal's suffix names: lenient, an unknown suffix is
/// no type.
pub open spec fn suffix_type(numeric: ParseNode) -> Option<Type> {
    if numeric.children@.len() > 1 {
        primitive_type(numeric.children@[1].text@)
    } else {
        None
    }
}

/// A string of decimal digits whose value fits in 128 bits.
pub open spec fn digits_fit(s: Seq<char>) -> bool {
    s.len() > 0 && all_digits(s) && digits_value(s) <= u128::MAX
}

/// An atom with its sign flipped when `flip` holds.
pub open spec fn flipped(a: Atom, flip: bool) -> Atom {
    Atom { negative: a.negative != flip, ..a }
}

/// The failure met when building an atom node.
pub open spec fn atom_failure(node: ParseNode) -> (Seq<char>, usize, usize)
    decreases node, 0int,
{
    let body = node.children@[atom_body_index(node)];
    if !has_atom_body(node) {
        failure_at(node, "expected atom"@)
    } else {
        match body.rule {
            Rule::Numeric => if body.children@.len() == 0 {
                failure_at(body, "expected numeric"@)
            } else if body.children@[0].rule is Integer {
                failure_at(body.children@[0], "integer literal out of range"@)
            } else {
                failure_at(body.children@[0], "expected numeric"@)
            },
            Rule::String => failure_at(body, "expected string"@),
            Rule::Bool => no_failure(),
            Rule::Ident => no_failure(),
            Rule::Expression => expr_failure(body),
            _ => failure_at(body, "expected atom"@),
        }
    }
}

/// The first failure met when building an expression node.
pub open spec fn expr_failure(node: ParseNode) -> (Seq<char>, usize, usize)
    decreases node, node.children@.len() + 2,
{
    seg_failure(node, 0)
}

/// The first failure met reading the children of an expression node from
/// `pos` on, left to right: a missing operand, a prefix `!`, a child that
/// is no atom, an atom that fails, or a child where an infix operator is due.
pub open spec fn seg_failure(node: ParseNode, pos: int) -> (Seq<char>, usize, usize)
    decreases node, node.children@.len() - pos + 1,
{
    let a = group_end(node, pos);
    let c = node.children@;
    if !(0 <= pos <= a) {
        no_failure()
    } else if a >= c.len() {
        failure_at(node, "expected atom"@)
    } else if c[a].rule is Not {
        failure_at(c[a], "expected unary operator"@)
    } else if !(c[a].rule is Atom) {
        failure_at(c[a], "expected atom"@)
    } else if !atom_ok(c[a]) {
        atom_failure(c[a])
    } else if a + 1 >= c.len() {
        no_failure()
    } else if infix_of(c[a + 1].rule) is None {
        failure_at(c[a + 1], "expected operator"@)
    } else {
        seg_failure(node, a + 2)
    }
}

/// The first failure from position `p` on, where an infix operator or the
/// end is due.
pub open spec fn rest_failure(node: ParseNode, p: int) -> (Seq<char>, usize, usize) {
    if p < 0 || p >= node.children@.len() {
        no_failure()
    } else if infix_of(node.children@[p].rule) is None {
        failure_at(node.children@[p], "expected operator"@)
    } else {
        seg_failure(node, p + 1)
    }
}

proof fn lemma_seg_failure_split(node: ParseNode, pos: int, p: int)
    requires
        seg_ok(node, pos, p),
    ensures
        seg_failure(node, pos) == rest_failure(node, p),
    decreases p - pos,
{
    let a = group_end(node, pos);
    if a + 1 != p {
        lemma_seg_failure_split(node, a + 2, p);
    }
}

/// Whether an atom node builds.
pub open spec fn atom_ok(node: ParseNode) -> bool
    decreases node, 0int,
{
    let body = node.children@[atom_body_index(node)];
    has_atom_body(node) && match body.rule {
        Rule::Numeric => body.children@.len() > 0 && ((body.children@[0].rule is Integer
            && digits_fit(body.children@[0].text@)) || body.children@[0].rule is Decimal),
        Rule::String => body.text@.len() >= 2,
        Rule::Bool => true,
        Rule::Ident => true,
        Rule::Expression => expr_ok(body),
        _ => false,
    }
}

/// `a` is the atom that an atom node builds to. A parenthesized expression
/// that builds to a single atom gives that atom, its sign flipped by a
/// leading minus; any other gives a parenthesized atom typed by the
/// expression's type.
pub open spec fn atom_from(node: ParseNode, a: Atom) -> bool
    decreases node, 0int,
{
    let negative = atom_negative(node);
    let body = node.children@[atom_body_index(node)];
    has_atom_body(node) && match body.rule {
        Rule::Numeric => body.children@.len() > 0 && if body.children@[0].rule is Integer {
            digits_fit(body.children@[0].text@) && a == Atom {
                negative,
                value: AtomValue::Integer(digits_value(body.children@[0].text@) as u128),
                ty: suffix_type(body),
            }
        } else {
            body.children@[0].rule is Decimal && a == Atom {
                negative,
                value: AtomValue::Float(body.children@[0].decimal_bits),
                ty: suffix_type(body),
            }
        },
        Rule::String => {
            &&& body.text@.len() >= 2
            &&& a.negative == negative
            &&& a.ty == Some(Type::String)
            &&& a.value is String
            &&& a.value->String_0@ == body.text@.subrange(1, body.text@.len() - 1)
        },
        Rule::Bool => a == Atom {
            negative,
            value: AtomValue::Boolean(body.text@ == seq!['t', 'r', 'u', 'e']),
            ty: Some(Type::Bool),
        },
        Rule::Ident => a == Atom { negative, value: AtomValue::Identity(body.text), ty: None },
        Rule::Expression => expr_from(body, Expression::Atom(flipped(a, negative))) || {
            &&& a.negative == negative
            &&& a.value is ParExpr
            &&& *a.value->ParExpr_0 is BinaryOperation
            &&& expr_from(body, *a.value->ParExpr_0)
            &&& a.ty == expr_type(*a.value->ParExpr_0)
        },
        _ => false,
    }
}

/// The position of the operand that starts at `pos`, after its leading
/// minus signs.
pub open spec fn group_end(node: ParseNode, pos: int) -> int
    decreases node.children@.len() - pos,
{
    if 0 <= pos < node.children@.len() && node.children@[pos].rule is UnaryMinus {
        group_end(node, pos + 1)
    } else {
        pos
    }
}

/// Whether `items[pos..end]` of an expression node reads
/// `UnaryMinus* Atom (infix UnaryMinus* Atom)*` with atoms that build.
pub open spec fn seg_ok(node: ParseNode, pos: int, end: int) -> bool
    decreases node, end - pos + 1,
{
    let a = group_end(node, pos);
    if !(0 <= pos <= a && a < end && end <= node.children@.len()) {
        false
    } else {
        &&& node.children@[a].rule is Atom
        &&& atom_ok(node.children@[a])
        &&& a + 1 == end || (infix_of(node.children@[a + 1].rule) is Some && seg_ok(
            node,
            a + 2,
            end,
        ))
    }
}

/// `ls` are the operands of `items[pos..end]` in order: each is the atom its
/// `Atom` node builds to, its sign flipped once per leading minus.
pub open spec fn leaves_seg(node: ParseNode, ls: Seq<Expression>, pos: int, end: int) -> bool
    decreases node, end - pos + 1,
{
    let a = group_end(node, pos);
    if !(0 <= pos <= a && a < end && end <= node.children@.len()) || ls.len() == 0 {
        false
    } else {
        &&& node.children@[a].rule is Atom
        &&& ls[0] is Atom
        &&& atom_from(node.children@[a], flipped(ls[0]->Atom_0, (a - pos) % 2 == 1))
        &&& if a + 1 == end {
            ls.len() == 1
        } else {
            infix_of(node.children@[a + 1].rule) is Some && leaves_seg(
                node,
                ls.drop_first(),
                a + 2,
                end,
            )
        }
    }
}

/// Whether an expression node builds.
pub open spec fn expr_ok(node: ParseNode) -> bool
    decreases node, node.children@.len() + 2,
{
    seg_ok(node, 0, node.children@.len() as int)
}

/// `e` is the expression an expression node builds to: its operators are
/// the node's infix operators in order, grouped by precedence and
/// associativity, over the node's operands in order.
pub open spec fn expr_from(node: ParseNode, e: Expression) -> bool
    decreases node, node.children@.len() + 2,
{
    &&& ops_of(e) == infix_ops(node.children@, 0, node.children@.len() as int)
    &&& grouped(e)
    &&& leaves_seg(node, leaves(e), 0, node.children@.len() as int)
}

/// The operands of an expression, left to right.
pub open spec fn leaves(e: Expression) -> Seq<Expression>
    decreases e,
{
    match e {
        Expression::BinaryOperation(l, _, r) => leaves(*l) + leaves(*r),
        Expression::Atom(_) => seq![e],
    }
}

/// Parsing can go on at `p`: it is the end, or an infix operator followed
/// by a well-formed rest.
pub open spec fn resumable(node: ParseNode, p: int) -> bool {
    p == node.children@.len() || (0 <= p < node.children@.len() && infix_of(
        node.children@[p].rule,
    ) is Some && seg_ok(node, p + 1, node.children@.len() as int))
}

proof fn lemma_leaves_concat(
    node: ParseNode,
    l1: Seq<Expression>,
    l2: Seq<Expression>,
    pos: int,
    p: int,
    q: int,
)
    requires
        leaves_seg(node, l1, pos, p),
        p < node.children@.len(),
        infix_of(node.children@[p].rule) is Some,
        leaves_seg(node, l2, p + 1, q),
    ensures
        leaves_seg(node, l1 + l2, pos, q),
    decreases p - pos,
{
    let a = group_end(node, pos);
    assert(group_end(node, p + 1) >= p + 1) by {
        lemma_group_end_bound(node, p + 1);
    }
    assert((l1 + l2)[0] == l1[0]);
    if a + 1 == p {
        assert((l1 + l2).drop_first() =~= l2);
    } else {
        lemma_leaves_concat(node, l1.drop_first(), l2, a + 2, p, q);
        assert((l1 + l2).drop_first() =~= l1.drop_first() + l2);
    }
}

proof fn lemma_seg_concat(node: ParseNode, pos: int, p: int, q: int)
    requires
        seg_ok(node, pos, p),
        p < node.children@.len(),
        infix_of(node.children@[p].rule) is Some,
        seg_ok(node, p + 1, q),
    ensures
        seg_ok(node, pos, q),
    decreases p - pos,
{
    let a = group_end(node, pos);
    lemma_group_end_bound(node, p + 1);
    if a + 1 != p {
        lemma_seg_concat(node, a + 2, p, q);
    }
}

proof fn lemma_group_end_bound(node: ParseNode, pos: int)
    ensures
        group_end(node, pos) >= pos,
    decreases node.children@.len() - pos,
{
    if 0 <= pos < node.children@.len() && node.children@[pos].rule is UnaryMinus {
        lemma_group_end_bound(node, pos + 1);
    }
}

/// Builds an atom: an optional sign, then a literal, an identifier, or a
/// parenthesized expression. A parenthesized expression that is a single
/// atom is that atom (with the sign applied); otherwise it is kept as a
/// parenthesized atom typed by the expression's type.
pub fn parse_atom(node: &ParseNode) -> (r: Result<Atom, ParseError>)
    ensures
        r is Ok <==> atom_ok(*node),
        r matches Ok(a) ==> atom_from(*node, a),
        r matches Err(e) ==> failure_of(e) == atom_failure(*node),
    decreases node, 0nat,
{
    let n = node.children.len();
    let negative = n > 0 && node.children[0].rule == Rule::UnaryMinus;
    let k: usize = if negative {
        1
    } else {
        0
    };
    if k >= n {
        return Err(error_at(node, "expected atom"));
    }
    let body = &node.children[k];
    assert(decreases_to!(node.children => node.children[k as int]));
    match body.rule {
        Rule::Numeric => {
            if body.children.len() == 0 {
                return Err(error_at(body, "expected numeric"));
            }
            let literal = &body.children[0];
            let ty = if body.children.len() > 1 {
                Type::from_str(body.children[1].text.as_str())
            } else {
                None
            };
            match literal.rule {
                Rule::Integer => match parse_digits(literal.text.as_str()) {
                    Some(v) => Ok(Atom { negative, value: AtomValue::Integer(v), ty }),
                    None => Err(error_at(literal, "integer literal out of range")),
                },
                Rule::Decimal => Ok(
                    Atom { negative, value: AtomValue::Float(literal.decimal_bits), ty },
                ),
                _ => Err(error_at(literal, "expected numeric")),
            }
        },
        Rule::String => {
            let text = body.text.as_str();
            let len = text.unicode_len();
            if len < 2 {
                return Err(error_at(body, "expected string"));
            }
            let inner = text.substring_char(1, len - 1).to_owned();
            Ok(Atom { negative, value: AtomValue::String(inner), ty: Some(Type::String) })
        },
        Rule::Bool => {
            proof {
                reveal_strlit("true");
                assert("true"@ =~= seq!['t', 'r', 'u', 'e']);
            }
            Ok(
                Atom {
                    negative,
                    value: AtomValue::Boolean(same_text(body.text.as_str(), "true")),
                    ty: Some(Type::Bool),
                },
            )
        },
        Rule::Ident => Ok(Atom { negative, value: AtomValue::Identity(body.text.clone()), ty: None }),
        Rule::Expression => {
            let expr = match parse_expression(body) {
                Ok(e) => e,
                Err(e) => return Err(e),
            };
            match expr {
                Expression::Atom(a) => {
                    let r = if negative {
                        a.negated()
                    } else {
                        a
                    };
                    assert(flipped(r, negative) == a);
                    Ok(r)
                },
                composite => {
                    let ty = composite.return_type();
                    Ok(Atom { negative, value: AtomValue::ParExpr(Box::new(composite)), ty })
                },
            }
        },
        _ => Err(error_at(body, "expected atom")),
    }
}

/// The top-level operators of an expression, left to right (those inside a
/// parenthesized atom are not counted).
pub open spec fn ops_of(e: Expression) -> Seq<Operator>
    decreases e,
{
    match e {
        Expression::BinaryOperation(l, op, r) => ops_of(*l) + seq![op] + ops_of(*r),
        Expression::Atom(_) => seq![],
    }
}

/// The infix operators among `items[from..to]`, in order.
pub open spec fn infix_ops(items: Seq<ParseNode>, from: int, to: int) -> Seq<Operator>
    decreases to - from,
{
    if to <= from {
        seq![]
    } else {
        infix_ops(items, from, to - 1) + match infix_of(items[to - 1].rule) {
            Some(op) => seq![op],
            None => seq![],
        }
    }
}

/// How tightly an expression's top level binds: its operator's precedence,
/// or above every operator for an atom.
pub open spec fn top_prec(e: Expression) -> int {
    match e {
        Expression::BinaryOperation(_, op, _) => op.spec_precedence() as int,
        Expression::Atom(_) => 7,
    }
}

/// The least precedence an operator's right operand may have at its top.
pub open spec fn right_min(op: Operator) -> int {
    if op is Pow {
        op.spec_precedence() as int
    } else {
        op.spec_precedence() as int + 1
    }
}

/// Grouping by precedence and associativity: below an operator, a left
/// operand binds more tightly or equally with a left-grouping operator, and
/// a right operand binds more tightly or, under `Pow`, equally.
pub open spec fn grouped(e: Expression) -> bool
    decreases e,
{
    match e {
        Expression::BinaryOperation(l, op, r) => {
            &&& grouped(*l)
            &&& grouped(*r)
            &&& top_prec(*l) > op.spec_precedence() || (top_prec(*l) == op.spec_precedence()
                && !(*l matches Expression::BinaryOperation(_, Operator::Pow, _)))
            &&& top_prec(*r) >= right_min(op)
        },
        Expression::Atom(_) => true,
    }
}

proof fn lemma_infix_ops_split(items: Seq<ParseNode>, a: int, b: int, c: int)
    requires
        a <= b <= c,
    ensures
        infix_ops(items, a, c) == infix_ops(items, a, b) + infix_ops(items, b, c),
    decreases c - b,
{
    if c > b {
        lemma_infix_ops_split(items, a, b, c - 1);
        assert(infix_ops(items, a, c) =~= infix_ops(items, a, b) + infix_ops(items, b, c));
    } else {
        assert(infix_ops(items, a, b) + infix_ops(items, b, c) =~= infix_ops(items, a, b));
    }
}

/// Builds an expression from the flat sequence of operators and atoms of an
/// expression node by precedence climbing: binary operators group to the
/// left except `Pow`, and unary minus binds tighter than any of them.
pub fn parse_expression(node: &ParseNode) -> (r: Result<Expression, ParseError>)
    ensures
        r is Ok <==> expr_ok(*node),
        r matches Ok(e) ==> expr_from(*node, e),
        r matches Err(e) ==> failure_of(e) == expr_failure(*node),
    decreases node, node.children@.len() + 2,
{
    match climb(node, 0, 0) {
        Ok((e, p)) => {
            if p < node.children.len() {
                Err(error_at(&node.children[p], "expected operator"))
            } else {
                Ok(e)
            }
        },
        Err(e) => Err(e),
    }
}

/// What a climb from `pos` with least precedence `min` that ends at `p`
/// gives: the operators in between, grouped, binding at least as tightly
/// as `min`, over the operands in between, and stopped at the end or before
/// a looser operator.
pub open spec fn climbed(node: ParseNode, pos: int, min: int, e: Expression, p: int) -> bool {
    let items = node.children@;
    &&& ops_of(e) == infix_ops(items, pos, p)
    &&& grouped(e)
    &&& top_prec(e) >= min
    &&& leaves_seg(node, leaves(e), pos, p)
    &&& p < items.len() ==> infix_of(items[p].rule) is Some && (infix_of(
        items[p].rule,
    )->0.spec_precedence() as int) < min
}

/// Parses operands and operators from position `pos`, combining operators
/// that bind at least as tightly as `min_prec`; returns the expression and
/// the position after it.
fn climb(node: &ParseNode, pos: usize, min_prec: u8) -> (r: Result<(Expression, usize), ParseError>)
    requires
        pos <= node.children@.len(),
        min_prec <= 7,
    ensures
        r matches Ok((e, p)) ==> pos < p <= node.children@.len(),
        r matches Ok((e, p)) ==> climbed(*node, pos as int, min_prec as int, e, p as int),
        r matches Ok((e, p)) ==> seg_ok(*node, pos as int, p as int),
        r matches Ok((e, p)) ==> seg_failure(*node, pos as int) == rest_failure(*node, p as int),
        r matches Err(e) ==> failure_of(e) == seg_failure(*node, pos as int),
        seg_ok(*node, pos as int, node.children@.len() as int) ==> r is Ok && resumable(
            *node,
            r->Ok_0.1 as int,
        ),
    decreases node, node.children@.len() - pos + 1,
{
    let ghost items = node.children@;
    let ghost len = node.children@.len() as int;
    let (mut lhs, mut p) = match unary(node, pos) {
        Ok(x) => x,
        Err(e) => return Err(e),
    };
    proof {
        assert(leaves(lhs) =~= seq![lhs]);
        assert(seq![lhs].drop_first() =~= Seq::<Expression>::empty());
        assert(flipped(flipped(lhs->Atom_0, ((p - 1 - pos) as int) % 2 == 1), false) == flipped(
            lhs->Atom_0,
            ((p - 1 - pos) as int) % 2 == 1,
        ));
    }
    proof {
        lemma_seg_failure_split(*node, pos as int, p as int);
    }
    let mut stopped = false;
    while !stopped && p < node.children.len()
        invariant
            items == node.children@,
            len == items.len(),
            pos < p <= items.len(),
            ops_of(lhs) == infix_ops(items, pos as int, p as int),
            leaves_seg(*node, leaves(lhs), pos as int, p as int),
            seg_ok(*node, pos as int, p as int),
            seg_failure(*node, pos as int) == rest_failure(*node, p as int),
            grouped(lhs),
            top_prec(lhs) >= min_prec,
            seg_ok(*node, pos as int, len) ==> resumable(*node, p as int),
            lhs is BinaryOperation && p < items.len() ==> infix_of(items[p as int].rule) is Some && (
            infix_of(items[p as int].rule)->0.spec_precedence() as int) < right_min(
                lhs->BinaryOperation_1,
            ),
            stopped ==> p < items.len() && infix_of(items[p as int].rule) is Some && (infix_of(
                items[p as int].rule,
            )->0.spec_precedence() as int) < min_prec,
        decreases items.len() - p, if stopped {
            0int
        } else {
            1int
        },
    {
        let op = match infix_operator(node.children[p].rule) {
            Some(op) => op,
            None => return Err(error_at(&node.children[p], "expected operator")),
        };
        let prec = op.precedence();
        if prec < min_prec {
            stopped = true;
        } else {
            let next_min = if op.is_right_associative() {
                prec
            } else {
                prec + 1
            };
            let (rhs, q) = match climb(node, p + 1, next_min) {
                Ok(x) => x,
                Err(e) => return Err(e),
            };
            proof {
                lemma_infix_ops_split(items, pos as int, p as int, p + 1);
                lemma_infix_ops_split(items, pos as int, p + 1, q as int);
                assert(infix_ops(items, p as int, p + 1) =~= seq![op]);
                assert(ops_of(Expression::BinaryOperation(Box::new(lhs), op, Box::new(rhs)))
                    =~= infix_ops(items, pos as int, q as int));
                lemma_leaves_concat(*node, leaves(lhs), leaves(rhs), pos as int, p as int, q as int);
                lemma_seg_concat(*node, pos as int, p as int, q as int);
                lemma_seg_failure_split(*node, pos as int, q as int);
                assert(leaves(Expression::BinaryOperation(Box::new(lhs), op, Box::new(rhs)))
                    == leaves(lhs) + leaves(rhs));
            }
            lhs = Expression::binary(lhs, op, rhs);
            p = q;
        }
    }
    Ok((lhs, p))
}

/// Parses one operand at `pos`: unary minus signs, then an atom.
fn unary(node: &ParseNode, pos: usize) -> (r: Result<(Expression, usize), ParseError>)
    requires
        pos <= node.children@.len(),
    ensures
        r matches Ok((e, p)) ==> {
            &&& pos < p <= node.children@.len()
            &&& p == group_end(*node, pos as int) + 1
            &&& node.children@[p - 1].rule is Atom
            &&& atom_ok(node.children@[p - 1])
            &&& e is Atom
            &&& atom_from(node.children@[p - 1], flipped(e->Atom_0, ((p - 1 - pos) as int) % 2 == 1))
            &&& infix_ops(node.children@, pos as int, p as int) =~= Seq::<Operator>::empty()
        },
        r matches Err(e) ==> failure_of(e) == seg_failure(*node, pos as int),
        group_end(*node, pos as int) < node.children@.len() && node.children@[group_end(
            *node,
            pos as int,
        )].rule is Atom && atom_ok(node.children@[group_end(*node, pos as int)]) ==> r is Ok,
    decreases node, node.children@.len() - pos,
{
    if pos >= node.children.len() {
        return Err(error_at(node, "expected atom"));
    }
    let item = &node.children[pos];
    match item.rule {
        Rule::UnaryMinus => match unary(node, pos + 1) {
            Ok((e, p)) => {
                proof {
                    lemma_infix_ops_split(node.children@, pos as int, pos + 1, p as int);
                    assert(infix_of(node.children@[pos as int].rule) is None);
                    assert(infix_ops(node.children@, pos as int, pos as int) =~= seq![]);
                    assert(infix_ops(node.children@, pos as int, pos + 1) =~= seq![]);
                    assert(((p - 1 - pos) as int) % 2 == 1 <==> !(((p - 1 - (pos + 1)) as int) % 2
                        == 1));
                }
                Ok((e.negate(), p))
            },
            Err(e) => {
                proof {
                    lemma_group_end_bound(*node, pos + 1);
                    assert(group_end(*node, pos as int) == group_end(*node, pos + 1));
                }
                Err(e)
            },
        },
        Rule::Atom => {
            assert(decreases_to!(node.children => node.children[pos as int]));
            assert(infix_of(node.children@[pos as int].rule) is None);
            assert(infix_ops(node.children@, pos as int, pos as int) =~= seq![]);
            assert(infix_ops(node.children@, pos as int, pos + 1) =~= seq![]);
            match parse_atom(item) {
                Ok(a) => {
                    assert(flipped(a, false) == a);
                    Ok((Expression::Atom(a), pos + 1))
                },
                Err(e) => Err(e),
            }
        },
        Rule::Not => Err(error_at(item, "expected unary operator")),
        _ => Err(error_at(item, "expected atom")),
    }
}

/// Whether a statement node (the node inside a `Statement`) builds.
pub open spec fn stmt_ok(node: ParseNode) -> bool
    decreases node, node.children@.len() + 2,
{
    let c = node.children@;
    let n = c.len();
    match node.rule {
        Rule::FunctionDeclaration => n >= 4 && params_ok(c[1], c[1].children@.len()) && type_ok(c[2])
            && block_ok(c[3]),
        Rule::VariableDeclaration => n >= 1 && (n == 1 || if c[1].rule is Expression {
            expr_ok(c[1])
        } else {
            type_ok(c[1]) && (n == 2 || expr_ok(c[2]))
        }),
        Rule::Expression => expr_ok(node),
        Rule::Conditional => n >= 2 && expr_ok(c[0]) && block_ok(c[1]) && (n == 2 || block_ok(c[2])),
        _ => false,
    }
}

/// Whether a block node builds: every child is a `Statement` whose
/// statement builds.
pub open spec fn block_ok(node: ParseNode) -> bool
    decreases node, node.children@.len() + 1,
{
    stmts_ok(node, node.children@.len())
}

/// Whether the first `n` children are `Statement`s whose statements build.
pub open spec fn stmts_ok(node: ParseNode, n: nat) -> bool
    decreases node, n,
{
    if n == 0 {
        true
    } else if n > node.children@.len() {
        false
    } else {
        stmts_ok(node, (n - 1) as nat) && stmt_child_ok(node.children@[n - 1])
    }
}

/// A `Statement` node whose statement builds.
pub open spec fn stmt_child_ok(c: ParseNode) -> bool
    decreases c, 0nat,
{
    c.rule is Statement && c.children@.len() > 0 && stmt_ok(c.children@[0])
}

/// `s` is the statement that a statement node builds to.
pub open spec fn stmt_from(node: ParseNode, s: Statement) -> bool
    decreases node, node.children@.len() + 2,
{
    let c = node.children@;
    let n = c.len();
    match node.rule {
        Rule::FunctionDeclaration => {
            &&& n >= 4
            &&& s is Function
            &&& s->Function_0.name == c[0].text
            &&& s->Function_0.inputs@.len() == c[1].children@.len()
            &&& params_from(c[1], s->Function_0.inputs@, c[1].children@.len())
            &&& type_from(c[2], s->Function_0.return_type)
            &&& block_from(c[3], s->Function_0.body.statements@)
        },
        Rule::VariableDeclaration => {
            &&& n >= 1
            &&& s is VariableDeclaration
            &&& s->VariableDeclaration_0.name == c[0].text
            &&& decl_from(node, s->VariableDeclaration_0)
        },
        Rule::Expression => s is Expression && expr_from(node, s->Expression_0),
        Rule::Conditional => {
            &&& n >= 2
            &&& s is Conditional
            &&& expr_from(c[0], s->Conditional_0.condition)
            &&& block_from(c[1], s->Conditional_0.then_block.statements@)
            &&& if n == 2 {
                s->Conditional_0.else_block is None
            } else {
                s->Conditional_0.else_block is Some && block_from(
                    c[2],
                    s->Conditional_0.else_block->0.statements@,
                )
            }
        },
        _ => false,
    }
}

/// The type and value of a declaration node: none, an initializer alone, a
/// type alone, or both.
pub open spec fn decl_from(node: ParseNode, v: VariableDeclaration) -> bool
    decreases node, node.children@.len() + 1,
{
    let c = node.children@;
    let n = c.len();
    if n == 1 {
        v.var_type is None && v.value is None
    } else if c[1].rule is Expression {
        v.var_type is None && v.value is Some && expr_from(c[1], v.value->0)
    } else {
        &&& v.var_type is Some
        &&& type_from(c[1], v.var_type->0)
        &&& if n == 2 {
            v.value is None
        } else {
            v.value is Some && expr_from(c[2], v.value->0)
        }
    }
}

/// `ss` are the statements a block node builds to.
pub open spec fn block_from(node: ParseNode, ss: Seq<Statement>) -> bool
    decreases node, node.children@.len() + 1,
{
    ss.len() == node.children@.len() && stmts_from(node, ss, node.children@.len())
}

/// The first `n` statements are built from the first `n` children.
pub open spec fn stmts_from(node: ParseNode, ss: Seq<Statement>, n: nat) -> bool
    decreases node, n,
{
    if n == 0 {
        true
    } else if n > node.children@.len() || n > ss.len() {
        false
    } else {
        stmts_from(node, ss, (n - 1) as nat) && stmt_child_from(node.children@[n - 1], ss[n - 1])
    }
}

/// `s` is built from `Statement` node `c`.
pub open spec fn stmt_child_from(c: ParseNode, s: Statement) -> bool
    decreases c, 0nat,
{
    c.rule is Statement && c.children@.len() > 0 && stmt_from(c.children@[0], s)
}

/// The position of the first `Eoi` child at or after `i`, or the end.
pub open spec fn first_eoi(node: ParseNode, i: int) -> int
    decreases node.children@.len() - i,
{
    if i < 0 || i >= node.children@.len() || node.children@[i].rule is Eoi {
        i
    } else {
        first_eoi(node, i + 1)
    }
}

/// Whether a program node builds: its children before the end of input are
/// `Statement`s whose statements build.
pub open spec fn program_ok(node: ParseNode) -> bool {
    stmts_ok(node, first_eoi(node, 0) as nat)
}

/// `ss` are the statements of a program node, in source order.
pub open spec fn program_from(node: ParseNode, ss: Seq<Statement>) -> bool {
    ss.len() == first_eoi(node, 0) && stmts_from(node, ss, ss.len())
}

/// The first failure met when building a statement node.
pub open spec fn stmt_failure(node: ParseNode) -> (Seq<char>, usize, usize)
    decreases node, node.children@.len() + 2,
{
    let c = node.children@;
    let n = c.len();
    match node.rule {
        Rule::FunctionDeclaration => if n < 4 {
            failure_at(node, "expected function declaration"@)
        } else if !params_ok(c[1], c[1].children@.len()) {
            params_failure(c[1], c[1].children@.len())
        } else if !type_ok(c[2]) {
            type_failure(c[2])
        } else {
            block_failure(c[3])
        },
        Rule::VariableDeclaration => if n == 0 {
            failure_at(node, "expected variable name"@)
        } else if n == 1 {
            no_failure()
        } else if c[1].rule is Expression {
            expr_failure(c[1])
        } else if !type_ok(c[1]) {
            type_failure(c[1])
        } else if n == 2 {
            no_failure()
        } else {
            expr_failure(c[2])
        },
        Rule::Expression => expr_failure(node),
        Rule::Conditional => if n < 2 {
            failure_at(node, "expected conditional"@)
        } else if !expr_ok(c[0]) {
            expr_failure(c[0])
        } else if !block_ok(c[1]) {
            block_failure(c[1])
        } else if n == 2 {
            no_failure()
        } else {
            block_failure(c[2])
        },
        _ => failure_at(node, "expected statement"@),
    }
}

/// The first failure met when building a block node.
pub open spec fn block_failure(node: ParseNode) -> (Seq<char>, usize, usize)
    decreases node, node.children@.len() + 1,
{
    stmts_failure(node, node.children@.len())
}

/// The first failure among the first `n` children.
pub open spec fn stmts_failure(node: ParseNode, n: nat) -> (Seq<char>, usize, usize)
    decreases node, n,
{
    if n == 0 || n > node.children@.len() {
        no_failure()
    } else if !stmts_ok(node, (n - 1) as nat) {
        stmts_failure(node, (n - 1) as nat)
    } else {
        child_failure(node.children@[n - 1])
    }
}

/// The failure of a child that should be a `Statement`.
pub open spec fn child_failure(c: ParseNode) -> (Seq<char>, usize, usize)
    decreases c, 0nat,
{
    if !(c.rule is Statement) || c.children@.len() == 0 {
        failure_at(c, "expected statement"@)
    } else {
        stmt_failure(c.children@[0])
    }
}

/// The first failure met when building a program node, in source order.
pub open spec fn program_failure(node: ParseNode) -> (Seq<char>, usize, usize) {
    stmts_failure(node, first_eoi(node, 0) as nat)
}

/// The failure of the front end's entry point on a tree.
pub open spec fn parser_failure(tree: ParseNode) -> (Seq<char>, usize, usize) {
    if tree.rule != Rule::Program {
        failure_at(tree, "expected program"@)
    } else {
        program_failure(tree)
    }
}

proof fn lemma_stmts_failure_at(node: ParseNode, i: int, m: nat)
    requires
        0 <= i < m <= node.children@.len(),
        stmts_ok(node, i as nat),
        !stmt_child_ok(node.children@[i]),
    ensures
        stmts_failure(node, m) == child_failure(node.children@[i]),
    decreases m,
{
    if m > i + 1 {
        if stmts_ok(node, (m - 1) as nat) {
            lemma_stmts_ok_at(node, (m - 1) as nat, i);
        }
        lemma_stmts_failure_at(node, i, (m - 1) as nat);
    }
}

proof fn lemma_first_eoi_bound(node: ParseNode, i: int)
    requires
        0 <= i <= node.children@.len(),
    ensures
        i <= first_eoi(node, i) <= node.children@.len(),
    decreases node.children@.len() - i,
{
    if i < node.children@.len() && !(node.children@[i].rule is Eoi) {
        lemma_first_eoi_bound(node, i + 1);
    }
}

proof fn lemma_stmts_ok_at(node: ParseNode, n: nat, k: int)
    requires
        stmts_ok(node, n),
        0 <= k < n,
    ensures
        stmt_child_ok(node.children@[k]),
    decreases n,
{
    if k < n - 1 {
        lemma_stmts_ok_at(node, (n - 1) as nat, k);
    }
}

proof fn lemma_stmts_ok_from_pointwise(node: ParseNode, n: nat)
    requires
        n <= node.children@.len(),
        forall|k: int| 0 <= k < n ==> #[trigger] stmt_child_ok(node.children@[k]),
    ensures
        stmts_ok(node, n),
    decreases n,
{
    if n > 0 {
        lemma_stmts_ok_from_pointwise(node, (n - 1) as nat);
        assert(stmt_child_ok(node.children@[n - 1]));
    }
}

proof fn lemma_stmts_from_pointwise(node: ParseNode, ss: Seq<Statement>, n: nat)
    requires
        n <= node.children@.len(),
        n <= ss.len(),
        forall|k: int| 0 <= k < n ==> #[trigger] stmt_child_from(node.children@[k], ss[k]),
    ensures
        stmts_from(node, ss, n),
    decreases n,
{
    if n > 0 {
        lemma_stmts_from_pointwise(node, ss, (n - 1) as nat);
        assert(stmt_child_from(node.children@[n - 1], ss[n - 1]));
    }
}

/// Builds a statement from the node inside a `Statement` node.
pub fn parse_statement(node: &ParseNode) -> (r: Result<Statement, ParseError>)
    ensures
        r is Ok <==> stmt_ok(*node),
        r matches Ok(s) ==> stmt_from(*node, s),
        r matches Err(e) ==> failure_of(e) == stmt_failure(*node),
    decreases node, 0nat,
{
    let n = node.children.len();
    match node.rule {
        Rule::FunctionDeclaration => {
            if n < 4 {
                return Err(error_at(node, "expected function declaration"));
            }
            let name = node.children[0].text.clone();
            let inputs = match parse_inputs(&node.children[1]) {
                Ok(i) => i,
                Err(e) => return Err(e),
            };
            let return_type = match parse_type(&node.children[2]) {
                Ok(t) => t,
                Err(e) => return Err(e),
            };
            assert(decreases_to!(node.children => node.children[3]));
            let body = match parse_block(&node.children[3]) {
                Ok(b) => b,
                Err(e) => return Err(e),
            };
            Ok(Statement::Function(FunctionDefinition::new(name, inputs, return_type, body)))
        },
        Rule::VariableDeclaration => {
            if n == 0 {
                return Err(error_at(node, "expected variable name"));
            }
            let name = node.children[0].text.clone();
            if n == 1 {
                return Ok(Statement::VariableDeclaration(VariableDeclaration::new(name, None, None)));
            }
            if node.children[1].rule == Rule::Expression {
                return match parse_expression(&node.children[1]) {
                    Ok(e) => Ok(
                        Statement::VariableDeclaration(VariableDeclaration::new(name, None, Some(e))),
                    ),
                    Err(e) => Err(e),
                };
            }
            let ty = match parse_type(&node.children[1]) {
                Ok(t) => t,
                Err(e) => return Err(e),
            };
            if n == 2 {
                return Ok(
                    Statement::VariableDeclaration(VariableDeclaration::new(name, Some(ty), None)),
                );
            }
            match parse_expression(&node.children[2]) {
                Ok(e) => Ok(
                    Statement::VariableDeclaration(VariableDeclaration::new(name, Some(ty), Some(e))),
                ),
                Err(e) => Err(e),
            }
        },
        Rule::Expression => match parse_expression(node) {
            Ok(e) => Ok(Statement::Expression(e)),
            Err(e) => Err(e),
        },
        Rule::Conditional => {
            if n < 2 {
                return Err(error_at(node, "expected conditional"));
            }
            let condition = match parse_expression(&node.children[0]) {
                Ok(e) => e,
                Err(e) => return Err(e),
            };
            assert(decreases_to!(node.children => node.children[1]));
            let then_block = match parse_block(&node.children[1]) {
                Ok(b) => b,
                Err(e) => return Err(e),
            };
            if n == 2 {
                return Ok(Statement::Conditional(Conditional::new(condition, then_block, None)));
            }
            assert(decreases_to!(node.children => node.children[2]));
            match parse_block(&node.children[2]) {
                Ok(b) => Ok(Statement::Conditional(Conditional::new(condition, then_block, Some(b)))),
                Err(e) => Err(e),
            }
        },
        _ => Err(error_at(node, "expected statement")),
    }
}

/// Builds a block: one statement per `Statement` child.
pub fn parse_block(node: &ParseNode) -> (r: Result<Block, ParseError>)
    ensures
        r is Ok <==> block_ok(*node),
        r matches Ok(b) ==> block_from(*node, b.statements@),
        r matches Err(e) ==> failure_of(e) == block_failure(*node),
    decreases node, 1nat,
{
    let mut statements: Vec<Statement> = Vec::new();
    let mut i: usize = 0;
    while i < node.children.len()
        invariant
            i <= node.children@.len(),
            statements@.len() == i,
            forall|k: int|
                0 <= k < i ==> #[trigger] stmt_child_from(node.children@[k], statements@[k]),
            forall|k: int| 0 <= k < i ==> #[trigger] stmt_child_ok(node.children@[k]),
        decreases node.children@.len() - i,
    {
        let child = &node.children[i];
        proof {
            if block_ok(*node) {
                lemma_stmts_ok_at(*node, node.children@.len(), i as int);
            }
            lemma_stmts_ok_from_pointwise(*node, i as nat);
            if !stmt_child_ok(node.children@[i as int]) {
                lemma_stmts_failure_at(*node, i as int, node.children@.len());
            }
        }
        if child.rule != Rule::Statement || child.children.len() == 0 {
            return Err(error_at(child, "expected statement"));
        }
        assert(decreases_to!(node.children => node.children[i as int]));
        assert(decreases_to!(child.children => child.children[0]));
        match parse_statement(&child.children[0]) {
            Ok(s) => statements.push(s),
            Err(e) => return Err(e),
        }
        i = i + 1;
    }
    proof {
        lemma_stmts_from_pointwise(*node, statements@, node.children@.len());
        lemma_stmts_ok_from_pointwise(*node, node.children@.len());
    }
    Ok(Block::new(statements))
}

/// Builds a program: one statement per `Statement` child, up to the end
/// of input; the first error met otherwise.
pub fn parse_program(node: &ParseNode) -> (r: Result<Program, ParseError>)
    ensures
        r is Ok <==> program_ok(*node),
        r matches Ok(p) ==> program_from(*node, p.statements@),
        r matches Err(e) ==> failure_of(e) == program_failure(*node),
{
    let mut statements: Vec<Statement> = Vec::new();
    let mut i: usize = 0;
    proof {
        lemma_first_eoi_bound(*node, 0);
    }
    while i < node.children.len()
        invariant
            i <= node.children@.len(),
            statements@.len() == i,
            first_eoi(*node, 0) == first_eoi(*node, i as int),
            0 <= first_eoi(*node, 0) <= node.children@.len(),
            forall|k: int|
                0 <= k < i ==> #[trigger] stmt_child_from(node.children@[k], statements@[k]),
            forall|k: int| 0 <= k < i ==> #[trigger] stmt_child_ok(node.children@[k]),
        decreases node.children@.len() - i,
    {
        let child = &node.children[i];
        if child.rule == Rule::Eoi {
            proof {
                lemma_stmts_from_pointwise(*node, statements@, i as nat);
                lemma_stmts_ok_from_pointwise(*node, i as nat);
            }
            return Ok(Program::new(statements));
        }
        proof {
            lemma_first_eoi_bound(*node, i + 1);
            if program_ok(*node) {
                lemma_stmts_ok_at(*node, first_eoi(*node, 0) as nat, i as int);
            }
            lemma_stmts_ok_from_pointwise(*node, i as nat);
            if !stmt_child_ok(node.children@[i as int]) {
                lemma_stmts_failure_at(*node, i as int, first_eoi(*node, 0) as nat);
            }
        }
        if child.rule != Rule::Statement || child.children.len() == 0 {
            return Err(error_at(child, "expected statement"));
        }
        match parse_statement(&child.children[0]) {
            Ok(s) => statements.push(s),
            Err(e) => return Err(e),
        }
        i = i + 1;
    }
    proof {
        lemma_stmts_from_pointwise(*node, statements@, i as nat);
        lemma_stmts_ok_from_pointwise(*node, i as nat);
    }
    Ok(Program::new(statements))
}

/// The front end's entry point: builds a program from the surface parse
/// tree of a source file.
#[derive(Debug, Clone, Copy)]
pub struct VoeParser;

impl VoeParser {
    /// Builds the program that a `Program` node describes.
    pub fn parse_program(&self, tree: &ParseNode) -> (r: Result<Program, ParseError>)
        ensures
            tree.rule != Rule::Program ==> r is Err,
            r is Ok <==> tree.rule == Rule::Program && program_ok(*tree),
            r matches Err(e) ==> failure_of(e) == parser_failure(*tree),
            r matches Ok(p) ==> program_from(*tree, p.statements@),
    {
        if tree.rule != Rule::Program {
            return Err(error_at(tree, "expected program"));
        }
        parse_program(tree)
    }
}

} // verus!
