use voe::ast::{Atom, AtomValue, Block, Expression, FunctionDefinition, Program, Statement, VariableDeclaration};
use voe::builder::{parse_atom, parse_expression, parse_statement, ParseNode, Rule, VoeParser};
use voe::folding::{ConstantFolding, FoldError};
use voe::operator::Operator;
use voe::types::{GType, Type};

fn node(rule: Rule, text: &str, children: Vec<ParseNode>) -> ParseNode {
    ParseNode { rule, text: text.to_string(), start: 0, end: text.len(), decimal_bits: 0, children }
}

fn leaf(rule: Rule, text: &str) -> ParseNode {
    node(rule, text, vec![])
}

fn numeric(literal: ParseNode, suffix: Option<&str>) -> ParseNode {
    let mut children = vec![literal];
    if let Some(s) = suffix {
        children.push(leaf(Rule::Suffix, s));
    }
    node(Rule::Numeric, "", children)
}

fn int_atom(negative: bool, digits: &str, suffix: Option<&str>) -> ParseNode {
    let mut children = vec![];
    if negative {
        children.push(leaf(Rule::UnaryMinus, "-"));
    }
    children.push(numeric(leaf(Rule::Integer, digits), suffix));
    node(Rule::Atom, digits, children)
}

fn dec_atom(negative: bool, text: &str, value: f64, suffix: Option<&str>) -> ParseNode {
    let mut literal = leaf(Rule::Decimal, text);
    literal.decimal_bits = value.to_bits();
    let mut children = vec![];
    if negative {
        children.push(leaf(Rule::UnaryMinus, "-"));
    }
    children.push(numeric(literal, suffix));
    node(Rule::Atom, text, children)
}

fn simple_atom(rule: Rule, text: &str) -> ParseNode {
    node(Rule::Atom, text, vec![leaf(rule, text)])
}

fn expr(children: Vec<ParseNode>) -> ParseNode {
    node(Rule::Expression, "", children)
}

fn op(rule: Rule) -> ParseNode {
    leaf(rule, "")
}

fn decimal_op(op: Operator, a: u64, b: u64) -> u64 {
    let (x, y) = (f64::from_bits(a), f64::from_bits(b));
    let r = match op {
        Operator::Add => x + y,
        Operator::Subtract => x - y,
        Operator::Multiply => x * y,
        Operator::Divide => x / y,
        _ => x % y,
    };
    r.to_bits()
}

fn float_text(bits: u64) -> String {
    f64::from_bits(bits).to_string()
}

fn fold_expr(e: Expression) -> Result<Expression, FoldError> {
    ConstantFolding.fold_expression(e, &decimal_op)
}

fn integer(negative: bool, magnitude: u128, ty: Option<Type>) -> Expression {
    Expression::Atom(Atom::new(negative, AtomValue::Integer(magnitude), ty))
}

fn program_of(statements: Vec<ParseNode>) -> ParseNode {
    let mut children: Vec<ParseNode> =
        statements.into_iter().map(|s| node(Rule::Statement, "", vec![s])).collect();
    children.push(leaf(Rule::Eoi, ""));
    node(Rule::Program, "", children)
}

#[test]
fn test_parse_atom() {
    let atom = parse_atom(&int_atom(false, "123", Some("i32"))).unwrap();
    assert_eq!(
        atom,
        Atom { negative: false, value: AtomValue::Integer(123), ty: Some(Type::I32) }
    );

    let atom = parse_atom(&int_atom(true, "123", Some("i32"))).unwrap();
    assert_eq!(
        atom,
        Atom { negative: true, value: AtomValue::Integer(123), ty: Some(Type::I32) }
    );

    let atom = parse_atom(&dec_atom(false, "123.456", 123.456, Some("f32"))).unwrap();
    assert_eq!(
        atom,
        Atom { negative: false, value: AtomValue::Float(123.456f64.to_bits()), ty: Some(Type::F32) }
    );

    let atom = parse_atom(&dec_atom(true, "123.456", 123.456, Some("f64"))).unwrap();
    assert_eq!(
        atom,
        Atom { negative: true, value: AtomValue::Float(123.456f64.to_bits()), ty: Some(Type::F64) }
    );

    let atom = parse_atom(&simple_atom(Rule::String, "\"hello\"")).unwrap();
    assert_eq!(
        atom,
        Atom {
            negative: false,
            value: AtomValue::String("hello".to_string()),
            ty: Some(Type::String)
        }
    );

    let atom = parse_atom(&simple_atom(Rule::Bool, "true")).unwrap();
    assert_eq!(
        atom,
        Atom { negative: false, value: AtomValue::Boolean(true), ty: Some(Type::Bool) }
    );

    let atom = parse_atom(&simple_atom(Rule::Bool, "false")).unwrap();
    assert_eq!(
        atom,
        Atom { negative: false, value: AtomValue::Boolean(false), ty: Some(Type::Bool) }
    );
}

#[test]
fn declaration_parses_to_typed_atom_and_renders_back() {
    let decl = node(
        Rule::VariableDeclaration,
        "",
        vec![leaf(Rule::Ident, "x"), leaf(Rule::PrimitiveType, "i32"), expr(vec![int_atom(false, "5", Some("i32"))])],
    );
    let statement = parse_statement(&decl).unwrap();
    let Statement::VariableDeclaration(v) = &statement else { panic!("not a declaration") };
    let Some(Expression::Atom(atom)) = &v.value else { panic!("no atom") };
    assert_eq!(
        *atom,
        Atom { negative: false, value: AtomValue::Integer(5), ty: Some(Type::I32) }
    );
    assert_eq!(atom.render(&float_text), "5i32");
    assert_eq!(statement.render(&float_text), "let x: i32 = 5i32;");
}

#[test]
fn literal_sum_folds() {
    let e = parse_expression(&expr(vec![
        int_atom(false, "2", Some("i32")),
        op(Rule::Add),
        int_atom(false, "3", Some("i32")),
    ]))
    .unwrap();
    assert_eq!(fold_expr(e), Ok(integer(false, 5, Some(Type::I32))));
}

#[test]
fn multiplication_binds_before_subtraction() {
    let e = parse_expression(&expr(vec![
        int_atom(false, "10", Some("i32")),
        op(Rule::Sub),
        int_atom(false, "4", Some("i32")),
        op(Rule::Mul),
        int_atom(false, "2", Some("i32")),
    ]))
    .unwrap();
    assert_eq!(fold_expr(e), Ok(integer(false, 2, Some(Type::I32))));
}

#[test]
fn negative_literal_parses_and_renders() {
    let e = parse_expression(&expr(vec![op(Rule::UnaryMinus), int_atom(false, "5", Some("i32"))]))
        .unwrap();
    assert_eq!(e, integer(true, 5, Some(Type::I32)));
    assert_eq!(e.render(&float_text), "-5i32");
    let a = parse_atom(&int_atom(true, "5", Some("i32"))).unwrap();
    assert_eq!(a.render(&float_text), "-5i32");
}

#[test]
fn comparison_stays_unfolded() {
    let e = parse_expression(&expr(vec![
        int_atom(false, "1", Some("i32")),
        op(Rule::Eq),
        int_atom(false, "1", Some("i32")),
    ]))
    .unwrap();
    let folded = fold_expr(e).unwrap();
    assert_eq!(
        folded,
        Expression::binary(integer(false, 1, Some(Type::I32)), Operator::Equal, integer(false, 1, Some(Type::I32)))
    );
}

#[test]
fn mixed_signedness_stays_unfolded() {
    let e = Expression::binary(integer(false, 1, Some(Type::U32)), Operator::Add, integer(false, 1, Some(Type::I32)));
    let folded = fold_expr(e).unwrap();
    assert_eq!(
        folded,
        Expression::binary(integer(false, 1, Some(Type::U32)), Operator::Add, integer(false, 1, Some(Type::I32)))
    );
    assert_eq!(Type::U32.join(&Type::I32), None);
}

#[test]
fn literal_type_replaces_declared_type() {
    let decl = node(
        Rule::VariableDeclaration,
        "",
        vec![leaf(Rule::Ident, "x"), leaf(Rule::PrimitiveType, "i64"), expr(vec![int_atom(false, "5", Some("i32"))])],
    );
    let program = VoeParser.parse_program(&program_of(vec![decl])).unwrap();
    let folded = ConstantFolding.run(program, &decimal_op).unwrap();
    let Statement::VariableDeclaration(v) = &folded.statements[0] else { panic!("not a declaration") };
    assert_eq!(v.var_type, Some(Type::I32));
    assert_eq!(v.value, Some(integer(false, 5, Some(Type::I32))));
}

#[test]
fn folding_twice_changes_nothing() {
    let sum = expr(vec![
        int_atom(false, "7", Some("i64")),
        op(Rule::Mod),
        int_atom(false, "4", Some("i64")),
        op(Rule::Add),
        dec_atom(false, "1.5", 1.5, Some("f64")),
    ]);
    let cmp = expr(vec![simple_atom(Rule::Ident, "a"), op(Rule::Lt), int_atom(false, "3", Some("u8"))]);
    let program = VoeParser.parse_program(&program_of(vec![sum, cmp])).unwrap();
    let once = ConstantFolding.run(program, &decimal_op).unwrap();
    let twice = ConstantFolding.run(clone_program(&once), &decimal_op).unwrap();
    assert_eq!(once, twice);
}

fn clone_program(p: &Program) -> Program {
    // Rebuild through the parser's own output shape: statements here are
    // expression statements only.
    let statements = p
        .statements
        .iter()
        .map(|s| match s {
            Statement::Expression(e) => Statement::Expression(clone_expr(e)),
            _ => panic!("unexpected statement"),
        })
        .collect();
    Program::new(statements)
}

fn clone_type(t: &Option<Type>) -> Option<Type> {
    t.as_ref().map(|t| t.duplicate())
}

fn clone_expr(e: &Expression) -> Expression {
    match e {
        Expression::BinaryOperation(l, op, r) => Expression::binary(clone_expr(l), *op, clone_expr(r)),
        Expression::Atom(a) => {
            let value = match &a.value {
                AtomValue::Integer(m) => AtomValue::Integer(*m),
                AtomValue::Float(b) => AtomValue::Float(*b),
                AtomValue::String(s) => AtomValue::String(s.clone()),
                AtomValue::Boolean(b) => AtomValue::Boolean(*b),
                AtomValue::Identity(s) => AtomValue::Identity(s.clone()),
                AtomValue::ParExpr(inner) => AtomValue::ParExpr(Box::new(clone_expr(inner))),
            };
            Expression::Atom(Atom::new(a.negative, value, clone_type(&a.ty)))
        }
    }
}

#[test]
fn integer_division_by_zero_is_an_error() {
    let e = Expression::binary(integer(false, 1, Some(Type::I32)), Operator::Divide, integer(false, 0, Some(Type::I32)));
    assert_eq!(fold_expr(e), Err(FoldError::DivisionByZero));
    let e = Expression::binary(integer(false, 1, Some(Type::I32)), Operator::Modulo, integer(true, 0, Some(Type::I32)));
    assert_eq!(fold_expr(e), Err(FoldError::DivisionByZero));
}

#[test]
fn oversized_integer_result_is_an_error() {
    let e = Expression::binary(integer(false, u128::MAX, Some(Type::U64)), Operator::Add, integer(false, 1, Some(Type::U64)));
    assert_eq!(fold_expr(e), Err(FoldError::Overflow));
    let e = Expression::binary(integer(false, u128::MAX, Some(Type::I64)), Operator::Multiply, integer(true, 2, Some(Type::I64)));
    assert_eq!(fold_expr(e), Err(FoldError::Overflow));
}

#[test]
fn signed_arithmetic_follows_truncating_semantics() {
    let f = |l: Expression, o: Operator, r: Expression| fold_expr(Expression::binary(l, o, r)).unwrap();
    let t = || Some(Type::I32);
    assert_eq!(f(integer(false, 2, t()), Operator::Subtract, integer(false, 5, t())), integer(true, 3, t()));
    assert_eq!(f(integer(true, 7, t()), Operator::Divide, integer(false, 2, t())), integer(true, 3, t()));
    assert_eq!(f(integer(true, 7, t()), Operator::Modulo, integer(false, 2, t())), integer(true, 1, t()));
    assert_eq!(f(integer(false, 7, t()), Operator::Modulo, integer(true, 2, t())), integer(false, 1, t()));
    assert_eq!(f(integer(true, 3, t()), Operator::Multiply, integer(true, 4, t())), integer(false, 12, t()));
    assert_eq!(f(integer(true, 3, t()), Operator::Add, integer(false, 3, t())), integer(false, 0, t()));
}

#[test]
fn integer_types_join_to_the_wider() {
    let e = Expression::binary(integer(false, 2, Some(Type::I8)), Operator::Multiply, integer(false, 3, Some(Type::I64)));
    assert_eq!(fold_expr(e), Ok(integer(false, 6, Some(Type::I64))));
    assert_eq!(Type::U64.join(&Type::U16), Some(Type::U64));
    assert_eq!(Type::I16.join(&Type::I16), Some(Type::I16));
    assert_eq!(Type::I16.join(&Type::F32), None);
    assert_eq!(Type::Bool.join(&Type::Bool), None);
}

#[test]
fn decimal_join_takes_the_right_operand() {
    assert_eq!(Type::F64.join(&Type::F32), Some(Type::F32));
    assert_eq!(Type::F32.join(&Type::F64), Some(Type::F64));
    let a = Expression::Atom(Atom::new(false, AtomValue::Float(1.5f64.to_bits()), Some(Type::F64)));
    let b = Expression::Atom(Atom::new(true, AtomValue::Float(2.25f64.to_bits()), Some(Type::F32)));
    let folded = fold_expr(Expression::binary(a, Operator::Add, b)).unwrap();
    assert_eq!(
        folded,
        Expression::Atom(Atom::new(true, AtomValue::Float(0.75f64.to_bits()), Some(Type::F32)))
    );
    assert_eq!(folded.render(&float_text), "-0.75f32");
}

#[test]
fn pow_and_untyped_operands_stay_unfolded() {
    let e = Expression::binary(integer(false, 2, Some(Type::I32)), Operator::Pow, integer(false, 3, Some(Type::I32)));
    assert!(matches!(fold_expr(e), Ok(Expression::BinaryOperation(..))));
    let e = Expression::binary(integer(false, 2, None), Operator::Add, integer(false, 3, Some(Type::I32)));
    assert!(matches!(fold_expr(e), Ok(Expression::BinaryOperation(..))));
}

#[test]
fn pow_groups_to_the_right() {
    let e = parse_expression(&expr(vec![
        simple_atom(Rule::Ident, "a"),
        op(Rule::Pow),
        simple_atom(Rule::Ident, "b"),
        op(Rule::Pow),
        simple_atom(Rule::Ident, "c"),
    ]))
    .unwrap();
    let Expression::BinaryOperation(lhs, _, rhs) = e else { panic!("not an operation") };
    assert!(matches!(*lhs, Expression::Atom(_)));
    assert!(matches!(*rhs, Expression::BinaryOperation(..)));
}

#[test]
fn subtraction_groups_to_the_left() {
    let e = parse_expression(&expr(vec![
        int_atom(false, "10", Some("i32")),
        op(Rule::Sub),
        int_atom(false, "4", Some("i32")),
        op(Rule::Sub),
        int_atom(false, "3", Some("i32")),
    ]))
    .unwrap();
    assert_eq!(fold_expr(e), Ok(integer(false, 3, Some(Type::I32))));
}

#[test]
fn negated_composite_becomes_parenthesized_and_folds_back() {
    let inner = expr(vec![int_atom(false, "2", Some("i32")), op(Rule::Add), int_atom(false, "3", Some("i32"))]);
    let paren = node(Rule::Atom, "", vec![inner]);
    let e = parse_expression(&expr(vec![op(Rule::UnaryMinus), paren])).unwrap();
    let Expression::Atom(a) = &e else { panic!("not an atom") };
    assert!(a.negative);
    assert_eq!(a.ty, Some(Type::I32));
    assert!(matches!(a.value, AtomValue::ParExpr(_)));
    assert_eq!(e.render(&float_text), "-(2i32 + 3i32)");
    assert_eq!(fold_expr(e), Ok(integer(true, 5, Some(Type::I32))));

    let sum = Expression::binary(integer(false, 2, Some(Type::I32)), Operator::Add, integer(false, 3, Some(Type::I32)));
    let negated = sum.negate();
    let Expression::Atom(a) = &negated else { panic!("not an atom") };
    assert!(a.negative);
    assert_eq!(a.ty, None);
    assert!(matches!(a.value, AtomValue::ParExpr(_)));
    let twice = negated.negate();
    let Expression::Atom(a) = &twice else { panic!("not an atom") };
    assert!(!a.negative);
    assert_eq!(fold_expr(twice), Ok(integer(false, 5, Some(Type::I32))));
}

#[test]
fn parenthesized_atom_is_the_atom() {
    let paren = node(Rule::Atom, "", vec![expr(vec![int_atom(false, "4", Some("u8"))])]);
    assert_eq!(
        parse_atom(&paren).unwrap(),
        Atom { negative: false, value: AtomValue::Integer(4), ty: Some(Type::U8) }
    );
}

#[test]
fn unknown_suffix_is_no_type_and_unknown_primitive_is_an_error() {
    let a = parse_atom(&int_atom(false, "9", Some("q9"))).unwrap();
    assert_eq!(a.ty, None);
    let decl = node(
        Rule::VariableDeclaration,
        "",
        vec![leaf(Rule::Ident, "x"), leaf(Rule::PrimitiveType, "int")],
    );
    let err = parse_statement(&decl).unwrap_err();
    assert_eq!(err.message, "unknown type: int");
    assert_eq!(Type::from_str("()"), Some(Type::Unit));
    assert_eq!(Type::from_str("u65"), None);
}

#[test]
fn malformed_nodes_are_errors() {
    assert_eq!(parse_statement(&leaf(Rule::Atom, "")).unwrap_err().message, "expected statement");
    assert!(parse_expression(&expr(vec![])).is_err());
    assert!(parse_atom(&int_atom(false, "340282366920938463463374607431768211456", None)).is_err());
    let not = parse_expression(&expr(vec![op(Rule::Not), simple_atom(Rule::Bool, "true")]));
    assert_eq!(not.unwrap_err().message, "expected unary operator");
    let tree = node(Rule::Block, "", vec![]);
    assert_eq!(VoeParser.parse_program(&tree).unwrap_err().message, "expected program");
}

#[test]
fn declaration_keeps_declared_type_for_non_literal() {
    let v = VariableDeclaration::new(
        "y".to_string(),
        Some(Type::I32),
        Some(Expression::Atom(Atom::new(false, AtomValue::Identity("x".to_string()), None))),
    );
    let folded = ConstantFolding.fold_variable_declaration(v, &decimal_op).unwrap();
    let Statement::VariableDeclaration(v) = folded else { panic!("not a declaration") };
    assert_eq!(v.var_type, Some(Type::I32));
}

#[test]
fn program_with_function_and_conditional_folds_and_renders() {
    let params = node(
        Rule::Inputs,
        "",
        vec![node(Rule::Param, "", vec![leaf(Rule::Ident, "a"), leaf(Rule::PrimitiveType, "i32")])],
    );
    let body_stmt = node(
        Rule::Statement,
        "",
        vec![expr(vec![int_atom(false, "6", Some("i32")), op(Rule::Div), int_atom(false, "3", Some("i32"))])],
    );
    let function = node(
        Rule::FunctionDeclaration,
        "",
        vec![leaf(Rule::Ident, "f"), params, leaf(Rule::PrimitiveType, "i32"), node(Rule::Block, "", vec![body_stmt])],
    );
    let then_stmt = node(
        Rule::Statement,
        "",
        vec![node(Rule::VariableDeclaration, "", vec![leaf(Rule::Ident, "z"), expr(vec![simple_atom(Rule::String, "\"s\"")])])],
    );
    let conditional = node(
        Rule::Conditional,
        "",
        vec![
            expr(vec![simple_atom(Rule::Bool, "true"), op(Rule::LogicalAnd), simple_atom(Rule::Ident, "b")]),
            node(Rule::Block, "", vec![then_stmt]),
            node(Rule::Block, "", vec![]),
        ],
    );
    let program = VoeParser.parse_program(&program_of(vec![function, conditional])).unwrap();
    let folded = ConstantFolding.run(program, &decimal_op).unwrap();
    assert_eq!(
        folded.render(&float_text),
        "fn f(a: i32) -> i32 {\n    2i32;\n}\nif true && b {\n    let z = s;\n} else {\n\n}"
    );
    assert_eq!(Operator::LessThanOrEqual.text(), "<=");
    assert!(Operator::GreaterThan.is_comparison());
    assert!(!Operator::Add.is_comparison());
}

#[test]
fn empty_program_folds_and_renders_to_nothing() {
    let program = VoeParser.parse_program(&program_of(vec![])).unwrap();
    assert!(program.statements.is_empty());
    let folded = ConstantFolding.run(program, &decimal_op).unwrap();
    assert_eq!(folded.render(&float_text), "");
}

#[test]
fn largest_integer_literal_is_read_exactly() {
    let a = parse_atom(&int_atom(false, "340282366920938463463374607431768211455", Some("u64"))).unwrap();
    assert_eq!(a.value, AtomValue::Integer(u128::MAX));
    assert_eq!(a.render(&float_text), "340282366920938463463374607431768211455u64");
}

#[test]
fn conditional_without_else_and_types_render() {
    let cond = node(
        Rule::Conditional,
        "",
        vec![expr(vec![simple_atom(Rule::Ident, "c")]), node(Rule::Block, "", vec![])],
    );
    let s = parse_statement(&cond).unwrap();
    let Statement::Conditional(c) = &s else { panic!("not a conditional") };
    assert!(c.else_block.is_none());
    assert_eq!(s.render(&float_text), "if c {\n\n}");
    let generic = node(
        Rule::GType,
        "",
        vec![leaf(Rule::Ident, "Map"), leaf(Rule::PrimitiveType, "u8"), leaf(Rule::Ident, "Key")],
    );
    let dependent = node(
        Rule::DType,
        "",
        vec![
            node(Rule::Inputs, "", vec![node(Rule::Param, "", vec![leaf(Rule::Ident, "n"), leaf(Rule::PrimitiveType, "u64")])]),
            leaf(Rule::Ident, "Vec"),
        ],
    );
    let params = node(Rule::Param, "", vec![leaf(Rule::Ident, "m"), generic]);
    let function = node(
        Rule::FunctionDeclaration,
        "",
        vec![leaf(Rule::Ident, "g"), node(Rule::Inputs, "", vec![params]), dependent, node(Rule::Block, "", vec![])],
    );
    let s = parse_statement(&function).unwrap();
    assert_eq!(s.render(&float_text), "fn g(m: Map<u8, Key>) -> forall n: u64. Vec {\n\n}");
    assert_eq!(Type::F64.render(), "f64");
    assert_eq!(Type::Unit.render(), "()");
}

fn boolean(b: bool) -> Expression {
    Expression::Atom(Atom::new(false, AtomValue::Boolean(b), Some(Type::Bool)))
}

#[test]
fn grouping_gives_exact_operands() {
    let e = parse_expression(&expr(vec![
        int_atom(false, "10", Some("i32")),
        op(Rule::Sub),
        int_atom(false, "4", Some("i32")),
        op(Rule::Sub),
        int_atom(false, "2", Some("i32")),
    ]))
    .unwrap();
    let t = || Some(Type::I32);
    assert_eq!(
        e,
        Expression::binary(
            Expression::binary(integer(false, 10, t()), Operator::Subtract, integer(false, 4, t())),
            Operator::Subtract,
            integer(false, 2, t())
        )
    );
    let e = parse_expression(&expr(vec![
        int_atom(false, "2", Some("i32")),
        op(Rule::Pow),
        int_atom(false, "3", Some("i32")),
        op(Rule::Pow),
        int_atom(false, "2", Some("i32")),
    ]))
    .unwrap();
    assert_eq!(
        e,
        Expression::binary(
            integer(false, 2, t()),
            Operator::Pow,
            Expression::binary(integer(false, 3, t()), Operator::Pow, integer(false, 2, t()))
        )
    );
}

#[test]
fn logical_and_binds_tighter_than_or() {
    let e = parse_expression(&expr(vec![
        simple_atom(Rule::Bool, "true"),
        op(Rule::LogicalOr),
        simple_atom(Rule::Bool, "false"),
        op(Rule::LogicalAnd),
        simple_atom(Rule::Bool, "true"),
    ]))
    .unwrap();
    assert_eq!(
        e,
        Expression::binary(
            boolean(true),
            Operator::LogicalOr,
            Expression::binary(boolean(false), Operator::LogicalAnd, boolean(true))
        )
    );
}

#[test]
fn minus_before_parenthesized_literal_flips_it() {
    let paren = node(
        Rule::Atom,
        "",
        vec![leaf(Rule::UnaryMinus, "-"), expr(vec![int_atom(false, "5", Some("i32"))])],
    );
    assert_eq!(
        parse_atom(&paren).unwrap(),
        Atom { negative: true, value: AtomValue::Integer(5), ty: Some(Type::I32) }
    );
}

#[test]
fn function_statement_is_built_exactly() {
    let params = node(
        Rule::Inputs,
        "",
        vec![node(Rule::Param, "", vec![leaf(Rule::Ident, "a"), leaf(Rule::PrimitiveType, "i32")])],
    );
    let body = node(Rule::Block, "", vec![node(Rule::Statement, "", vec![expr(vec![simple_atom(Rule::Ident, "a")])])]);
    let function = node(
        Rule::FunctionDeclaration,
        "",
        vec![leaf(Rule::Ident, "f"), params, leaf(Rule::PrimitiveType, "i32"), body],
    );
    assert_eq!(
        parse_statement(&function).unwrap(),
        Statement::Function(FunctionDefinition::new(
            "f".to_string(),
            vec![VariableDeclaration::new("a".to_string(), Some(Type::I32), None)],
            Type::I32,
            Block::new(vec![Statement::Expression(Expression::Atom(Atom::new(
                false,
                AtomValue::Identity("a".to_string()),
                None
            )))])
        ))
    );
}

#[test]
fn declaration_program_is_built_exactly() {
    let decl = node(
        Rule::VariableDeclaration,
        "",
        vec![leaf(Rule::Ident, "x"), leaf(Rule::PrimitiveType, "i32"), expr(vec![int_atom(false, "5", Some("i32"))])],
    );
    assert_eq!(
        VoeParser.parse_program(&program_of(vec![decl])).unwrap(),
        Program::new(vec![Statement::VariableDeclaration(VariableDeclaration::new(
            "x".to_string(),
            Some(Type::I32),
            Some(integer(false, 5, Some(Type::I32)))
        ))])
    );
}

#[test]
fn negative_zero_decimal_result_is_not_negative() {
    let a = Expression::Atom(Atom::new(false, AtomValue::Float(0.0f64.to_bits()), Some(Type::F64)));
    let b = Expression::Atom(Atom::new(true, AtomValue::Float(1.0f64.to_bits()), Some(Type::F64)));
    let folded = fold_expr(Expression::binary(a, Operator::Multiply, b)).unwrap();
    assert_eq!(
        folded,
        Expression::Atom(Atom::new(false, AtomValue::Float(0.0f64.to_bits()), Some(Type::F64)))
    );
}

#[test]
fn generic_literal_type_replaces_declared_type() {
    let map = || Type::Generic(GType { name: "Map".to_string(), fields: vec![Type::U8] });
    let v = VariableDeclaration::new(
        "x".to_string(),
        Some(Type::I64),
        Some(Expression::Atom(Atom::new(false, AtomValue::Integer(5), Some(map())))),
    );
    let folded = ConstantFolding.fold_variable_declaration(v, &decimal_op).unwrap();
    let Statement::VariableDeclaration(v) = folded else { panic!("not a declaration") };
    assert_eq!(v.var_type, Some(map()));
    assert_eq!(v.value, Some(Expression::Atom(Atom::new(false, AtomValue::Integer(5), Some(map())))));
}

#[test]
fn errors_carry_message_and_span_of_first_failure() {
    let mut bad = leaf(Rule::PrimitiveType, "u7");
    bad.start = 4;
    bad.end = 6;
    let generic = node(Rule::GType, "", vec![leaf(Rule::Ident, "Map"), leaf(Rule::PrimitiveType, "u8"), bad, leaf(Rule::PrimitiveType, "q")]);
    let decl = node(Rule::VariableDeclaration, "", vec![leaf(Rule::Ident, "x"), generic]);
    let err = parse_statement(&decl).unwrap_err();
    assert_eq!((err.message.as_str(), err.start, err.end), ("unknown type: u7", 4, 6));

    let mut stray = leaf(Rule::Atom, "");
    stray.start = 10;
    stray.end = 12;
    let ok = node(Rule::Expression, "", vec![simple_atom(Rule::Ident, "a")]);
    let tree = node(
        Rule::Program,
        "",
        vec![node(Rule::Statement, "", vec![ok]), stray, leaf(Rule::Eoi, "")],
    );
    let err = VoeParser.parse_program(&tree).unwrap_err();
    assert_eq!((err.message.as_str(), err.start, err.end), ("expected statement", 10, 12));
}
