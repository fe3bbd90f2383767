use vstd::prelude::*;
use crate::ast::{
    Atom, AtomValue, Block, Conditional, Expression, FunctionDefinition, Program, Statement,
    VariableDeclaration,
};
use crate::operator::operator_text;
use crate::types::{DType, GType, Type};

verus! {

broadcast use vstd::std_specs::vec::group_vec_axioms, vstd::seq::group_seq_axioms;

pub open spec fn digit_chars() -> Seq<char> {
    seq!['0', '1', '2', '3', '4', '5', '6', '7', '8', '9']
}

/// Decimal text of a natural number.
pub open spec fn decimal_text(n: nat) -> Seq<char>
    decreases n,
{
    if n < 10 {
        seq![digit_chars()[n as int]]
    } else {
        decimal_text(n / 10) + seq![digit_chars()[(n % 10) as int]]
    }
}

/// The canonical text of a type.
pub open spec fn type_text(t: Type) -> Seq<char>
    decreases t, 0nat,
{
    match t {
        Type::U8 => seq!['u', '8'],
        Type::U16 => seq!['u', '1', '6'],
        Type::U32 => seq!['u', '3', '2'],
        Type::U64 => seq!['u', '6', '4'],
        Type::I8 => seq!['i', '8'],
        Type::I16 => seq!['i', '1', '6'],
        Type::I32 => seq!['i', '3', '2'],
        Type::I64 => seq!['i', '6', '4'],
        Type::F32 => seq!['f', '3', '2'],
        Type::F64 => seq!['f', '6', '4'],
        Type::Bool => seq!['b', 'o', 'o', 'l'],
        Type::String => seq!['s', 't', 'r', 'i', 'n', 'g'],
        Type::Unit => seq!['(', ')'],
        Type::Custom(name) => name@,
        Type::Dependent(d) => seq!['f', 'o', 'r', 'a', 'l', 'l', ' '] + params_text(
            d.fields@,
            d.fields@.len(),
        ) + seq!['.', ' '] + d.name@,
        Type::Generic(g) => g.name@ + seq!['<'] + types_text(g.fields@, g.fields@.len()) + seq![
            '>',
        ],
    }
}

/// The first `n` types of `s`, separated by `, `.
pub open spec fn types_text(s: Seq<Type>, n: nat) -> Seq<char>
    decreases s, n,
{
    if n == 0 || n > s.len() {
        seq![]
    } else if n == 1 {
        type_text(s[0])
    } else {
        types_text(s, (n - 1) as nat) + seq![',', ' '] + type_text(s[n - 1])
    }
}

/// A parameter: `<name>: <type>`, or its name alone when it has no type.
pub open spec fn param_text(v: VariableDeclaration) -> Seq<char>
    decreases v, 0nat,
{
    match v.var_type {
        Some(t) => v.name@ + seq![':', ' '] + type_text(t),
        None => v.name@,
    }
}

/// The first `n` parameters of `s`, separated by `, `.
pub open spec fn params_text(s: Seq<VariableDeclaration>, n: nat) -> Seq<char>
    decreases s, n,
{
    if n == 0 || n > s.len() {
        seq![]
    } else if n == 1 {
        param_text(s[0])
    } else {
        params_text(s, (n - 1) as nat) + seq![',', ' '] + param_text(s[n - 1])
    }
}

/// A caller-supplied formatter of binary64 bit patterns: total, and its
/// text a function of its argument.
pub open spec fn float_formatter<G: Fn(u64) -> String>(g: G) -> bool {
    &&& forall|b: u64| #[trigger] g.requires((b,))
    &&& forall|b: u64, x: String, y: String|
        #![trigger g.ensures((b,), x), g.ensures((b,), y)]
        g.ensures((b,), x) && g.ensures((b,), y) ==> x@ == y@
}

/// The text that a formatter gives.
pub open spec fn float_text_fn<G: Fn(u64) -> String>(g: G) -> spec_fn(u64) -> Seq<char> {
    |b: u64| (choose|x: String| g.ensures((b,), x))@
}

/// An atom: `-` when negative, the magnitude's text, and the type's text
/// after a numeric literal with a known type.
pub open spec fn atom_text(a: Atom, ft: spec_fn(u64) -> Seq<char>) -> Seq<char>
    decreases a,
{
    let sign = if a.negative {
        seq!['-']
    } else {
        seq![]
    };
    let body = match a.value {
        AtomValue::Integer(m) => decimal_text(m as nat),
        AtomValue::Float(b) => ft(b),
        AtomValue::String(s) => s@,
        AtomValue::Boolean(b) => if b {
            seq!['t', 'r', 'u', 'e']
        } else {
            seq!['f', 'a', 'l', 's', 'e']
        },
        AtomValue::Identity(i) => i@,
        AtomValue::ParExpr(e) => seq!['('] + expr_text(*e, ft) + seq![')'],
    };
    let suffix = if a.ty is Some && a.value.spec_is_simple() {
        type_text(a.ty->0)
    } else {
        seq![]
    };
    sign + body + suffix
}

/// An expression: `<lhs> <op> <rhs>`, or an atom's text.
pub open spec fn expr_text(e: Expression, ft: spec_fn(u64) -> Seq<char>) -> Seq<char>
    decreases e,
{
    match e {
        Expression::BinaryOperation(l, op, r) => expr_text(*l, ft) + seq![' '] + operator_text(op)
            + seq![' '] + expr_text(*r, ft),
        Expression::Atom(a) => atom_text(a, ft),
    }
}

/// A declaration: `let <name>[: <type>][ = <value>]`.
pub open spec fn decl_text(v: VariableDeclaration, ft: spec_fn(u64) -> Seq<char>) -> Seq<char> {
    seq!['l', 'e', 't', ' '] + v.name@ + match v.var_type {
        Some(t) => seq![':', ' '] + type_text(t),
        None => seq![],
    } + match v.value {
        Some(e) => seq![' ', '=', ' '] + expr_text(e, ft),
        None => seq![],
    }
}

/// A statement; declarations and expressions end with `;`.
pub open spec fn stmt_text(s: Statement, ft: spec_fn(u64) -> Seq<char>) -> Seq<char>
    decreases s, 0nat,
{
    match s {
        Statement::Function(f) => seq!['f', 'n', ' '] + f.name@ + seq!['('] + params_text(
            f.inputs@,
            f.inputs@.len(),
        ) + seq![')', ' ', '-', '>', ' '] + type_text(f.return_type) + seq![' '] + block_text(
            f.body.statements@,
            ft,
        ),
        Statement::VariableDeclaration(v) => decl_text(v, ft) + seq![';'],
        Statement::Expression(e) => expr_text(e, ft) + seq![';'],
        Statement::Conditional(c) => seq!['i', 'f', ' '] + expr_text(c.condition, ft) + seq![' ']
            + block_text(c.then_block.statements@, ft) + match c.else_block {
            Some(b) => seq![' ', 'e', 'l', 's', 'e', ' '] + block_text(b.statements@, ft),
            None => seq![],
        },
    }
}

/// A block: `{`, each statement on its own line after four spaces, `}`.
pub open spec fn block_text(s: Seq<Statement>, ft: spec_fn(u64) -> Seq<char>) -> Seq<char>
    decreases s, s.len() + 1,
{
    seq!['{', '\n'] + block_lines(s, s.len(), ft) + seq!['\n', '}']
}

/// The first `n` statements of a block, indented, one per line.
pub open spec fn block_lines(s: Seq<Statement>, n: nat, ft: spec_fn(u64) -> Seq<char>) -> Seq<
    char,
>
    decreases s, n,
{
    if n == 0 || n > s.len() {
        seq![]
    } else if n == 1 {
        seq![' ', ' ', ' ', ' '] + stmt_text(s[0], ft)
    } else {
        block_lines(s, (n - 1) as nat, ft) + seq!['\n', ' ', ' ', ' ', ' '] + stmt_text(
            s[n - 1],
            ft,
        )
    }
}

/// The first `n` statements of a program, one per line.
pub open spec fn program_lines(s: Seq<Statement>, n: nat, ft: spec_fn(u64) -> Seq<char>) -> Seq<
    char,
>
    decreases n,
{
    if n == 0 || n > s.len() {
        seq![]
    } else if n == 1 {
        stmt_text(s[0], ft)
    } else {
        program_lines(s, (n - 1) as nat, ft) + seq!['\n'] + stmt_text(s[n - 1], ft)
    }
}

/// Appends the decimal text of `n`.
fn write_decimal(n: u128, out: &mut String)
    ensures
        final(out)@ == old(out)@ + decimal_text(n as nat),
    decreases n,
{
    if n >= 10 {
        write_decimal(n / 10, out);
    }
    let d = n % 10;
    let ghost before = out@;
    match d {
            0 => {
                proof {
                    reveal_strlit("0");
                    assert("0"@ =~= seq!['0']);
                }
                out.append("0");
            },
            1 => {
                proof {
                    reveal_strlit("1");
                    assert("1"@ =~= seq!['1']);
                }
                out.append("1");
            },
            2 => {
                proof {
                    reveal_strlit("2");
                    assert("2"@ =~= seq!['2']);
                }
                out.append("2");
            },
            3 => {
                proof {
                    reveal_strlit("3");
                    assert("3"@ =~= seq!['3']);
                }
                out.append("3");
            },
            4 => {
                proof {
                    reveal_strlit("4");
                    assert("4"@ =~= seq!['4']);
                }
                out.append("4");
            },
            5 => {
                proof {
                    reveal_strlit("5");
                    assert("5"@ =~= seq!['5']);
                }
                out.append("5");
            },
            6 => {
                proof {
                    reveal_strlit("6");
                    assert("6"@ =~= seq!['6']);
                }
                out.append("6");
            },
            7 => {
                proof {
                    reveal_strlit("7");
                    assert("7"@ =~= seq!['7']);
                }
                out.append("7");
            },
            8 => {
                proof {
                    reveal_strlit("8");
                    assert("8"@ =~= seq!['8']);
                }
                out.append("8");
            },
            _ => {
                proof {
                    reveal_strlit("9");
                    assert("9"@ =~= seq!['9']);
                }
                out.append("9");
            },
    }
    assert(out@ == before + seq![digit_chars()[d as int]]);
    if n < 10 {
        assert(d == n);
    }
}

/// Appends the text of a type.
fn write_type(t: &Type, out: &mut String)
    ensures
        final(out)@ == old(out)@ + type_text(*t),
    decreases t,
{
    match t {
        Type::U8 => {
            proof {
                reveal_strlit("u8");
                assert("u8"@ =~= seq!['u', '8']);
            }
            out.append("u8");
        },
        Type::U16 => {
            proof {
                reveal_strlit("u16");
                assert("u16"@ =~= seq!['u', '1', '6']);
            }
            out.append("u16");
        },
        Type::U32 => {
            proof {
                reveal_strlit("u32");
                assert("u32"@ =~= seq!['u', '3', '2']);
            }
            out.append("u32");
        },
        Type::U64 => {
            proof {
                reveal_strlit("u64");
                assert("u64"@ =~= seq!['u', '6', '4']);
            }
            out.append("u64");
        },
        Type::I8 => {
            proof {
                reveal_strlit("i8");
                assert("i8"@ =~= seq!['i', '8']);
            }
            out.append("i8");
        },
        Type::I16 => {
            proof {
                reveal_strlit("i16");
                assert("i16"@ =~= seq!['i', '1', '6']);
            }
            out.append("i16");
        },
        Type::I32 => {
            proof {
                reveal_strlit("i32");
                assert("i32"@ =~= seq!['i', '3', '2']);
            }
            out.append("i32");
        },
        Type::I64 => {
            proof {
                reveal_strlit("i64");
                assert("i64"@ =~= seq!['i', '6', '4']);
            }
            out.append("i64");
        },
        Type::F32 => {
            proof {
                reveal_strlit("f32");
                assert("f32"@ =~= seq!['f', '3', '2']);
            }
            out.append("f32");
        },
        Type::F64 => {
            proof {
                reveal_strlit("f64");
                assert("f64"@ =~= seq!['f', '6', '4']);
            }
            out.append("f64");
        },
        Type::Bool => {
            proof {
                reveal_strlit("bool");
                assert("bool"@ =~= seq!['b', 'o', 'o', 'l']);
            }
            out.append("bool");
        },
        Type::String => {
            proof {
                reveal_strlit("string");
                assert("string"@ =~= seq!['s', 't', 'r', 'i', 'n', 'g']);
            }
            out.append("string");
        },
        Type::Unit => {
            proof {
                reveal_strlit("()");
                assert("()"@ =~= seq!['(', ')']);
            }
            out.append("()");
        },
        Type::Custom(name) => {
            out.append(name.as_str());
        },
        Type::Dependent(d) => {
            let ghost start = out@;
            proof {
                reveal_strlit("forall ");
                assert("forall "@ =~= seq!['f', 'o', 'r', 'a', 'l', 'l', ' ']);
            }
            out.append("forall ");
            write_params(&d.fields, out);
            proof {
                reveal_strlit(". ");
                assert(". "@ =~= seq!['.', ' ']);
            }
            out.append(". ");
            out.append(d.name.as_str());
            assert(out@ =~= start + type_text(*t));
        },
        Type::Generic(g) => {
            let ghost start = out@;
            out.append(g.name.as_str());
            proof {
                reveal_strlit("<");
                assert("<"@ =~= seq!['<']);
            }
            out.append("<");
            let ghost mid = out@;
            let mut i: usize = 0;
            while i < g.fields.len()
                invariant
                    *t == Type::Generic(*g),
                    i <= g.fields@.len(),
                    out@ == mid + types_text(g.fields@, i as nat),
                decreases g.fields@.len() - i,
            {
                if i > 0 {
                    proof {
                        reveal_strlit(", ");
                        assert(", "@ =~= seq![',', ' ']);
                    }
                    out.append(", ");
                }
                assert(decreases_to!(*t => t->Generic_0));
                assert(decreases_to!(*g => g.fields));
                assert(decreases_to!(g.fields => g.fields[i as int]));
                write_type(&g.fields[i], out);
                i = i + 1;
            }
            proof {
                reveal_strlit(">");
                assert(">"@ =~= seq!['>']);
            }
            out.append(">");
            assert(out@ =~= start + type_text(*t));
        },
    }
}

/// Appends a parameter list.
fn write_params(params: &Vec<VariableDeclaration>, out: &mut String)
    ensures
        final(out)@ == old(out)@ + params_text(params@, params@.len()),
    decreases params,
{
    let ghost start = out@;
    let mut i: usize = 0;
    while i < params.len()
        invariant
            i <= params@.len(),
            out@ == start + params_text(params@, i as nat),
        decreases params@.len() - i,
    {
        if i > 0 {
            proof {
                reveal_strlit(", ");
                assert(", "@ =~= seq![',', ' ']);
            }
            out.append(", ");
        }
        let p = &params[i];
        let ghost before = out@;
        out.append(p.name.as_str());
        match &p.var_type {
            Some(t) => {
                proof {
                    reveal_strlit(": ");
                    assert(": "@ =~= seq![':', ' ']);
                }
                out.append(": ");
                assert(decreases_to!(params => params[i as int]));
                write_type(t, out);
            },
            None => {},
        }
        assert(out@ =~= before + param_text(params@[i as int]));
        i = i + 1;
    }
}

impl Type {
    /// The type's canonical text (`i32`, `f64`, `Name<T, U>`, ...).
    pub fn render(&self) -> (r: String)
        ensures
            r@ == type_text(*self),
    {
        let mut out = String::new();
        write_type(self, &mut out);
        assert(out@ =~= type_text(*self));
        out
    }
}

/// Calls the formatter once: the text is what `float_text_fn` says.
fn format_float<G: Fn(u64) -> String>(g: &G, b: u64) -> (r: String)
    requires
        float_formatter(*g),
    ensures
        r@ == float_text_fn(*g)(b),
{
    let x = g(b);
    assert(g.ensures((b,), x));
    let ghost y = choose|y: String| g.ensures((b,), y);
    assert(g.ensures((b,), y));
    x
}

fn write_atom<G: Fn(u64) -> String>(a: &Atom, g: &G, out: &mut String)
    requires
        float_formatter(*g),
    ensures
        final(out)@ == old(out)@ + atom_text(*a, float_text_fn(*g)),
    decreases a,
{
    let ghost start = out@;
    if a.negative {
        proof {
            reveal_strlit("-");
            assert("-"@ =~= seq!['-']);
        }
        out.append("-");
    }
    let ghost signed = out@;
    match &a.value {
        AtomValue::Integer(m) => write_decimal(*m, out),
        AtomValue::Float(b) => {
            let t = format_float(g, *b);
            out.append(t.as_str());
        },
        AtomValue::String(text) => out.append(text.as_str()),
        AtomValue::Boolean(b) => {
            if *b {
                proof {
                    reveal_strlit("true");
                    assert("true"@ =~= seq!['t', 'r', 'u', 'e']);
                }
                out.append("true");
            } else {
                proof {
                    reveal_strlit("false");
                    assert("false"@ =~= seq!['f', 'a', 'l', 's', 'e']);
                }
                out.append("false");
            }
        },
        AtomValue::Identity(name) => out.append(name.as_str()),
        AtomValue::ParExpr(e) => {
            proof {
                reveal_strlit("(");
                assert("("@ =~= seq!['(']);
            }
            out.append("(");
            assert(decreases_to!(*a => a.value));
            write_expr(e, g, out);
            proof {
                reveal_strlit(")");
                assert(")"@ =~= seq![')']);
            }
            out.append(")");
        },
    }
    let ghost valued = out@;
    if a.value.is_simple() {
        if let Some(t) = &a.ty {
            write_type(t, out);
        }
    }
    assert(out@ =~= start + atom_text(*a, float_text_fn(*g)));
}

fn write_expr<G: Fn(u64) -> String>(e: &Expression, g: &G, out: &mut String)
    requires
        float_formatter(*g),
    ensures
        final(out)@ == old(out)@ + expr_text(*e, float_text_fn(*g)),
    decreases e,
{
    let ghost start = out@;
    match e {
        Expression::BinaryOperation(l, op, r) => {
            write_expr(l, g, out);
            proof {
                reveal_strlit(" ");
                assert(" "@ =~= seq![' ']);
            }
            out.append(" ");
            out.append(op.text());
            proof {
                reveal_strlit(" ");
                assert(" "@ =~= seq![' ']);
            }
            out.append(" ");
            write_expr(r, g, out);
        },
        Expression::Atom(a) => write_atom(a, g, out),
    }
    assert(out@ =~= start + expr_text(*e, float_text_fn(*g)));
}

fn write_decl<G: Fn(u64) -> String>(v: &VariableDeclaration, g: &G, out: &mut String)
    requires
        float_formatter(*g),
    ensures
        final(out)@ == old(out)@ + decl_text(*v, float_text_fn(*g)),
{
    let ghost start = out@;
    proof {
        reveal_strlit("let ");
        assert("let "@ =~= seq!['l', 'e', 't', ' ']);
    }
    out.append("let ");
    out.append(v.name.as_str());
    if let Some(t) = &v.var_type {
        proof {
            reveal_strlit(": ");
            assert(": "@ =~= seq![':', ' ']);
        }
        out.append(": ");
        write_type(t, out);
    }
    if let Some(e) = &v.value {
        proof {
            reveal_strlit(" = ");
            assert(" = "@ =~= seq![' ', '=', ' ']);
        }
        out.append(" = ");
        write_expr(e, g, out);
    }
    assert(out@ =~= start + decl_text(*v, float_text_fn(*g)));
}

fn write_statement<G: Fn(u64) -> String>(s: &Statement, g: &G, out: &mut String)
    requires
        float_formatter(*g),
    ensures
        final(out)@ == old(out)@ + stmt_text(*s, float_text_fn(*g)),
    decreases s,
{
    let ghost start = out@;
    match s {
        Statement::Function(f) => {
            proof {
                reveal_strlit("fn ");
                assert("fn "@ =~= seq!['f', 'n', ' ']);
            }
            out.append("fn ");
            out.append(f.name.as_str());
            proof {
                reveal_strlit("(");
                assert("("@ =~= seq!['(']);
            }
            out.append("(");
            write_params(&f.inputs, out);
            proof {
                reveal_strlit(") -> ");
                assert(") -> "@ =~= seq![')', ' ', '-', '>', ' ']);
            }
            out.append(") -> ");
            write_type(&f.return_type, out);
            proof {
                reveal_strlit(" ");
                assert(" "@ =~= seq![' ']);
            }
            out.append(" ");
            write_block(&f.body.statements, g, out);
        },
        Statement::VariableDeclaration(v) => {
            write_decl(v, g, out);
            proof {
                reveal_strlit(";");
                assert(";"@ =~= seq![';']);
            }
            out.append(";");
        },
        Statement::Expression(e) => {
            write_expr(e, g, out);
            proof {
                reveal_strlit(";");
                assert(";"@ =~= seq![';']);
            }
            out.append(";");
        },
        Statement::Conditional(c) => {
            proof {
                reveal_strlit("if ");
                assert("if "@ =~= seq!['i', 'f', ' ']);
            }
            out.append("if ");
            write_expr(&c.condition, g, out);
            proof {
                reveal_strlit(" ");
                assert(" "@ =~= seq![' ']);
            }
            out.append(" ");
            write_block(&c.then_block.statements, g, out);
            if let Some(b) = &c.else_block {
                proof {
                    reveal_strlit(" else ");
                    assert(" else "@ =~= seq![' ', 'e', 'l', 's', 'e', ' ']);
                }
                out.append(" else ");
                write_block(&b.statements, g, out);
            }
        },
    }
    assert(out@ =~= start + stmt_text(*s, float_text_fn(*g)));
}

fn write_block<G: Fn(u64) -> String>(statements: &Vec<Statement>, g: &G, out: &mut String)
    requires
        float_formatter(*g),
    ensures
        final(out)@ == old(out)@ + block_text(statements@, float_text_fn(*g)),
    decreases statements,
{
    let ghost start = out@;
    proof {
        reveal_strlit("{\n");
        assert("{\n"@ =~= seq!['{', '\n']);
    }
    out.append("{\n");
    let ghost opened = out@;
    let mut i: usize = 0;
    while i < statements.len()
        invariant
            float_formatter(*g),
            i <= statements@.len(),
            out@ == opened + block_lines(statements@, i as nat, float_text_fn(*g)),
        decreases statements@.len() - i,
    {
        if i > 0 {
            proof {
                reveal_strlit("\n");
                assert("\n"@ =~= seq!['\n']);
            }
            out.append("\n");
        }
        proof {
            reveal_strlit("    ");
            assert("    "@ =~= seq![' ', ' ', ' ', ' ']);
        }
        out.append("    ");
        assert(decreases_to!(statements => statements[i as int]));
        write_statement(&statements[i], g, out);
        i = i + 1;
    }
    proof {
        reveal_strlit("\n}");
        assert("\n}"@ =~= seq!['\n', '}']);
    }
    out.append("\n}");
    assert(out@ =~= start + block_text(statements@, float_text_fn(*g)));
}

impl Atom {
    /// The atom's text (`-5i32`, `x`, `(a + b)`), decimal magnitudes
    /// formatted by `float_text`.
    pub fn render<G: Fn(u64) -> String>(&self, float_text: &G) -> (r: String)
        requires
            float_formatter(*float_text),
        ensures
            r@ == atom_text(*self, float_text_fn(*float_text)),
    {
        let mut out = String::new();
        write_atom(self, float_text, &mut out);
        assert(out@ =~= atom_text(*self, float_text_fn(*float_text)));
        out
    }
}

impl Expression {
    /// The expression's text, operators spaced.
    pub fn render<G: Fn(u64) -> String>(&self, float_text: &G) -> (r: String)
        requires
            float_formatter(*float_text),
        ensures
            r@ == expr_text(*self, float_text_fn(*float_text)),
    {
        let mut out = String::new();
        write_expr(self, float_text, &mut out);
        assert(out@ =~= expr_text(*self, float_text_fn(*float_text)));
        out
    }
}

impl VariableDeclaration {
    /// The declaration's text, without the closing `;`.
    pub fn render<G: Fn(u64) -> String>(&self, float_text: &G) -> (r: String)
        requires
            float_formatter(*float_text),
        ensures
            r@ == decl_text(*self, float_text_fn(*float_text)),
    {
        let mut out = String::new();
        write_decl(self, float_text, &mut out);
        assert(out@ =~= decl_text(*self, float_text_fn(*float_text)));
        out
    }
}

impl Statement {
    /// The statement's text.
    pub fn render<G: Fn(u64) -> String>(&self, float_text: &G) -> (r: String)
        requires
            float_formatter(*float_text),
        ensures
            r@ == stmt_text(*self, float_text_fn(*float_text)),
    {
        let mut out = String::new();
        write_statement(self, float_text, &mut out);
        assert(out@ =~= stmt_text(*self, float_text_fn(*float_text)));
        out
    }
}

impl FunctionDefinition {
    /// `fn <name>(<params>) -> <type> <body>`.
    pub fn render<G: Fn(u64) -> String>(&self, float_text: &G) -> (r: String)
        requires
            float_formatter(*float_text),
        ensures
            r@ == stmt_text(Statement::Function(*self), float_text_fn(*float_text)),
    {
        let mut out = String::new();
        proof {
            reveal_strlit("fn ");
            assert("fn "@ =~= seq!['f', 'n', ' ']);
        }
        out.append("fn ");
        out.append(self.name.as_str());
        proof {
            reveal_strlit("(");
            assert("("@ =~= seq!['(']);
        }
        out.append("(");
        write_params(&self.inputs, &mut out);
        proof {
            reveal_strlit(") -> ");
            assert(") -> "@ =~= seq![')', ' ', '-', '>', ' ']);
        }
        out.append(") -> ");
        write_type(&self.return_type, &mut out);
        proof {
            reveal_strlit(" ");
            assert(" "@ =~= seq![' ']);
        }
        out.append(" ");
        write_block(&self.body.statements, float_text, &mut out);
        assert(out@ =~= stmt_text(Statement::Function(*self), float_text_fn(*float_text)));
        out
    }
}

impl Conditional {
    /// `if <condition> <then>[ else <else>]`.
    pub fn render<G: Fn(u64) -> String>(&self, float_text: &G) -> (r: String)
        requires
            float_formatter(*float_text),
        ensures
            r@ == stmt_text(Statement::Conditional(*self), float_text_fn(*float_text)),
    {
        let mut out = String::new();
        proof {
            reveal_strlit("if ");
            assert("if "@ =~= seq!['i', 'f', ' ']);
        }
        out.append("if ");
        write_expr(&self.condition, float_text, &mut out);
        proof {
            reveal_strlit(" ");
            assert(" "@ =~= seq![' ']);
        }
        out.append(" ");
        write_block(&self.then_block.statements, float_text, &mut out);
        if let Some(b) = &self.else_block {
            proof {
                reveal_strlit(" else ");
                assert(" else "@ =~= seq![' ', 'e', 'l', 's', 'e', ' ']);
            }
            out.append(" else ");
            write_block(&b.statements, float_text, &mut out);
        }
        assert(out@ =~= stmt_text(Statement::Conditional(*self), float_text_fn(*float_text)));
        out
    }
}

impl Block {
    /// `{`, the statements indented one per line, `}`.
    pub fn render<G: Fn(u64) -> String>(&self, float_text: &G) -> (r: String)
        requires
            float_formatter(*float_text),
        ensures
            r@ == block_text(self.statements@, float_text_fn(*float_text)),
    {
        let mut out = String::new();
        write_block(&self.statements, float_text, &mut out);
        assert(out@ =~= block_text(self.statements@, float_text_fn(*float_text)));
        out
    }
}

impl Program {
    /// The program's text: its statements, one per line.
    pub fn render<G: Fn(u64) -> String>(&self, float_text: &G) -> (r: String)
        requires
            float_formatter(*float_text),
        ensures
            r@ == program_lines(self.statements@, self.statements@.len(), float_text_fn(*float_text)),
    {
        let mut out = String::new();
        let mut i: usize = 0;
        while i < self.statements.len()
            invariant
                float_formatter(*float_text),
                i <= self.statements@.len(),
                out@ == program_lines(self.statements@, i as nat, float_text_fn(*float_text)),
            decreases self.statements@.len() - i,
        {
            if i > 0 {
                proof {
                    reveal_strlit("\n");
                    assert("\n"@ =~= seq!['\n']);
                }
                out.append("\n");
            }
            write_statement(&self.statements[i], float_text, &mut out);
            i = i + 1;
        }
        out
    }
}

impl DType {
    /// `forall <params>. <name>`.
    pub fn render(&self) -> (r: String)
        ensures
            r@ == type_text(Type::Dependent(*self)),
    {
        let mut out = String::new();
        proof {
            reveal_strlit("forall ");
            assert("forall "@ =~= seq!['f', 'o', 'r', 'a', 'l', 'l', ' ']);
        }
        out.append("forall ");
        write_params(&self.fields, &mut out);
        proof {
            reveal_strlit(". ");
            assert(". "@ =~= seq!['.', ' ']);
        }
        out.append(". ");
        out.append(self.name.as_str());
        assert(out@ =~= type_text(Type::Dependent(*self)));
        out
    }
}

impl GType {
    /// `<name><<args>>`.
    pub fn render(&self) -> (r: String)
        ensures
            r@ == type_text(Type::Generic(*self)),
    {
        let mut out = String::new();
        out.append(self.name.as_str());
        proof {
            reveal_strlit("<");
            assert("<"@ =~= seq!['<']);
        }
        out.append("<");
        let ghost mid = out@;
        let mut i: usize = 0;
        while i < self.fields.len()
            invariant
                i <= self.fields@.len(),
                out@ == mid + types_text(self.fields@, i as nat),
            decreases self.fields@.len() - i,
        {
            if i > 0 {
                proof {
                    reveal_strlit(", ");
                    assert(", "@ =~= seq![',', ' ']);
                }
                out.append(", ");
            }
            write_type(&self.fields[i], &mut out);
            i = i + 1;
        }
        proof {
            reveal_strlit(">");
            assert(">"@ =~= seq!['>']);
        }
        out.append(">");
        assert(out@ =~= type_text(Type::Generic(*self)));
        out
    }
}

} // verus!
