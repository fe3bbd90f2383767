use vstd::prelude::*;
use crate::ast::{Atom, AtomValue, Expression, VariableDeclaration};
use crate::types::{DType, GType, Type};

verus! {

broadcast use vstd::std_specs::vec::group_vec_axioms, vstd::seq::group_seq_axioms;

/// `b` is a copy of type `a`: equal, except that the lists inside generic
/// and dependent types are copies element by element.
pub open spec fn type_eqv(a: Type, b: Type) -> bool
    decreases a, 0nat,
{
    match a {
        Type::Generic(g) => {
            &&& b is Generic
            &&& b->Generic_0.name == g.name
            &&& b->Generic_0.fields@.len() == g.fields@.len()
            &&& types_eqv(g.fields@, b->Generic_0.fields@, g.fields@.len())
        },
        Type::Dependent(d) => {
            &&& b is Dependent
            &&& b->Dependent_0.name == d.name
            &&& b->Dependent_0.fields@.len() == d.fields@.len()
            &&& decls_eqv(d.fields@, b->Dependent_0.fields@, d.fields@.len())
        },
        _ => b == a,
    }
}

/// The first `n` types of `t` are copies of those of `s`.
pub open spec fn types_eqv(s: Seq<Type>, t: Seq<Type>, n: nat) -> bool
    decreases s, n,
{
    if n == 0 {
        true
    } else if n > s.len() || n > t.len() {
        false
    } else {
        types_eqv(s, t, (n - 1) as nat) && type_eqv(s[n - 1], t[n - 1])
    }
}

/// The first `n` declarations of `t` are copies of those of `s`.
pub open spec fn decls_eqv(s: Seq<VariableDeclaration>, t: Seq<VariableDeclaration>, n: nat) -> bool
    decreases s, n,
{
    if n == 0 {
        true
    } else if n > s.len() || n > t.len() {
        false
    } else {
        decls_eqv(s, t, (n - 1) as nat) && decl_eqv(s[n - 1], t[n - 1])
    }
}

/// `b` is a copy of declaration `a`.
pub open spec fn decl_eqv(a: VariableDeclaration, b: VariableDeclaration) -> bool
    decreases a, 0nat,
{
    &&& b.name == a.name
    &&& opt_type_eqv(a.var_type, b.var_type)
    &&& match a.value {
        None => b.value is None,
        Some(e) => b.value is Some && expr_eqv(e, b.value->0),
    }
}

/// `b` is a copy of the optional type `a`.
pub open spec fn opt_type_eqv(a: Option<Type>, b: Option<Type>) -> bool
    decreases a, 0nat,
{
    match a {
        None => b is None,
        Some(t) => b is Some && type_eqv(t, b->0),
    }
}

/// `b` is a copy of expression `a`.
pub open spec fn expr_eqv(a: Expression, b: Expression) -> bool
    decreases a, 0nat,
{
    match a {
        Expression::BinaryOperation(l, op, r) => {
            &&& b is BinaryOperation
            &&& b->BinaryOperation_1 == op
            &&& expr_eqv(*l, *b->BinaryOperation_0)
            &&& expr_eqv(*r, *b->BinaryOperation_2)
        },
        Expression::Atom(x) => b is Atom && atom_eqv(x, b->Atom_0),
    }
}

/// `y` is a copy of atom `x`.
pub open spec fn atom_eqv(x: Atom, y: Atom) -> bool
    decreases x, 0nat,
{
    &&& y.negative == x.negative
    &&& opt_type_eqv(x.ty, y.ty)
    &&& match x.value {
        AtomValue::ParExpr(e) => y.value is ParExpr && expr_eqv(*e, *y.value->ParExpr_0),
        _ => y.value == x.value,
    }
}

proof fn lemma_types_eqv_pointwise(s: Seq<Type>, t: Seq<Type>, n: nat)
    requires
        n <= s.len(),
        n <= t.len(),
        forall|k: int| 0 <= k < n ==> #[trigger] type_eqv(s[k], t[k]),
    ensures
        types_eqv(s, t, n),
    decreases n,
{
    if n > 0 {
        lemma_types_eqv_pointwise(s, t, (n - 1) as nat);
        assert(type_eqv(s[n - 1], t[n - 1]));
    }
}

proof fn lemma_decls_eqv_pointwise(s: Seq<VariableDeclaration>, t: Seq<VariableDeclaration>, n: nat)
    requires
        n <= s.len(),
        n <= t.len(),
        forall|k: int| 0 <= k < n ==> #[trigger] decl_eqv(s[k], t[k]),
    ensures
        decls_eqv(s, t, n),
    decreases n,
{
    if n > 0 {
        lemma_decls_eqv_pointwise(s, t, (n - 1) as nat);
        assert(decl_eqv(s[n - 1], t[n - 1]));
    }
}

impl Type {
    /// A deep copy of the type; exactly equal for a type without nested
    /// lists.
    pub fn duplicate(&self) -> (r: Type)
        ensures
            type_eqv(*self, r),
            self.spec_is_flat() ==> r == *self,
        decreases self,
    {
        match self {
            Type::U8 => Type::U8,
            Type::U16 => Type::U16,
            Type::U32 => Type::U32,
            Type::U64 => Type::U64,
            Type::I8 => Type::I8,
            Type::I16 => Type::I16,
            Type::I32 => Type::I32,
            Type::I64 => Type::I64,
            Type::F32 => Type::F32,
            Type::F64 => Type::F64,
            Type::Bool => Type::Bool,
            Type::String => Type::String,
            Type::Unit => Type::Unit,
            Type::Custom(name) => Type::Custom(name.clone()),
            Type::Generic(g) => {
                let mut fields: Vec<Type> = Vec::new();
                let mut i: usize = 0;
                while i < g.fields.len()
                    invariant
                        *self == Type::Generic(*g),
                        i <= g.fields@.len(),
                        fields@.len() == i,
                        forall|k: int| 0 <= k < i ==> #[trigger] type_eqv(g.fields@[k], fields@[k]),
                    decreases g.fields@.len() - i,
                {
                    assert(decreases_to!(*self => self->Generic_0));
                    assert(decreases_to!(*g => g.fields));
                    assert(decreases_to!(g.fields => g.fields[i as int]));
                    let t = g.fields[i].duplicate();
                    fields.push(t);
                    i = i + 1;
                }
                proof {
                    lemma_types_eqv_pointwise(g.fields@, fields@, g.fields@.len());
                }
                Type::Generic(GType { name: g.name.clone(), fields })
            },
            Type::Dependent(d) => {
                let mut fields: Vec<VariableDeclaration> = Vec::new();
                let mut i: usize = 0;
                while i < d.fields.len()
                    invariant
                        *self == Type::Dependent(*d),
                        i <= d.fields@.len(),
                        fields@.len() == i,
                        forall|k: int| 0 <= k < i ==> #[trigger] decl_eqv(d.fields@[k], fields@[k]),
                    decreases d.fields@.len() - i,
                {
                    assert(decreases_to!(*self => self->Dependent_0));
                    assert(decreases_to!(*d => d.fields));
                    assert(decreases_to!(d.fields => d.fields[i as int]));
                    let v = copy_declaration(&d.fields[i]);
                    fields.push(v);
                    i = i + 1;
                }
                proof {
                    lemma_decls_eqv_pointwise(d.fields@, fields@, d.fields@.len());
                }
                Type::Dependent(DType { name: d.name.clone(), fields })
            },
        }
    }
}

/// A deep copy of a declaration.
pub fn copy_declaration(v: &VariableDeclaration) -> (r: VariableDeclaration)
    ensures
        decl_eqv(*v, r),
    decreases v,
{
    let var_type = copy_type(&v.var_type);
    let value = match &v.value {
        None => None,
        Some(e) => Some(e.duplicate()),
    };
    VariableDeclaration { name: v.name.clone(), var_type, value }
}

/// A deep copy of an optional type; exactly equal when the type holds no
/// nested list.
pub fn copy_type(t: &Option<Type>) -> (r: Option<Type>)
    ensures
        opt_type_eqv(*t, r),
        (t matches Some(ty) ==> ty.spec_is_flat()) ==> r == *t,
    decreases t,
{
    match t {
        None => None,
        Some(ty) => Some(ty.duplicate()),
    }
}

impl Expression {
    /// A deep copy of the expression.
    pub fn duplicate(&self) -> (r: Expression)
        ensures
            expr_eqv(*self, r),
        decreases self,
    {
        match self {
            Expression::BinaryOperation(l, op, r) => Expression::BinaryOperation(
                Box::new(l.duplicate()),
                *op,
                Box::new(r.duplicate()),
            ),
            Expression::Atom(a) => Expression::Atom(a.duplicate()),
        }
    }
}

impl Atom {
    /// A deep copy of the atom.
    pub fn duplicate(&self) -> (r: Atom)
        ensures
            atom_eqv(*self, r),
        decreases self,
    {
        let value = match &self.value {
            AtomValue::Integer(m) => AtomValue::Integer(*m),
            AtomValue::Float(b) => AtomValue::Float(*b),
            AtomValue::String(s) => AtomValue::String(s.clone()),
            AtomValue::Boolean(b) => AtomValue::Boolean(*b),
            AtomValue::Identity(s) => AtomValue::Identity(s.clone()),
            AtomValue::ParExpr(e) => AtomValue::ParExpr(Box::new(e.duplicate())),
        };
        Atom { negative: self.negative, value, ty: copy_type(&self.ty) }
    }
}

} // verus!
