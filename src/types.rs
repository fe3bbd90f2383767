use vstd::prelude::*;
use crate::ast::VariableDeclaration;

verus! {

/// The types of the language: eight fixed-width integers, two floats, a few
/// scalars, and inert nominal / dependent / generic placeholders.
#[derive(PartialEq, Debug)]
pub enum Type {
    U8,
    U16,
    U32,
    U64,
    I8,
    I16,
    I32,
    I64,
    F32,
    F64,
    Bool,
    String,
    Unit,
    Custom(String),
    Dependent(DType),
    Generic(GType),
}

/// A refinement-type placeholder: `forall <params>. <name>`.
#[derive(PartialEq, Debug)]
pub struct DType {
    pub name: String,
    pub fields: Vec<VariableDeclaration>,
}

/// A parametric-type placeholder: `<name><<args>>`.
#[derive(PartialEq, Debug)]
pub struct GType {
    pub name: String,
    pub fields: Vec<Type>,
}

/// The primitive type a name denotes, if any.
pub open spec fn primitive_type(s: Seq<char>) -> Option<Type> {
    if s == seq!['u', '8'] {
        Some(Type::U8)
    } else if s == seq!['u', '1', '6'] {
        Some(Type::U16)
    } else if s == seq!['u', '3', '2'] {
        Some(Type::U32)
    } else if s == seq!['u', '6', '4'] {
        Some(Type::U64)
    } else if s == seq!['i', '8'] {
        Some(Type::I8)
    } else if s == seq!['i', '1', '6'] {
        Some(Type::I16)
    } else if s == seq!['i', '3', '2'] {
        Some(Type::I32)
    } else if s == seq!['i', '6', '4'] {
        Some(Type::I64)
    } else if s == seq!['f', '3', '2'] {
        Some(Type::F32)
    } else if s == seq!['f', '6', '4'] {
        Some(Type::F64)
    } else if s == seq!['b', 'o', 'o', 'l'] {
        Some(Type::Bool)
    } else if s == seq!['s', 't', 'r', 'i', 'n', 'g'] {
        Some(Type::String)
    } else if s == seq!['(', ')'] {
        Some(Type::Unit)
    } else {
        None
    }
}

impl Type {
    /// Resolves a primitive type name (`u8` ... `f64`, `bool`, `string`,
    /// `()`); any other name is `None`.
    pub fn from_str(s: &str) -> (r: Option<Type>)
        ensures
            r == primitive_type(s@),
    {
        proof {
            reveal_strlit("u8");
            assert("u8"@ =~= seq!['u', '8']);
            reveal_strlit("u16");
            assert("u16"@ =~= seq!['u', '1', '6']);
            reveal_strlit("u32");
            assert("u32"@ =~= seq!['u', '3', '2']);
            reveal_strlit("u64");
            assert("u64"@ =~= seq!['u', '6', '4']);
            reveal_strlit("i8");
            assert("i8"@ =~= seq!['i', '8']);
            reveal_strlit("i16");
            assert("i16"@ =~= seq!['i', '1', '6']);
            reveal_strlit("i32");
            assert("i32"@ =~= seq!['i', '3', '2']);
            reveal_strlit("i64");
            assert("i64"@ =~= seq!['i', '6', '4']);
            reveal_strlit("f32");
            assert("f32"@ =~= seq!['f', '3', '2']);
            reveal_strlit("f64");
            assert("f64"@ =~= seq!['f', '6', '4']);
            reveal_strlit("bool");
            assert("bool"@ =~= seq!['b', 'o', 'o', 'l']);
            reveal_strlit("string");
            assert("string"@ =~= seq!['s', 't', 'r', 'i', 'n', 'g']);
            reveal_strlit("()");
            assert("()"@ =~= seq!['(', ')']);
        }
        if crate::text::same_text(s, "u8") {
            Some(Type::U8)
        } else if crate::text::same_text(s, "u16") {
            Some(Type::U16)
        } else if crate::text::same_text(s, "u32") {
            Some(Type::U32)
        } else if crate::text::same_text(s, "u64") {
            Some(Type::U64)
        } else if crate::text::same_text(s, "i8") {
            Some(Type::I8)
        } else if crate::text::same_text(s, "i16") {
            Some(Type::I16)
        } else if crate::text::same_text(s, "i32") {
            Some(Type::I32)
        } else if crate::text::same_text(s, "i64") {
            Some(Type::I64)
        } else if crate::text::same_text(s, "f32") {
            Some(Type::F32)
        } else if crate::text::same_text(s, "f64") {
            Some(Type::F64)
        } else if crate::text::same_text(s, "bool") {
            Some(Type::Bool)
        } else if crate::text::same_text(s, "string") {
            Some(Type::String)
        } else if crate::text::same_text(s, "()") {
            Some(Type::Unit)
        } else {
            None
        }
    }

    pub open spec fn spec_is_integral(&self) -> bool {
        self is U8 || self is U16 || self is U32 || self is U64 || self is I8 || self is I16
            || self is I32 || self is I64
    }

    pub open spec fn spec_is_decimal(&self) -> bool {
        self is F32 || self is F64
    }

    pub open spec fn spec_is_signed(&self) -> bool {
        self is I8 || self is I16 || self is I32 || self is I64
    }

    /// Position of an integer type along its width ranking (8 < 16 < 32 < 64).
    pub open spec fn width_rank(&self) -> int {
        match self {
            Type::U8 | Type::I8 => 0,
            Type::U16 | Type::I16 => 1,
            Type::U32 | Type::I32 => 2,
            _ => 3,
        }
    }

    /// The unified type of two operands of a numeric operation, if any.
    /// Integers join only with the same signedness, to the wider type;
    /// decimals join to the right-hand operand's type.
    pub open spec fn spec_join(&self, other: Type) -> Option<Type> {
        if self.spec_is_integral() && other.spec_is_integral() {
            if self.spec_is_signed() != other.spec_is_signed() {
                None
            } else if self.width_rank() > other.width_rank() {
                Some(*self)
            } else {
                Some(other)
            }
        } else if self.spec_is_decimal() && other.spec_is_decimal() {
            Some(other)
        } else {
            None
        }
    }

    /// Types without nested lists: a copy of one is exactly equal to it.
    pub open spec fn spec_is_flat(&self) -> bool {
        !(self is Dependent) && !(self is Generic)
    }

    #[verifier::when_used_as_spec(spec_is_flat)]
    pub fn is_flat(&self) -> (r: bool)
        ensures
            r == self.spec_is_flat(),
    {
        !matches!(self, Type::Dependent(_) | Type::Generic(_))
    }

    #[verifier::when_used_as_spec(spec_is_integral)]
    pub fn is_integral(&self) -> (r: bool)
        ensures
            r == self.spec_is_integral(),
    {
        matches!(
            self,
            Type::U8 | Type::U16 | Type::U32 | Type::U64 | Type::I8 | Type::I16 | Type::I32
                | Type::I64
        )
    }

    #[verifier::when_used_as_spec(spec_is_decimal)]
    pub fn is_decimal(&self) -> (r: bool)
        ensures
            r == self.spec_is_decimal(),
    {
        matches!(self, Type::F32 | Type::F64)
    }

    #[verifier::when_used_as_spec(spec_is_signed)]
    pub fn is_signed(&self) -> (r: bool)
        ensures
            r == self.spec_is_signed(),
    {
        matches!(self, Type::I8 | Type::I16 | Type::I32 | Type::I64)
    }

    /// The integer type of the given signedness and width rank.
    fn integral_of(signed: bool, rank: u8) -> (r: Type)
        requires
            rank <= 3,
        ensures
            r.spec_is_integral(),
            r.spec_is_signed() == signed,
            r.width_rank() == rank,
    {
        match (signed, rank) {
            (false, 0) => Type::U8,
            (false, 1) => Type::U16,
            (false, 2) => Type::U32,
            (false, _) => Type::U64,
            (true, 0) => Type::I8,
            (true, 1) => Type::I16,
            (true, 2) => Type::I32,
            (true, _) => Type::I64,
        }
    }

    fn rank_of(&self) -> (r: u8)
        ensures
            r == self.width_rank(),
    {
        match self {
            Type::U8 | Type::I8 => 0,
            Type::U16 | Type::I16 => 1,
            Type::U32 | Type::I32 => 2,
            _ => 3,
        }
    }

    fn join_integral(&self, other: &Type) -> (r: Option<Type>)
        requires
            self.spec_is_integral(),
            other.spec_is_integral(),
        ensures
            r == self.spec_join(*other),
    {
        if self.is_signed() != other.is_signed() {
            return None;
        }
        let (a, b) = (self.rank_of(), other.rank_of());
        let r = Type::integral_of(self.is_signed(), if a > b { a } else { b });
        proof {
            let want = if a > b { *self } else { *other };
            assert(r == want) by {
                assert(want.spec_is_integral() && want.spec_is_signed() == self.spec_is_signed());
                assert(want.width_rank() == r.width_rank());
            }
        }
        Some(r)
    }

    fn join_decimal(&self, other: &Type) -> (r: Option<Type>)
        requires
            self.spec_is_decimal(),
            other.spec_is_decimal(),
        ensures
            r == self.spec_join(*other),
    {
        match other {
            Type::F32 => Some(Type::F32),
            _ => Some(Type::F64),
        }
    }

    /// Joins two types for a numeric operation (`None` when they do not unify).
    pub fn join(&self, other: &Type) -> (r: Option<Type>)
        ensures
            r == self.spec_join(*other),
    {
        if self.is_integral() && other.is_integral() {
            self.join_integral(other)
        } else if self.is_decimal() && other.is_decimal() {
            self.join_decimal(other)
        } else {
            None
        }
    }
}

} // verus!
