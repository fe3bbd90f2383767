use vstd::prelude::*;
use crate::ast::Atom;
use crate::types::Type;

verus! {

/// Binary and unary operators of the language.
#[derive(PartialEq, Eq, Structural, Debug, Clone, Copy)]
pub enum Operator {
    Add,
    Subtract,
    Multiply,
    Divide,
    Modulo,
    Pow,
    LogicalAnd,
    LogicalOr,
    Equal,
    NotEqual,
    LessThan,
    LessThanOrEqual,
    GreaterThan,
    GreaterThanOrEqual,
    And,
    Or,
    Not,
    Neg,
}

impl Operator {
    pub open spec fn spec_is_comparison(&self) -> bool {
        self is Equal || self is NotEqual || self is LessThan || self is LessThanOrEqual
            || self is GreaterThan || self is GreaterThanOrEqual
    }

    pub open spec fn spec_is_logical(&self) -> bool {
        self is And || self is Or || self is LogicalAnd || self is LogicalOr
    }

    /// The five operators that constant folding evaluates.
    pub open spec fn spec_is_foldable(&self) -> bool {
        self is Add || self is Subtract || self is Multiply || self is Divide || self is Modulo
    }

    /// Binding strength: or-like lowest (1), then and-like, comparisons,
    /// additive, multiplicative, and unary highest (6).
    pub open spec fn spec_precedence(&self) -> u8 {
        match self {
            Operator::Or | Operator::LogicalOr => 1,
            Operator::And | Operator::LogicalAnd => 2,
            Operator::Equal | Operator::NotEqual | Operator::LessThan | Operator::LessThanOrEqual
            | Operator::GreaterThan | Operator::GreaterThanOrEqual => 3,
            Operator::Add | Operator::Subtract => 4,
            Operator::Multiply | Operator::Divide | Operator::Modulo | Operator::Pow => 5,
            Operator::Not | Operator::Neg => 6,
        }
    }

    /// The type of `lhs <op> rhs` given the operand types.
    pub open spec fn result_type(self, lhs: Option<Type>, rhs: Option<Type>) -> Option<Type> {
        if self.spec_is_comparison() || self.spec_is_logical() {
            Some(Type::Bool)
        } else if self is Not || self is Neg {
            None
        } else {
            match (lhs, rhs) {
                (Some(l), Some(r)) => l.spec_join(r),
                _ => None,
            }
        }
    }

    #[verifier::when_used_as_spec(spec_is_comparison)]
    pub fn is_comparison(&self) -> (r: bool)
        ensures
            r == self.spec_is_comparison(),
    {
        matches!(
            self,
            Operator::Equal | Operator::NotEqual | Operator::LessThan | Operator::LessThanOrEqual
                | Operator::GreaterThan | Operator::GreaterThanOrEqual
        )
    }

    #[verifier::when_used_as_spec(spec_is_foldable)]
    pub fn is_foldable(&self) -> (r: bool)
        ensures
            r == self.spec_is_foldable(),
    {
        matches!(
            self,
            Operator::Add | Operator::Subtract | Operator::Multiply | Operator::Divide
                | Operator::Modulo
        )
    }

    #[verifier::when_used_as_spec(spec_precedence)]
    pub fn precedence(&self) -> (r: u8)
        ensures
            r == self.spec_precedence(),
    {
        match self {
            Operator::Or | Operator::LogicalOr => 1,
            Operator::And | Operator::LogicalAnd => 2,
            Operator::Equal | Operator::NotEqual | Operator::LessThan | Operator::LessThanOrEqual
            | Operator::GreaterThan | Operator::GreaterThanOrEqual => 3,
            Operator::Add | Operator::Subtract => 4,
            Operator::Multiply | Operator::Divide | Operator::Modulo | Operator::Pow => 5,
            Operator::Not | Operator::Neg => 6,
        }
    }

    /// Only `Pow` groups to the right.
    pub fn is_right_associative(&self) -> (r: bool)
        ensures
            r == (*self is Pow),
    {
        matches!(self, Operator::Pow)
    }

    /// The type of a binary operation given its operand types.
    pub fn type_of_operands(&self, lhs: &Option<Type>, rhs: &Option<Type>) -> (r: Option<Type>)
        ensures
            r == self.result_type(*lhs, *rhs),
    {
        match self {
            Operator::Equal | Operator::NotEqual | Operator::LessThan | Operator::LessThanOrEqual
            | Operator::GreaterThan | Operator::GreaterThanOrEqual | Operator::And | Operator::Or
            | Operator::LogicalAnd | Operator::LogicalOr => Some(Type::Bool),
            Operator::Not | Operator::Neg => None,
            _ => match (lhs, rhs) {
                (Some(l), Some(r)) => l.join(r),
                _ => None,
            },
        }
    }

    /// The type of `ctx_lhs <op> ctx_rhs` for two atom operands.
    pub fn return_type(&self, ctx_rhs: &Atom, ctx_lhs: &Atom) -> (r: Option<Type>)
        ensures
            r == self.result_type(ctx_lhs.ty, ctx_rhs.ty),
    {
        self.type_of_operands(&ctx_lhs.ty, &ctx_rhs.ty)
    }

    /// The operator's source text.
    pub fn text(&self) -> (r: &'static str)
        ensures
            r@ == operator_text(*self),
    {
        match self {
            Operator::Add => {
                proof {
                    reveal_strlit("+");
                }
                "+"
            },
            Operator::Subtract => {
                proof {
                    reveal_strlit("-");
                }
                "-"
            },
            Operator::Multiply => {
                proof {
                    reveal_strlit("*");
                }
                "*"
            },
            Operator::Divide => {
                proof {
                    reveal_strlit("/");
                }
                "/"
            },
            Operator::Modulo => {
                proof {
                    reveal_strlit("%");
                }
                "%"
            },
            Operator::Equal => {
                proof {
                    reveal_strlit("==");
                }
                "=="
            },
            Operator::NotEqual => {
                proof {
                    reveal_strlit("!=");
                }
                "!="
            },
            Operator::LessThan => {
                proof {
                    reveal_strlit("<");
                }
                "<"
            },
            Operator::LessThanOrEqual => {
                proof {
                    reveal_strlit("<=");
                }
                "<="
            },
            Operator::GreaterThan => {
                proof {
                    reveal_strlit(">");
                }
                ">"
            },
            Operator::GreaterThanOrEqual => {
                proof {
                    reveal_strlit(">=");
                }
                ">="
            },
            Operator::And => {
                proof {
                    reveal_strlit("&");
                }
                "&"
            },
            Operator::Or => {
                proof {
                    reveal_strlit("|");
                }
                "|"
            },
            Operator::LogicalAnd => {
                proof {
                    reveal_strlit("&&");
                }
                "&&"
            },
            Operator::LogicalOr => {
                proof {
                    reveal_strlit("||");
                }
                "||"
            },
            Operator::Not => {
                proof {
                    reveal_strlit("!");
                }
                "!"
            },
            Operator::Neg => {
                proof {
                    reveal_strlit("-");
                }
                "-"
            },
            Operator::Pow => {
                proof {
                    reveal_strlit("^");
                }
                "^"
            },
        }
    }
}

pub open spec fn operator_text(op: Operator) -> Seq<char> {
    match op {
        Operator::Add => seq!['+'],
        Operator::Subtract => seq!['-'],
        Operator::Multiply => seq!['*'],
        Operator::Divide => seq!['/'],
        Operator::Modulo => seq!['%'],
        Operator::Equal => seq!['=', '='],
        Operator::NotEqual => seq!['!', '='],
        Operator::LessThan => seq!['<'],
        Operator::LessThanOrEqual => seq!['<', '='],
        Operator::GreaterThan => seq!['>'],
        Operator::GreaterThanOrEqual => seq!['>', '='],
        Operator::And => seq!['&'],
        Operator::Or => seq!['|'],
        Operator::LogicalAnd => seq!['&', '&'],
        Operator::LogicalOr => seq!['|', '|'],
        Operator::Not => seq!['!'],
        Operator::Neg => seq!['-'],
        Operator::Pow => seq!['^'],
    }
}

} // verus!
