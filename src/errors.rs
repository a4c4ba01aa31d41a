use vstd::prelude::*;
use crate::ast::BinaryOperator;
use crate::runtime_value::Type;
use crate::span::Span;

verus! {

/// The binary arithmetic operations of the machine.
#[derive(Debug, Clone, Copy, PartialEq, Eq, Structural)]
pub enum ArithOp {
    Addition,
    Subtraction,
    Multiplication,
    Division,
    Exponentiation,
}

impl ArithOp {
    pub open spec fn spec_name(self) -> Seq<char> {
        match self {
            ArithOp::Addition => "addition"@,
            ArithOp::Subtraction => "subtraction"@,
            ArithOp::Multiplication => "multiplication"@,
            ArithOp::Division => "division"@,
            ArithOp::Exponentiation => "exponentiation"@,
        }
    }

    pub fn name(&self) -> (r: &'static str)
        ensures
            r@ == self.spec_name(),
    {
        match self {
            ArithOp::Addition => "addition",
            ArithOp::Subtraction => "subtraction",
            ArithOp::Multiplication => "multiplication",
            ArithOp::Division => "division",
            ArithOp::Exponentiation => "exponentiation",
        }
    }
}

/// The relational operations of the machine.
#[derive(Debug, Clone, Copy, PartialEq, Eq, Structural)]
pub enum CompareOp {
    Less,
    LessEqual,
    Greater,
    GreaterEqual,
    Equal,
    NotEqual,
}

impl CompareOp {
    pub open spec fn spec_symbol(self) -> Seq<char> {
        match self {
            CompareOp::Less => "<"@,
            CompareOp::LessEqual => "<="@,
            CompareOp::Greater => ">"@,
            CompareOp::GreaterEqual => ">="@,
            CompareOp::Equal => "=="@,
            CompareOp::NotEqual => "!="@,
        }
    }

    pub fn symbol(&self) -> (r: &'static str)
        ensures
            r@ == self.spec_symbol(),
    {
        match self {
            CompareOp::Less => "<",
            CompareOp::LessEqual => "<=",
            CompareOp::Greater => ">",
            CompareOp::GreaterEqual => ">=",
            CompareOp::Equal => "==",
            CompareOp::NotEqual => "!=",
        }
    }
}

/// The unary operations that can fail on their operand's type.
#[derive(Debug, Clone, Copy, PartialEq, Eq, Structural)]
pub enum UnaryOp {
    Negation,
}

impl UnaryOp {
    pub fn name(&self) -> (r: &'static str)
        ensures
            r@ == "negation"@,
    {
        "negation"
    }
}

/// Static and runtime faults, each attributed to a source span.
#[derive(Debug, Clone, Copy, PartialEq, Eq, Structural)]
pub enum HydorError {
    StackOverflow { stack_length: usize, span: Span },
    StackUnderflow { stack_length: usize, span: Span },
    ArithmeticError { operation: ArithOp, left_type: Type, right_type: Type, span: Span },
    UnaryOperationError { operation: UnaryOp, operand_type: Type, span: Span },
    ComparisonOperationError { operation: CompareOp, blame_type: Type, span: Span },
    InvalidBinaryOp { operator: BinaryOperator, left_type: Type, right_type: Type, span: Span },
    /// The bytecode is not well formed at this byte offset: an unknown opcode,
    /// missing operand bytes, an index out of range, or no terminating `Halt`.
    MalformedBytecode { offset: usize },
}

} // verus!
