use vstd::prelude::*;
use crate::span::Span;

verus! {

/// The type names that may stand in a declaration.
#[derive(Debug, Clone, Copy, PartialEq, Eq, Structural)]
pub enum TypeAnnotation {
    StringType,
    IntegerType,
    FloatType,
    BooleanType,
}

pub open spec fn spec_annotation(name: Seq<char>) -> Option<TypeAnnotation> {
    if name == "int"@ {
        Some(TypeAnnotation::IntegerType)
    } else if name == "float"@ {
        Some(TypeAnnotation::FloatType)
    } else if name == "bool"@ {
        Some(TypeAnnotation::BooleanType)
    } else if name == "string"@ {
        Some(TypeAnnotation::StringType)
    } else {
        None
    }
}

/// Whether two strings hold the same characters.
pub fn same_text(a: &str, b: &str) -> (r: bool)
    ensures
        r == (a@ == b@),
{
    let n = a.unicode_len();
    if n != b.unicode_len() {
        return false;
    }
    let mut i: usize = 0;
    while i < n
        invariant
            n == a@.len() == b@.len(),
            i <= n,
            forall|j: int| 0 <= j < i ==> a@[j] == b@[j],
        decreases n - i,
    {
        if a.get_char(i) != b.get_char(i) {
            return false;
        }
        i = i + 1;
    }
    assert(a@ =~= b@);
    true
}

impl TypeAnnotation {
    /// The annotation that a type name stands for.
    pub fn from_identifier(name: &str) -> (r: Option<TypeAnnotation>)
        ensures
            r == spec_annotation(name@),
    {
        if same_text(name, "int") {
            Some(TypeAnnotation::IntegerType)
        } else if same_text(name, "float") {
            Some(TypeAnnotation::FloatType)
        } else if same_text(name, "bool") {
            Some(TypeAnnotation::BooleanType)
        } else if same_text(name, "string") {
            Some(TypeAnnotation::StringType)
        } else {
            None
        }
    }
}

/// The binary operators of the source language.
#[derive(Debug, Clone, Copy, PartialEq, Eq, Structural)]
pub enum BinaryOperator {
    Plus,
    Minus,
    Asterisk,
    Slash,
    Caret,
    LessThan,
    LessThanEqual,
    GreaterThan,
    GreaterThanEqual,
    Equal,
    NotEqual,
}

/// An expression node. A float literal holds its IEEE-754 binary32 bits.
pub enum Expr {
    IntegerLiteral(i32),
    FloatLiteral(u32),
    BooleanLiteral(bool),
    StringLiteral(String),
    BinaryOperation { left: Box<Expression>, operator: BinaryOperator, right: Box<Expression> },
}

/// An expression with the source span it covers.
pub struct Expression {
    pub node: Expr,
    pub span: Span,
}

} // verus!
