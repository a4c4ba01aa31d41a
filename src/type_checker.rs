use vstd::prelude::*;
use crate::ast::{BinaryOperator, Expr, Expression};
use crate::errors::HydorError;
use crate::runtime_value::Type;
use crate::span::Span;

verus! {

pub open spec fn is_numeric(t: Type) -> bool {
    t == Type::Integer || t == Type::Float
}

/// The static type of a binary operation on operands of types `l` and `r`,
/// or `None` where the operator does not apply to them.
pub open spec fn spec_binary_type(op: BinaryOperator, l: Type, r: Type) -> Option<Type> {
    if l != r {
        None
    } else {
        match op {
            BinaryOperator::Plus => if is_numeric(l) || l == Type::String {
                Some(l)
            } else {
                None
            },
            BinaryOperator::Minus | BinaryOperator::Asterisk | BinaryOperator::Slash
            | BinaryOperator::Caret => if is_numeric(l) {
                Some(l)
            } else {
                None
            },
            BinaryOperator::LessThan | BinaryOperator::LessThanEqual
            | BinaryOperator::GreaterThan | BinaryOperator::GreaterThanEqual => if is_numeric(l) {
                Some(Type::Bool)
            } else {
                None
            },
            BinaryOperator::Equal | BinaryOperator::NotEqual => Some(Type::Bool),
        }
    }
}

/// The static type of an expression; operands are typed first, and a node
/// with an untyped operand is untyped.
pub open spec fn spec_type_of(e: Expression) -> Option<Type>
    decreases e,
{
    match e.node {
        Expr::IntegerLiteral(_) => Some(Type::Integer),
        Expr::FloatLiteral(_) => Some(Type::Float),
        Expr::BooleanLiteral(_) => Some(Type::Bool),
        Expr::StringLiteral(_) => Some(Type::String),
        Expr::BinaryOperation { left, operator, right } => match spec_type_of(*left) {
            None => None,
            Some(l) => match spec_type_of(*right) {
                None => None,
                Some(r) => spec_binary_type(operator, l, r),
            },
        },
    }
}

/// The diagnostics recorded while typing an expression, in order: those of
/// the left operand; then, if it was typed, those of the right; then, if
/// both were typed and the operator does not apply, one for this node.
pub open spec fn spec_diagnostics(e: Expression) -> Seq<HydorError>
    decreases e,
{
    match e.node {
        Expr::BinaryOperation { left, operator, right } => match spec_type_of(*left) {
            None => spec_diagnostics(*left),
            Some(l) => spec_diagnostics(*left) + match spec_type_of(*right) {
                None => spec_diagnostics(*right),
                Some(r) => spec_diagnostics(*right) + if spec_binary_type(
                    operator,
                    l,
                    r,
                ) is None {
                    seq![
                        HydorError::InvalidBinaryOp {
                            operator,
                            left_type: l,
                            right_type: r,
                            span: e.span,
                        },
                    ]
                } else {
                    Seq::empty()
                },
            },
        },
        _ => Seq::empty(),
    }
}

/// Types expressions and gathers a diagnostic for each operator that does
/// not apply to its operands.
pub struct TypeChecker {
    errors: Vec<HydorError>,
}

impl TypeChecker {
    pub closed spec fn diagnostics(&self) -> Seq<HydorError> {
        self.errors@
    }

    pub fn new() -> (r: TypeChecker)
        ensures
            r.diagnostics().len() == 0,
    {
        TypeChecker { errors: Vec::new() }
    }

    fn throw_error(&mut self, error: HydorError)
        ensures
            final(self).diagnostics() == old(self).diagnostics().push(error),
    {
        self.errors.push(error);
    }

    /// The diagnostics gathered so far, which are removed from the checker.
    pub fn take_errors(&mut self) -> (r: Vec<HydorError>)
        ensures
            r@ == old(self).diagnostics(),
            final(self).diagnostics().len() == 0,
    {
        let mut taken: Vec<HydorError> = Vec::new();
        std::mem::swap(&mut taken, &mut self.errors);
        taken
    }

    /// Types `expression`, recording a diagnostic where it cannot be typed.
    pub fn check_expression(&mut self, expression: &Expression) -> (r: Option<Type>)
        ensures
            r == spec_type_of(*expression),
            final(self).diagnostics() == old(self).diagnostics() + spec_diagnostics(*expression),
        decreases expression,
    {
        match &expression.node {
            Expr::IntegerLiteral(_) => Some(Type::Integer),
            Expr::FloatLiteral(_) => Some(Type::Float),
            Expr::BooleanLiteral(_) => Some(Type::Bool),
            Expr::StringLiteral(_) => Some(Type::String),
            Expr::BinaryOperation { left, operator, right } => {
                let ghost d0 = self.diagnostics();
                let left_type = match self.check_expression(left) {
                    Some(t) => t,
                    None => {
                        return None;
                    },
                };
                let ghost d1 = self.diagnostics();
                let right_type = match self.check_expression(right) {
                    Some(t) => t,
                    None => {
                        assert(self.diagnostics() =~= d0 + spec_diagnostics(*expression));
                        return None;
                    },
                };
                let ghost d2 = self.diagnostics();
                let r = self.check_binary_expr(*operator, left_type, right_type, expression.span);
                assert(self.diagnostics() =~= d0 + spec_diagnostics(*expression));
                r
            },
        }
    }

    /// Types a binary operation whose operands have been typed.
    pub fn check_binary_expr(&mut self, operator: BinaryOperator, left_type: Type, right_type: Type, span: Span) -> (r: Option<Type>)
        ensures
            r == spec_binary_type(operator, left_type, right_type),
            final(self).diagnostics() == old(self).diagnostics() + if r is None {
                seq![HydorError::InvalidBinaryOp { operator, left_type, right_type, span }]
            } else {
                Seq::empty()
            },
    {
        let numeric = left_type == Type::Integer || left_type == Type::Float;
        let result = if left_type != right_type {
            None
        } else {
            match operator {
                BinaryOperator::Plus => if numeric || left_type == Type::String {
                    Some(left_type)
                } else {
                    None
                },
                BinaryOperator::Minus | BinaryOperator::Asterisk | BinaryOperator::Slash
                | BinaryOperator::Caret => if numeric {
                    Some(left_type)
                } else {
                    None
                },
                BinaryOperator::LessThan | BinaryOperator::LessThanEqual
                | BinaryOperator::GreaterThan | BinaryOperator::GreaterThanEqual => if numeric {
                    Some(Type::Bool)
                } else {
                    None
                },
                BinaryOperator::Equal | BinaryOperator::NotEqual => Some(Type::Bool),
            }
        };
        if result.is_none() {
            self.throw_error(HydorError::InvalidBinaryOp { operator, left_type, right_type, span });
        } else {
            assert(self.diagnostics() =~= old(self).diagnostics() + Seq::empty());
        }
        result
    }
}

} // verus!
