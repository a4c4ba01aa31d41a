use hydor::ast::{BinaryOperator, Expr, Expression, TypeAnnotation};
use hydor::errors::HydorError;
use hydor::runtime_value::Type;
use hydor::span::Span;
use hydor::type_checker::TypeChecker;

fn lit(node: Expr, col: usize) -> Expression {
    Expression { node, span: Span::new(1, col, col + 1) }
}

fn bin(left: Expression, operator: BinaryOperator, right: Expression) -> Expression {
    let span = left.span.merge(&right.span);
    Expression {
        node: Expr::BinaryOperation { left: Box::new(left), operator, right: Box::new(right) },
        span,
    }
}

#[test]
fn integer_equals_float_is_rejected_statically() {
    let mut checker = TypeChecker::new();
    let e = bin(lit(Expr::IntegerLiteral(2), 0), BinaryOperator::Equal, lit(Expr::FloatLiteral(2.0f32.to_bits()), 5));
    assert_eq!(checker.check_expression(&e), None);
    assert_eq!(
        checker.take_errors(),
        vec![HydorError::InvalidBinaryOp {
            operator: BinaryOperator::Equal,
            left_type: Type::Integer,
            right_type: Type::Float,
            span: Span::new(1, 0, 6),
        }]
    );
    assert!(checker.take_errors().is_empty());
}

#[test]
fn arithmetic_types() {
    let mut checker = TypeChecker::new();
    let sum = bin(lit(Expr::IntegerLiteral(1), 0), BinaryOperator::Plus, lit(Expr::IntegerLiteral(2), 4));
    assert_eq!(checker.check_expression(&sum), Some(Type::Integer));
    let concat = bin(
        lit(Expr::StringLiteral("a".to_string()), 0),
        BinaryOperator::Plus,
        lit(Expr::StringLiteral("b".to_string()), 4),
    );
    assert_eq!(checker.check_expression(&concat), Some(Type::String));
    let power = bin(
        lit(Expr::FloatLiteral(1.5f32.to_bits()), 0),
        BinaryOperator::Caret,
        lit(Expr::FloatLiteral(2.0f32.to_bits()), 4),
    );
    assert_eq!(checker.check_expression(&power), Some(Type::Float));
    assert!(checker.take_errors().is_empty());
}

#[test]
fn comparisons_type_as_bool() {
    let mut checker = TypeChecker::new();
    let less = bin(lit(Expr::IntegerLiteral(1), 0), BinaryOperator::LessThan, lit(Expr::IntegerLiteral(2), 4));
    assert_eq!(checker.check_expression(&less), Some(Type::Bool));
    let eq = bin(lit(Expr::BooleanLiteral(true), 0), BinaryOperator::NotEqual, lit(Expr::BooleanLiteral(false), 4));
    assert_eq!(checker.check_expression(&eq), Some(Type::Bool));
    let bad = bin(lit(Expr::BooleanLiteral(true), 0), BinaryOperator::GreaterThan, lit(Expr::BooleanLiteral(false), 4));
    assert_eq!(checker.check_expression(&bad), None);
    assert_eq!(checker.take_errors().len(), 1);
}

#[test]
fn boolean_addition_and_string_subtraction_are_rejected() {
    let mut checker = TypeChecker::new();
    let add = bin(lit(Expr::BooleanLiteral(true), 0), BinaryOperator::Plus, lit(Expr::BooleanLiteral(true), 4));
    assert_eq!(checker.check_expression(&add), None);
    let sub = bin(
        lit(Expr::StringLiteral("a".to_string()), 0),
        BinaryOperator::Minus,
        lit(Expr::StringLiteral("b".to_string()), 4),
    );
    assert_eq!(checker.check_expression(&sub), None);
    assert_eq!(checker.take_errors().len(), 2);
}

#[test]
fn a_failed_operand_stops_its_parent() {
    let mut checker = TypeChecker::new();
    let inner = bin(lit(Expr::BooleanLiteral(true), 0), BinaryOperator::Slash, lit(Expr::IntegerLiteral(1), 4));
    let outer = bin(inner, BinaryOperator::Plus, lit(Expr::StringLiteral("x".to_string()), 8));
    assert_eq!(checker.check_expression(&outer), None);
    let errors = checker.take_errors();
    assert_eq!(errors.len(), 1);
    assert!(matches!(errors[0], HydorError::InvalidBinaryOp { operator: BinaryOperator::Slash, .. }));
}

#[test]
fn type_names() {
    assert_eq!(TypeAnnotation::from_identifier("int"), Some(TypeAnnotation::IntegerType));
    assert_eq!(TypeAnnotation::from_identifier("float"), Some(TypeAnnotation::FloatType));
    assert_eq!(TypeAnnotation::from_identifier("bool"), Some(TypeAnnotation::BooleanType));
    assert_eq!(TypeAnnotation::from_identifier("string"), Some(TypeAnnotation::StringType));
    assert_eq!(TypeAnnotation::from_identifier("integer"), None);
    assert_eq!(TypeAnnotation::from_identifier(""), None);
}
