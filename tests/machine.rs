use hydor::bytecode::{Bytecode, DebugInfo, OpCode};
use hydor::errors::{ArithOp, CompareOp, HydorError};
use hydor::runtime_value::{order_numbers, NumberOrdering, RuntimeValue, Type};
use hydor::span::Span;
use hydor::vm::{Execution, FloatResult, FloatTask, HydorVM};

fn program(code: &[(OpCode, Vec<i32>)]) -> (Vec<u8>, DebugInfo) {
    let mut bytes = Vec::new();
    let mut debug = DebugInfo::new();
    for (i, (op, operands)) in code.iter().enumerate() {
        debug.add_span(bytes.len(), Span::new(1, i * 2, i * 2 + 1));
        bytes.extend(OpCode::make(*op, operands.clone()));
    }
    (bytes, debug)
}

fn machine(code: &[(OpCode, Vec<i32>)], constants: Vec<RuntimeValue>, strings: &[&str]) -> HydorVM {
    let (instructions, debug_info) = program(code);
    HydorVM::new(Bytecode {
        instructions,
        constants,
        string_table: strings.iter().map(|s| s.to_string()).collect(),
        debug_info,
    })
}

fn widen(v: RuntimeValue) -> f64 {
    match v {
        RuntimeValue::IntegerLiteral(n) => n as f64,
        RuntimeValue::FloatLiteral(b) => f64::from_bits(b),
        other => panic!("not a number: {:?}", other),
    }
}

fn answer(vm: &mut HydorVM, task: FloatTask) -> Result<(), HydorError> {
    let (a, b) = (widen(task.left), widen(task.right));
    let r = match task.operation {
        ArithOp::Addition => a + b,
        ArithOp::Subtraction => a - b,
        ArithOp::Multiplication => a * b,
        ArithOp::Division => a / b,
        ArithOp::Exponentiation => a.powf(b),
    };
    vm.complete_arithmetic(FloatResult { bits: r.to_bits(), is_whole: r.fract() == 0.0, as_integer: r as i32 })
}

fn run(vm: &mut HydorVM) -> Result<(), HydorError> {
    loop {
        match vm.execute_bytecode()? {
            Execution::Halted => return Ok(()),
            Execution::AwaitingFloat(task) => answer(vm, task)?,
        }
    }
}

fn integer(n: i32) -> RuntimeValue {
    RuntimeValue::IntegerLiteral(n)
}

fn floating(x: f64) -> RuntimeValue {
    RuntimeValue::FloatLiteral(x.to_bits())
}

fn binary(op: OpCode, left: RuntimeValue, right: RuntimeValue) -> Result<Option<RuntimeValue>, HydorError> {
    let mut vm = machine(
        &[
            (OpCode::LoadConstant, vec![0]),
            (OpCode::LoadConstant, vec![1]),
            (op, vec![]),
            (OpCode::Pop, vec![]),
            (OpCode::Halt, vec![]),
        ],
        vec![left, right],
        &[],
    );
    run(&mut vm)?;
    Ok(vm.last_popped())
}

fn unary(op: OpCode, operand: RuntimeValue) -> Result<Option<RuntimeValue>, HydorError> {
    let mut vm = machine(
        &[
            (OpCode::LoadConstant, vec![0]),
            (op, vec![]),
            (OpCode::Pop, vec![]),
            (OpCode::Halt, vec![]),
        ],
        vec![operand],
        &[],
    );
    run(&mut vm)?;
    Ok(vm.last_popped())
}

#[test]
fn adds_two_integer_constants() {
    let mut vm = machine(
        &[
            (OpCode::LoadConstant, vec![0]),
            (OpCode::LoadConstant, vec![1]),
            (OpCode::Add, vec![]),
            (OpCode::Pop, vec![]),
            (OpCode::Halt, vec![]),
        ],
        vec![integer(2), integer(3)],
        &[],
    );
    assert_eq!(vm.execute_bytecode(), Ok(Execution::Halted));
    assert_eq!(vm.last_popped(), Some(integer(5)));
}

#[test]
fn adding_boolean_to_integer_fails() {
    let mut vm = machine(
        &[
            (OpCode::LoadBoolTrue, vec![]),
            (OpCode::LoadConstant, vec![0]),
            (OpCode::Add, vec![]),
            (OpCode::Halt, vec![]),
        ],
        vec![integer(1)],
        &[],
    );
    match vm.execute_bytecode() {
        Err(HydorError::ArithmeticError { operation, left_type, right_type, span }) => {
            assert_eq!(operation.name(), "addition");
            assert_eq!(left_type, Type::Bool);
            assert_eq!(right_type, Type::Integer);
            assert_eq!(span, Span::new(1, 0, 1));
        }
        other => panic!("unexpected {:?}", other),
    }
}

#[test]
fn arithmetic_error_blames_the_right_operand() {
    let mut vm = machine(
        &[
            (OpCode::LoadConstant, vec![0]),
            (OpCode::LoadNil, vec![]),
            (OpCode::Subtract, vec![]),
            (OpCode::Halt, vec![]),
        ],
        vec![integer(1)],
        &[],
    );
    assert_eq!(
        vm.execute_bytecode(),
        Err(HydorError::ArithmeticError {
            operation: ArithOp::Subtraction,
            left_type: Type::Integer,
            right_type: Type::Nil,
            span: Span::new(1, 2, 3),
        })
    );
}

#[test]
fn exact_integer_division_stays_integer() {
    assert_eq!(binary(OpCode::Divide, integer(6), integer(3)), Ok(Some(integer(2))));
}

#[test]
fn inexact_integer_division_gives_float() {
    match binary(OpCode::Divide, integer(1), integer(3)) {
        Ok(Some(RuntimeValue::FloatLiteral(bits))) => {
            assert!((f64::from_bits(bits) - 0.3333).abs() < 0.001);
        }
        other => panic!("unexpected {:?}", other),
    }
}

#[test]
fn integer_power_narrows_to_integer() {
    assert_eq!(binary(OpCode::Exponent, integer(2), integer(3)), Ok(Some(integer(8))));
}

#[test]
fn division_hands_out_float_task() {
    let mut vm = machine(
        &[
            (OpCode::LoadConstant, vec![0]),
            (OpCode::LoadConstant, vec![1]),
            (OpCode::Divide, vec![]),
            (OpCode::Halt, vec![]),
        ],
        vec![integer(1), integer(3)],
        &[],
    );
    assert_eq!(
        vm.execute_bytecode(),
        Ok(Execution::AwaitingFloat(FloatTask {
            operation: ArithOp::Division,
            left: integer(1),
            right: integer(3),
        }))
    );
    assert!(vm.pending_task().is_some());
}

#[test]
fn float_operand_keeps_float_result() {
    assert_eq!(binary(OpCode::Multiply, floating(2.0), integer(3)), Ok(Some(floating(6.0))));
}

#[test]
fn integer_arithmetic_saturates() {
    assert_eq!(binary(OpCode::Add, integer(i32::MAX), integer(1)), Ok(Some(integer(i32::MAX))));
    assert_eq!(binary(OpCode::Multiply, integer(i32::MIN), integer(2)), Ok(Some(integer(i32::MIN))));
    assert_eq!(binary(OpCode::Subtract, integer(7), integer(10)), Ok(Some(integer(-3))));
    assert_eq!(binary(OpCode::Divide, integer(i32::MIN), integer(-1)), Ok(Some(integer(i32::MAX))));
    assert_eq!(binary(OpCode::Divide, integer(-12), integer(4)), Ok(Some(integer(-3))));
}

#[test]
fn integer_equals_float_at_run_time() {
    assert_eq!(
        binary(OpCode::CompareEqual, integer(2), floating(2.0)),
        Ok(Some(RuntimeValue::BooleanLiteral(true)))
    );
}

#[test]
fn comparisons_of_numbers() {
    let t = Ok(Some(RuntimeValue::BooleanLiteral(true)));
    let f = Ok(Some(RuntimeValue::BooleanLiteral(false)));
    assert_eq!(binary(OpCode::CompareLess, integer(1), integer(2)), t);
    assert_eq!(binary(OpCode::CompareGreaterEqual, integer(1), integer(2)), f);
    assert_eq!(binary(OpCode::CompareLessEqual, floating(2.5), integer(2)), f);
    assert_eq!(binary(OpCode::CompareNotEqual, floating(f64::NAN), floating(f64::NAN)), t);
    assert_eq!(binary(OpCode::CompareEqual, floating(f64::NAN), floating(f64::NAN)), f);
}

#[test]
fn equality_of_other_values() {
    let t = Ok(Some(RuntimeValue::BooleanLiteral(true)));
    let f = Ok(Some(RuntimeValue::BooleanLiteral(false)));
    assert_eq!(binary(OpCode::CompareEqual, RuntimeValue::NilLiteral, RuntimeValue::NilLiteral), t);
    assert_eq!(binary(OpCode::CompareEqual, RuntimeValue::NilLiteral, integer(0)), f);
    assert_eq!(
        binary(OpCode::CompareNotEqual, RuntimeValue::BooleanLiteral(true), RuntimeValue::BooleanLiteral(false)),
        t
    );
}

#[test]
fn ordering_non_numbers_fails() {
    let mut vm = machine(
        &[
            (OpCode::LoadBoolTrue, vec![]),
            (OpCode::LoadConstant, vec![0]),
            (OpCode::CompareLess, vec![]),
            (OpCode::Halt, vec![]),
        ],
        vec![integer(1)],
        &[],
    );
    match vm.execute_bytecode() {
        Err(HydorError::ComparisonOperationError { operation, blame_type, span }) => {
            assert_eq!(operation, CompareOp::Less);
            assert_eq!(operation.symbol(), "<");
            assert_eq!(blame_type, Type::Bool);
            assert_eq!(span, Span::new(1, 4, 5));
        }
        other => panic!("unexpected {:?}", other),
    }
}

#[test]
fn not_follows_truthiness() {
    assert_eq!(unary(OpCode::UnaryNot, RuntimeValue::BooleanLiteral(false)), Ok(Some(RuntimeValue::BooleanLiteral(true))));
    assert_eq!(unary(OpCode::UnaryNot, integer(0)), Ok(Some(RuntimeValue::BooleanLiteral(false))));
    assert_eq!(unary(OpCode::UnaryNot, RuntimeValue::NilLiteral), Ok(Some(RuntimeValue::BooleanLiteral(true))));
}

#[test]
fn negation_keeps_representation() {
    assert_eq!(unary(OpCode::UnaryNegate, integer(5)), Ok(Some(integer(-5))));
    assert_eq!(unary(OpCode::UnaryNegate, floating(1.5)), Ok(Some(floating(-1.5))));
    assert_eq!(unary(OpCode::UnaryNegate, integer(i32::MIN)), Ok(Some(integer(i32::MIN))));
}

#[test]
fn negating_a_boolean_fails() {
    match unary(OpCode::UnaryNegate, RuntimeValue::BooleanLiteral(true)) {
        Err(HydorError::UnaryOperationError { operation, operand_type, span }) => {
            assert_eq!(operation.name(), "negation");
            assert_eq!(operand_type, Type::Bool);
            assert_eq!(span, Span::new(1, 2, 1));
        }
        other => panic!("unexpected {:?}", other),
    }
}

#[test]
fn concatenation_interns_once() {
    let mut vm = machine(
        &[
            (OpCode::LoadString, vec![0]),
            (OpCode::LoadString, vec![1]),
            (OpCode::Add, vec![]),
            (OpCode::Pop, vec![]),
            (OpCode::LoadString, vec![0]),
            (OpCode::LoadString, vec![1]),
            (OpCode::Add, vec![]),
            (OpCode::Pop, vec![]),
            (OpCode::Halt, vec![]),
        ],
        vec![],
        &["ab", "cd"],
    );
    assert_eq!(run(&mut vm), Ok(()));
    assert_eq!(vm.string_count(), 3);
    assert_eq!(vm.last_popped(), Some(RuntimeValue::StringLiteral(2)));
    assert_eq!(vm.resolve_string(2), "abcd");
}

#[test]
fn string_equality_compares_text() {
    let mut vm = machine(
        &[
            (OpCode::LoadString, vec![0]),
            (OpCode::LoadString, vec![1]),
            (OpCode::CompareEqual, vec![]),
            (OpCode::Pop, vec![]),
            (OpCode::Halt, vec![]),
        ],
        vec![],
        &["same", "same"],
    );
    assert_eq!(run(&mut vm), Ok(()));
    assert_eq!(vm.last_popped(), Some(RuntimeValue::BooleanLiteral(true)));
}

#[test]
fn interning_twice_gives_one_index() {
    let mut vm = machine(&[(OpCode::Halt, vec![])], vec![], &["x"]);
    let first = vm.intern_string("hello".to_string());
    let second = vm.intern_string("hello".to_string());
    assert_eq!(first, 1);
    assert_eq!(second, 1);
    assert_eq!(vm.intern_string("x".to_string()), 0);
    assert_eq!(vm.string_count(), 2);
}

#[test]
fn pushing_past_the_bound_overflows() {
    let (instructions, debug_info) = program(&[
        (OpCode::LoadNil, vec![]),
        (OpCode::LoadNil, vec![]),
        (OpCode::LoadNil, vec![]),
        (OpCode::Halt, vec![]),
    ]);
    let mut vm = HydorVM::with_stack_limit(
        Bytecode { instructions, constants: vec![], string_table: vec![], debug_info },
        2,
    );
    assert_eq!(
        vm.execute_bytecode(),
        Err(HydorError::StackOverflow { stack_length: 2, span: Span::new(1, 4, 5) })
    );
}

#[test]
fn default_bound_is_ten_thousand() {
    let code: Vec<(OpCode, Vec<i32>)> =
        (0..10_001).map(|_| (OpCode::LoadNil, vec![])).chain([(OpCode::Halt, vec![])]).collect();
    let mut vm = machine(&code, vec![], &[]);
    match vm.execute_bytecode() {
        Err(HydorError::StackOverflow { stack_length, .. }) => assert_eq!(stack_length, 10_000),
        other => panic!("unexpected {:?}", other),
    }
}

#[test]
fn popping_an_empty_stack_underflows() {
    let mut vm = machine(&[(OpCode::Pop, vec![]), (OpCode::Halt, vec![])], vec![], &[]);
    assert_eq!(
        vm.execute_bytecode(),
        Err(HydorError::StackUnderflow { stack_length: 0, span: Span::new(0, 0, 0) })
    );
}

#[test]
fn malformed_programs_fail_fast() {
    let mut no_halt = machine(&[(OpCode::LoadNil, vec![])], vec![], &[]);
    assert_eq!(no_halt.execute_bytecode(), Err(HydorError::MalformedBytecode { offset: 1 }));

    let mut bad_constant = machine(&[(OpCode::LoadConstant, vec![3]), (OpCode::Halt, vec![])], vec![integer(1)], &[]);
    assert_eq!(bad_constant.execute_bytecode(), Err(HydorError::MalformedBytecode { offset: 0 }));

    let mut bad_string = machine(&[(OpCode::LoadString, vec![0]), (OpCode::Halt, vec![])], vec![], &[]);
    assert_eq!(bad_string.execute_bytecode(), Err(HydorError::MalformedBytecode { offset: 0 }));

    let mut unknown = HydorVM::new(Bytecode {
        instructions: vec![0xff],
        constants: vec![],
        string_table: vec![],
        debug_info: DebugInfo::new(),
    });
    assert_eq!(unknown.execute_bytecode(), Err(HydorError::MalformedBytecode { offset: 0 }));

    let mut truncated = HydorVM::new(Bytecode {
        instructions: vec![0x03, 0x00],
        constants: vec![integer(1)],
        string_table: vec![],
        debug_info: DebugInfo::new(),
    });
    assert_eq!(truncated.execute_bytecode(), Err(HydorError::MalformedBytecode { offset: 0 }));
}

#[test]
fn loads_literals() {
    let mut vm = machine(
        &[
            (OpCode::LoadBoolFalse, vec![]),
            (OpCode::Pop, vec![]),
            (OpCode::Halt, vec![]),
        ],
        vec![],
        &[],
    );
    assert_eq!(run(&mut vm), Ok(()));
    assert_eq!(vm.last_popped(), Some(RuntimeValue::BooleanLiteral(false)));
}

#[test]
fn mixed_number_equality_needs_no_float_task() {
    let mut vm = machine(
        &[
            (OpCode::LoadConstant, vec![0]),
            (OpCode::LoadConstant, vec![1]),
            (OpCode::CompareEqual, vec![]),
            (OpCode::Pop, vec![]),
            (OpCode::Halt, vec![]),
        ],
        vec![integer(2), floating(2.0)],
        &[],
    );
    assert_eq!(vm.execute_bytecode(), Ok(Execution::Halted));
    assert_eq!(vm.last_popped(), Some(RuntimeValue::BooleanLiteral(true)));
}

#[test]
fn values_equal_widens_integers_exactly() {
    let vm = machine(&[(OpCode::Halt, vec![])], vec![], &[]);
    assert!(vm.values_equal(integer(2), floating(2.0)));
    assert!(vm.values_equal(floating(2.0), integer(2)));
    assert!(vm.values_equal(integer(0), floating(-0.0)));
    assert!(vm.values_equal(integer(i32::MIN), floating(-2147483648.0)));
    assert!(vm.values_equal(integer(i32::MAX), floating(2147483647.0)));
    assert!(vm.values_equal(integer(-7), floating(-7.0)));
    assert!(!vm.values_equal(integer(3), floating(3.5)));
    assert!(!vm.values_equal(integer(-3), floating(3.0)));
    assert!(!vm.values_equal(integer(16_777_217), floating(16_777_216.0)));
    assert!(!vm.values_equal(integer(1), floating(1e300)));
    assert!(!vm.values_equal(integer(0), floating(f64::MIN_POSITIVE / 2.0)));
    assert!(!vm.values_equal(integer(5), floating(f64::INFINITY)));
    assert!(!vm.values_equal(integer(0), floating(f64::NAN)));
}

#[test]
fn values_equal_on_floats_follows_ieee() {
    let vm = machine(&[(OpCode::Halt, vec![])], vec![], &[]);
    assert!(vm.values_equal(floating(0.0), floating(-0.0)));
    assert!(vm.values_equal(floating(1.25), floating(1.25)));
    assert!(!vm.values_equal(floating(f64::NAN), floating(f64::NAN)));
    assert!(!vm.values_equal(floating(1.0), floating(1.0000000000000002)));
    assert!(vm.values_equal(integer(4), integer(4)));
    assert!(!vm.values_equal(integer(4), RuntimeValue::BooleanLiteral(true)));
    assert!(!vm.values_equal(RuntimeValue::NilLiteral, RuntimeValue::BooleanLiteral(false)));
}

#[test]
fn ordering_with_a_float_runs_in_the_machine() {
    let mut vm = machine(
        &[
            (OpCode::LoadConstant, vec![0]),
            (OpCode::LoadConstant, vec![1]),
            (OpCode::CompareGreater, vec![]),
            (OpCode::Pop, vec![]),
            (OpCode::Halt, vec![]),
        ],
        vec![floating(2.5), integer(2)],
        &[],
    );
    assert_eq!(vm.execute_bytecode(), Ok(Execution::Halted));
    assert_eq!(vm.last_popped(), Some(RuntimeValue::BooleanLiteral(true)));
}

#[test]
fn numbers_order_by_value() {
    assert_eq!(order_numbers(integer(1), integer(2)), NumberOrdering::Less);
    assert_eq!(order_numbers(integer(2), floating(2.0)), NumberOrdering::Equal);
    assert_eq!(order_numbers(floating(2.5), integer(2)), NumberOrdering::Greater);
    assert_eq!(order_numbers(integer(-3), floating(-2.5)), NumberOrdering::Less);
    assert_eq!(order_numbers(integer(i32::MAX), floating(2147483647.5)), NumberOrdering::Less);
    assert_eq!(order_numbers(integer(i32::MIN), floating(-2147483648.0)), NumberOrdering::Equal);
    assert_eq!(order_numbers(integer(16_777_217), floating(16_777_216.0)), NumberOrdering::Greater);
    assert_eq!(order_numbers(integer(0), floating(-0.0)), NumberOrdering::Equal);
    assert_eq!(order_numbers(integer(0), floating(f64::MIN_POSITIVE / 2.0)), NumberOrdering::Less);
    assert_eq!(order_numbers(integer(0), floating(-f64::MIN_POSITIVE)), NumberOrdering::Greater);
    assert_eq!(order_numbers(integer(7), floating(1e300)), NumberOrdering::Less);
    assert_eq!(order_numbers(integer(7), floating(1e-300)), NumberOrdering::Greater);
    assert_eq!(order_numbers(integer(i32::MAX), floating(f64::INFINITY)), NumberOrdering::Less);
    assert_eq!(order_numbers(integer(i32::MIN), floating(f64::NEG_INFINITY)), NumberOrdering::Greater);
    assert_eq!(order_numbers(integer(1), floating(f64::NAN)), NumberOrdering::Unordered);
    assert_eq!(order_numbers(floating(0.0), floating(-0.0)), NumberOrdering::Equal);
    assert_eq!(order_numbers(floating(-1.0), floating(-2.0)), NumberOrdering::Greater);
    assert_eq!(order_numbers(floating(-1.0), floating(0.5)), NumberOrdering::Less);
    assert_eq!(order_numbers(floating(f64::MAX), floating(f64::INFINITY)), NumberOrdering::Less);
    assert_eq!(order_numbers(floating(f64::NEG_INFINITY), floating(f64::NEG_INFINITY)), NumberOrdering::Equal);
    assert_eq!(order_numbers(floating(1.0), floating(1.0000000000000002)), NumberOrdering::Less);
    assert_eq!(order_numbers(floating(f64::NAN), floating(f64::NAN)), NumberOrdering::Unordered);
}
