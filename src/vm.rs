use vstd::prelude::*;
use crate::bytecode::{
    Bytecode, DebugInfo, OpCode, be_u16_at, instruction_len, operand_widths, read_instruction, spec_decode,
    spec_span_at,
};
use crate::errors::{ArithOp, CompareOp, HydorError, UnaryOp};
use crate::runtime_value::{
    float_equal, float_equals_integer, negate_float_bits, number_equal, order_numbers,
    spec_negate_float_bits, spec_number_order, NumberOrdering, RuntimeValue,
};
use crate::span::Span;

verus! {

/// The stack bound of a machine made by `HydorVM::new`.
pub const MAX_STACK: usize = 10_000;

/// One stack slot: a value and the source span it came from.
#[derive(Debug, Clone, Copy, PartialEq, Eq, Structural)]
pub struct StackValue {
    pub value: RuntimeValue,
    pub span: Span,
}

/// Binary64 arithmetic that the machine hands to its caller.
///
/// The operands are numbers. The caller widens both to binary64, applies the
/// operation (`a + b`, `a - b`, `a * b`, `a / b`, `a.powf(b)`) and answers
/// with `complete_arithmetic`.
#[derive(Debug, Clone, Copy, PartialEq, Eq, Structural)]
pub struct FloatTask {
    pub operation: ArithOp,
    pub left: RuntimeValue,
    pub right: RuntimeValue,
}

/// A binary64 result: its bits, whether it has no fractional part, and its
/// saturating conversion to `i32`.
#[derive(Debug, Clone, Copy, PartialEq, Eq, Structural)]
pub struct FloatResult {
    pub bits: u64,
    pub is_whole: bool,
    pub as_integer: i32,
}

/// A float task that has been handed out, with the span its result gets.
#[derive(Debug, Clone, Copy, PartialEq, Eq, Structural)]
pub struct Pending {
    pub task: FloatTask,
    pub span: Span,
}

/// Where a run of the machine stopped without a fault.
#[derive(Debug, Clone, Copy, PartialEq, Eq, Structural)]
pub enum Execution {
    Halted,
    AwaitingFloat(FloatTask),
}

/// The abstract state of a machine.
pub struct Machine {
    pub stack: Seq<StackValue>,
    pub last_pop: Option<RuntimeValue>,
    pub ip: int,
    pub pending: Option<Pending>,
    pub strings: Seq<Seq<char>>,
    pub instructions: Seq<u8>,
    pub constants: Seq<RuntimeValue>,
    pub debug: Seq<(usize, Span)>,
    pub max_stack: int,
}

pub open spec fn string_ok(v: RuntimeValue, strings: Seq<Seq<char>>) -> bool {
    match v {
        RuntimeValue::StringLiteral(i) => i < strings.len(),
        _ => true,
    }
}

/// The machine's invariant: the stack is within its bound, every string value
/// names an entry of the table, and a handed-out task holds numbers only.
pub open spec fn spec_wf(m: Machine) -> bool {
    &&& 0 <= m.stack.len() <= m.max_stack
    &&& forall|i: int| 0 <= i < m.stack.len() ==> string_ok(#[trigger] m.stack[i].value, m.strings)
    &&& match m.last_pop {
        Some(v) => string_ok(v, m.strings),
        None => true,
    }
    &&& match m.pending {
        Some(p) => p.task.left.spec_is_number() && p.task.right.spec_is_number(),
        None => true,
    }
    &&& 0 <= m.ip <= m.instructions.len()
}

pub open spec fn spec_push(m: Machine, v: RuntimeValue, span: Span) -> Result<Machine, HydorError> {
    if m.stack.len() >= m.max_stack {
        Err(HydorError::StackOverflow { stack_length: m.stack.len() as usize, span })
    } else {
        Ok(Machine { stack: m.stack.push(StackValue { value: v, span }), ..m })
    }
}

pub open spec fn spec_underflow(m: Machine) -> HydorError {
    HydorError::StackUnderflow { stack_length: m.stack.len() as usize, span: Span::spec_unknown() }
}

pub open spec fn spec_pop(m: Machine) -> Result<(Machine, StackValue), HydorError> {
    if m.stack.len() == 0 {
        Err(spec_underflow(m))
    } else {
        Ok((Machine { stack: m.stack.drop_last(), ..m }, m.stack.last()))
    }
}

/// The first index of `s` in `strings`.
pub open spec fn spec_find(strings: Seq<Seq<char>>, s: Seq<char>) -> Option<int>
    decreases strings.len(),
{
    if strings.len() == 0 {
        None
    } else {
        match spec_find(strings.drop_last(), s) {
            Some(i) => Some(i),
            None => if strings.last() == s {
                Some(strings.len() - 1)
            } else {
                None
            },
        }
    }
}

/// Interning: the index of `s` where the table holds it, else the table with
/// `s` appended and its new index.
pub open spec fn spec_intern(strings: Seq<Seq<char>>, s: Seq<char>) -> (Seq<Seq<char>>, int) {
    match spec_find(strings, s) {
        Some(i) => (strings, i),
        None => (strings.push(s), strings.len() as int),
    }
}

pub open spec fn no_duplicates(strings: Seq<Seq<char>>) -> bool {
    forall|i: int, j: int|
        0 <= i < strings.len() && 0 <= j < strings.len() && i != j ==> strings[i] != strings[j]
}

pub open spec fn clamp_i32(x: int) -> i32 {
    if x > i32::MAX {
        i32::MAX
    } else if x < i32::MIN {
        i32::MIN
    } else {
        x as i32
    }
}

pub open spec fn abs(x: int) -> int {
    if x < 0 {
        -x
    } else {
        x
    }
}

/// Integer results that need no floating point. Sums, differences and
/// products of two `i32` are exact in binary64, or rounded at magnitudes far
/// past `i32`'s range, and an exact quotient is exact in binary64; narrowing
/// such a whole result back to `i32` saturates. Any other case is `None`.
pub open spec fn spec_int_arith(op: ArithOp, a: i32, b: i32) -> Option<i32> {
    match op {
        ArithOp::Addition => Some(clamp_i32(a + b)),
        ArithOp::Subtraction => Some(clamp_i32(a - b)),
        ArithOp::Multiplication => Some(clamp_i32(a * b)),
        ArithOp::Division => if b != 0 && abs(a as int) % abs(b as int) == 0 {
            let q = abs(a as int) / abs(b as int);
            Some(clamp_i32(if (a < 0) != (b < 0) { -q } else { q }))
        } else {
            None
        },
        ArithOp::Exponentiation => None,
    }
}

/// The value pushed for a binary64 result: an integer where neither operand
/// was a float and the result is whole, else the float itself.
pub open spec fn spec_narrow(left: RuntimeValue, right: RuntimeValue, res: FloatResult) -> RuntimeValue {
    if !(left is FloatLiteral) && !(right is FloatLiteral) && res.is_whole {
        RuntimeValue::IntegerLiteral(res.as_integer)
    } else {
        RuntimeValue::FloatLiteral(res.bits)
    }
}

pub open spec fn spec_suspend(m: Machine, task: FloatTask, span: Span) -> Machine {
    Machine { pending: Some(Pending { task, span }), ..m }
}

pub open spec fn spec_concat(m: Machine, li: usize, ri: usize, span: Span) -> Result<Machine, HydorError> {
    let (strings, idx) = spec_intern(m.strings, m.strings[li as int] + m.strings[ri as int]);
    spec_push(Machine { strings, ..m }, RuntimeValue::StringLiteral(idx as usize), span)
}

/// A binary arithmetic operation on the two popped operands.
pub open spec fn spec_arith_values(m: Machine, op: ArithOp, l: StackValue, r: StackValue) -> Result<Machine, HydorError> {
    let span = l.span.spec_merge(r.span);
    match (l.value, r.value) {
        (RuntimeValue::StringLiteral(li), RuntimeValue::StringLiteral(ri)) if op
            == ArithOp::Addition => spec_concat(m, li, ri, span),
        _ => if !l.value.spec_is_number() {
            Err(
                HydorError::ArithmeticError {
                    operation: op,
                    left_type: l.value.spec_type(),
                    right_type: r.value.spec_type(),
                    span: l.span,
                },
            )
        } else if !r.value.spec_is_number() {
            Err(
                HydorError::ArithmeticError {
                    operation: op,
                    left_type: l.value.spec_type(),
                    right_type: r.value.spec_type(),
                    span: r.span,
                },
            )
        } else {
            let task = FloatTask { operation: op, left: l.value, right: r.value };
            match (l.value, r.value) {
                (RuntimeValue::IntegerLiteral(a), RuntimeValue::IntegerLiteral(b)) => match spec_int_arith(op, a, b) {
                    Some(v) => spec_push(m, RuntimeValue::IntegerLiteral(v), span),
                    None => Ok(spec_suspend(m, task, span)),
                },
                _ => Ok(spec_suspend(m, task, span)),
            }
        },
    }
}

/// Pops the right operand, then the left, and applies `op`.
pub open spec fn spec_binary(m: Machine, op: ArithOp) -> Result<Machine, HydorError> {
    match spec_pop(m) {
        Err(e) => Err(e),
        Ok((m1, r)) => match spec_pop(m1) {
            Err(e) => Err(e),
            Ok((m2, l)) => spec_arith_values(m2, op, l, r),
        },
    }
}

pub open spec fn spec_set_top(m: Machine, v: RuntimeValue) -> Machine {
    Machine {
        stack: m.stack.update(m.stack.len() - 1, StackValue { value: v, span: m.stack.last().span }),
        ..m
    }
}

/// Integer negation wraps: `-i32::MIN` does not fit, and stays `i32::MIN`.
pub open spec fn spec_wrapping_neg(a: i32) -> i32 {
    if a == i32::MIN {
        a
    } else {
        (-a) as i32
    }
}

/// Negation of the top value in place, keeping integer or float.
pub open spec fn spec_negate(m: Machine, span: Span) -> Result<Machine, HydorError> {
    if m.stack.len() == 0 {
        Err(spec_underflow(m))
    } else {
        let top = m.stack.last();
        match top.value {
            RuntimeValue::IntegerLiteral(a) => Ok(spec_set_top(m, RuntimeValue::IntegerLiteral(spec_wrapping_neg(a)))),
            RuntimeValue::FloatLiteral(b) => Ok(spec_set_top(m, RuntimeValue::FloatLiteral(spec_negate_float_bits(b)))),
            _ => Err(
                HydorError::UnaryOperationError {
                    operation: UnaryOp::Negation,
                    operand_type: top.value.spec_type(),
                    span: span.spec_merge(top.span),
                },
            ),
        }
    }
}

/// Logical not of the top value in place, by truthiness.
pub open spec fn spec_not(m: Machine) -> Result<Machine, HydorError> {
    if m.stack.len() == 0 {
        Err(spec_underflow(m))
    } else {
        Ok(spec_set_top(m, RuntimeValue::BooleanLiteral(!m.stack.last().value.spec_is_truthy())))
    }
}

/// Whether `op` holds of two numbers ordered as `ord`; only `!=` holds of
/// unordered numbers.
pub open spec fn spec_ordering_holds(op: CompareOp, ord: NumberOrdering) -> bool {
    match op {
        CompareOp::Less => ord == NumberOrdering::Less,
        CompareOp::LessEqual => ord == NumberOrdering::Less || ord == NumberOrdering::Equal,
        CompareOp::Greater => ord == NumberOrdering::Greater,
        CompareOp::GreaterEqual => ord == NumberOrdering::Greater || ord == NumberOrdering::Equal,
        CompareOp::Equal => ord == NumberOrdering::Equal,
        CompareOp::NotEqual => ord != NumberOrdering::Equal,
    }
}

/// Equality of two values, total over all pairs: numbers by their value
/// once integers are widened to binary64, strings by their text, booleans and
/// nil by variant and payload; values of other variants are unequal.
pub open spec fn spec_values_equal(strings: Seq<Seq<char>>, l: RuntimeValue, r: RuntimeValue) -> bool {
    match (l, r) {
        (RuntimeValue::BooleanLiteral(a), RuntimeValue::BooleanLiteral(b)) => a == b,
        (RuntimeValue::StringLiteral(a), RuntimeValue::StringLiteral(b)) => strings[a as int]
            == strings[b as int],
        (RuntimeValue::NilLiteral, RuntimeValue::NilLiteral) => true,
        _ => number_equal(l, r),
    }
}

/// Numbers compare by value under all six operators; other values only
/// under `==` and `!=`, by `spec_values_equal`.
pub open spec fn spec_compare_values(m: Machine, op: CompareOp, l: RuntimeValue, r: RuntimeValue, span: Span) -> Result<Machine, HydorError> {
    if l.spec_is_number() && r.spec_is_number() {
        spec_push(m, RuntimeValue::BooleanLiteral(spec_ordering_holds(op, spec_number_order(l, r))), span)
    } else if op == CompareOp::Equal {
        spec_push(m, RuntimeValue::BooleanLiteral(spec_values_equal(m.strings, l, r)), span)
    } else if op == CompareOp::NotEqual {
        spec_push(m, RuntimeValue::BooleanLiteral(!spec_values_equal(m.strings, l, r)), span)
    } else {
        Err(
            HydorError::ComparisonOperationError {
                operation: op,
                blame_type: if !l.spec_is_number() {
                    l.spec_type()
                } else {
                    r.spec_type()
                },
                span,
            },
        )
    }
}

/// Pops the right operand, then the left, and compares them.
pub open spec fn spec_compare(m: Machine, op: CompareOp, span: Span) -> Result<Machine, HydorError> {
    match spec_pop(m) {
        Err(e) => Err(e),
        Ok((m1, r)) => match spec_pop(m1) {
            Err(e) => Err(e),
            Ok((m2, l)) => spec_compare_values(m2, op, l.value, r.value, span),
        },
    }
}

pub open spec fn spec_complete_arithmetic(m: Machine, res: FloatResult) -> Result<Machine, HydorError> {
    match m.pending {
        Some(p) => spec_push(
            Machine { pending: None, ..m },
            spec_narrow(p.task.left, p.task.right, res),
            p.span,
        ),
        None => Ok(m),
    }
}

/// Whether an operation's result `r` and the machine after it, `after`,
/// agree with its abstract outcome `expected`.
pub open spec fn agrees(r: Result<(), HydorError>, after: Machine, expected: Result<Machine, HydorError>) -> bool {
    match expected {
        Ok(m) => r is Ok && after == m,
        Err(e) => r == Err::<(), HydorError>(e),
    }
}

pub open spec fn spec_load_constant(m: Machine, index: int, offset: int, span: Span) -> Result<Machine, HydorError> {
    if index >= m.constants.len() || !string_ok(m.constants[index], m.strings) {
        Err(HydorError::MalformedBytecode { offset: offset as usize })
    } else {
        spec_push(m, m.constants[index], span)
    }
}

pub open spec fn spec_load_string(m: Machine, index: int, offset: int, span: Span) -> Result<Machine, HydorError> {
    if index >= m.strings.len() {
        Err(HydorError::MalformedBytecode { offset: offset as usize })
    } else {
        spec_push(m, RuntimeValue::StringLiteral(index as usize), span)
    }
}

fn saturate(x: i64) -> (r: i32)
    ensures
        r == clamp_i32(x as int),
{
    if x > i32::MAX as i64 {
        i32::MAX
    } else if x < i32::MIN as i64 {
        i32::MIN
    } else {
        x as i32
    }
}

/// The integer result of `op` on two integers, where no floating point is
/// needed to obtain it.
pub fn integer_arithmetic(op: ArithOp, a: i32, b: i32) -> (r: Option<i32>)
    ensures
        r == spec_int_arith(op, a, b),
{
    match op {
        ArithOp::Addition => Some(saturate(a as i64 + b as i64)),
        ArithOp::Subtraction => Some(saturate(a as i64 - b as i64)),
        ArithOp::Multiplication => {
            assert(-0x4000_0000_0000_0000 <= (a as int) * (b as int) <= 0x4000_0000_0000_0000)
                by (nonlinear_arith)
                requires
                    i32::MIN <= a <= i32::MAX,
                    i32::MIN <= b <= i32::MAX,
            ;
            Some(saturate(a as i64 * b as i64))
        },
        ArithOp::Division => {
            if b == 0 {
                return None;
            }
            let ua: u64 = if a < 0 {
                (0 - a as i64) as u64
            } else {
                a as u64
            };
            let ub: u64 = if b < 0 {
                (0 - b as i64) as u64
            } else {
                b as u64
            };
            if ua % ub != 0 {
                return None;
            }
            assert(ua / ub <= ua) by (nonlinear_arith)
                requires
                    ub >= 1,
            ;
            let q: i64 = (ua / ub) as i64;
            let signed: i64 = if (a < 0) != (b < 0) {
                -q
            } else {
                q
            };
            Some(saturate(signed))
        },
        ArithOp::Exponentiation => None,
    }
}

pub open spec fn spec_pop_record(m: Machine) -> Result<Machine, HydorError> {
    match spec_pop(m) {
        Ok((m1, sv)) => Ok(Machine { last_pop: Some(sv.value), ..m1 }),
        Err(e) => Err(e),
    }
}

/// What one decoded instruction other than `Halt` does.
pub open spec fn spec_execute_op(m: Machine, op: OpCode, operands: Seq<i32>, offset: int, span: Span) -> Result<Machine, HydorError> {
    match op {
        OpCode::LoadConstant => spec_load_constant(m, operands[0] as int, offset, span),
        OpCode::LoadString => spec_load_string(m, operands[0] as int, offset, span),
        OpCode::LoadNil => spec_push(m, RuntimeValue::NilLiteral, span),
        OpCode::LoadBoolTrue => spec_push(m, RuntimeValue::BooleanLiteral(true), span),
        OpCode::LoadBoolFalse => spec_push(m, RuntimeValue::BooleanLiteral(false), span),
        OpCode::Add => spec_binary(m, ArithOp::Addition),
        OpCode::Subtract => spec_binary(m, ArithOp::Subtraction),
        OpCode::Multiply => spec_binary(m, ArithOp::Multiplication),
        OpCode::Divide => spec_binary(m, ArithOp::Division),
        OpCode::Exponent => spec_binary(m, ArithOp::Exponentiation),
        OpCode::UnaryNegate => spec_negate(m, span),
        OpCode::UnaryNot => spec_not(m),
        OpCode::CompareLess => spec_compare(m, CompareOp::Less, span),
        OpCode::CompareLessEqual => spec_compare(m, CompareOp::LessEqual, span),
        OpCode::CompareGreater => spec_compare(m, CompareOp::Greater, span),
        OpCode::CompareGreaterEqual => spec_compare(m, CompareOp::GreaterEqual, span),
        OpCode::CompareEqual => spec_compare(m, CompareOp::Equal, span),
        OpCode::CompareNotEqual => spec_compare(m, CompareOp::NotEqual, span),
        OpCode::Pop => spec_pop_record(m),
        OpCode::Halt => Ok(m),
    }
}

/// One step of the machine.
pub enum Step {
    /// The instruction ran; the machine may now wait on a float task.
    Continue(Machine),
    /// The instruction at `ip` is `Halt`.
    Halt,
    Fail(HydorError),
}

/// Decodes the instruction at `ip`, moves `ip` past it and runs it.
pub open spec fn spec_step(m: Machine) -> Step {
    match spec_decode(m.instructions, m.ip) {
        None => Step::Fail(HydorError::MalformedBytecode { offset: m.ip as usize }),
        Some((op, operands)) => if op == OpCode::Halt {
            Step::Halt
        } else {
            let m1 = Machine { ip: m.ip + instruction_len(op), ..m };
            match spec_execute_op(m1, op, operands, m.ip, spec_span_at(m.debug, m.ip)) {
                Ok(m2) => Step::Continue(m2),
                Err(e) => Step::Fail(e),
            }
        },
    }
}

/// How a run ends.
pub enum Outcome {
    Halted(Machine),
    Suspended(Machine),
    Failed(HydorError),
}

/// Runs the machine until it halts, waits on a float task or faults.
pub open spec fn spec_run(m: Machine) -> Outcome
    decreases m.instructions.len() - m.ip,
{
    match spec_step(m) {
        Step::Halt => Outcome::Halted(m),
        Step::Fail(e) => Outcome::Failed(e),
        Step::Continue(m2) => if m2.pending is Some {
            Outcome::Suspended(m2)
        } else if m.ip < m2.ip <= m2.instructions.len() && m2.instructions == m.instructions {
            spec_run(m2)
        } else {
            Outcome::Failed(HydorError::MalformedBytecode { offset: m.ip as usize })
        },
    }
}

/// The machine that runs a compiled unit.
pub struct HydorVM {
    stack: Vec<StackValue>,
    last_pop: Option<RuntimeValue>,
    ip: usize,
    pending: Option<Pending>,
    instructions: Vec<u8>,
    string_table: Vec<String>,
    constants: Vec<RuntimeValue>,
    debug_info: DebugInfo,
    max_stack: usize,
}

impl HydorVM {
    pub closed spec fn model(&self) -> Machine {
        Machine {
            stack: self.stack@,
            last_pop: self.last_pop,
            ip: self.ip as int,
            pending: self.pending,
            strings: self.string_table@.map_values(|s: String| s@),
            instructions: self.instructions@,
            constants: self.constants@,
            debug: self.debug_info.entries@,
            max_stack: self.max_stack as int,
        }
    }

    pub open spec fn wf(&self) -> bool {
        spec_wf(self.model())
    }

    /// A machine for `bytecode` whose stack holds at most `MAX_STACK` values.
    pub fn new(bytecode: Bytecode) -> (r: HydorVM)
        ensures
            r.wf(),
            r.model().stack.len() == 0,
            r.model().last_pop is None,
            r.model().pending is None,
            r.model().ip == 0,
            r.model().max_stack == MAX_STACK,
            r.model().instructions == bytecode.instructions@,
            r.model().constants == bytecode.constants@,
            r.model().strings == bytecode.string_table@.map_values(|s: String| s@),
            r.model().debug == bytecode.debug_info.entries@,
    {
        HydorVM::with_stack_limit(bytecode, MAX_STACK)
    }

    /// A machine for `bytecode` whose stack holds at most `max_stack` values.
    pub fn with_stack_limit(bytecode: Bytecode, max_stack: usize) -> (r: HydorVM)
        ensures
            r.wf(),
            r.model().stack.len() == 0,
            r.model().last_pop is None,
            r.model().pending is None,
            r.model().ip == 0,
            r.model().max_stack == max_stack,
            r.model().instructions == bytecode.instructions@,
            r.model().constants == bytecode.constants@,
            r.model().strings == bytecode.string_table@.map_values(|s: String| s@),
            r.model().debug == bytecode.debug_info.entries@,
    {
        HydorVM {
            stack: Vec::new(),
            last_pop: None,
            ip: 0,
            pending: None,
            string_table: bytecode.string_table,
            instructions: bytecode.instructions,
            constants: bytecode.constants,
            debug_info: bytecode.debug_info,
            max_stack,
        }
    }

    fn push(&mut self, value: RuntimeValue, span: Span) -> (r: Result<(), HydorError>)
        ensures
            match spec_push(old(self).model(), value, span) {
                Ok(m) => r is Ok && final(self).model() == m,
                Err(e) => r == Err::<(), HydorError>(e) && final(self).model() == old(self).model(),
            },
    {
        if self.stack.len() >= self.max_stack {
            return Err(HydorError::StackOverflow { stack_length: self.stack.len(), span });
        }
        self.stack.push(StackValue { value, span });
        Ok(())
    }

    fn peek_offset(&self, n: usize) -> (r: Result<RuntimeValue, HydorError>)
        ensures
            n < self.model().stack.len() ==> r == Ok::<RuntimeValue, HydorError>(
                self.model().stack[self.model().stack.len() - 1 - n].value,
            ),
            n >= self.model().stack.len() ==> r == Err::<RuntimeValue, HydorError>(
                spec_underflow(self.model()),
            ),
    {
        let size = self.stack.len();
        if n >= size {
            return Err(HydorError::StackUnderflow { stack_length: size, span: Span::unknown() });
        }
        Ok(self.stack[size - 1 - n].value)
    }

    fn peek_span(&self, n: usize) -> (r: Result<Span, HydorError>)
        ensures
            n < self.model().stack.len() ==> r == Ok::<Span, HydorError>(
                self.model().stack[self.model().stack.len() - 1 - n].span,
            ),
            n >= self.model().stack.len() ==> r == Err::<Span, HydorError>(
                spec_underflow(self.model()),
            ),
    {
        let size = self.stack.len();
        if n >= size {
            return Err(HydorError::StackUnderflow { stack_length: size, span: Span::unknown() });
        }
        Ok(self.stack[size - 1 - n].span)
    }

    fn set_offset_value(&mut self, n: usize, new_value: RuntimeValue) -> (r: Result<(), HydorError>)
        ensures
            n < old(self).model().stack.len() ==> r is Ok && final(self).model() == (Machine {
                stack: old(self).model().stack.update(
                    old(self).model().stack.len() - 1 - n,
                    StackValue {
                        value: new_value,
                        span: old(self).model().stack[old(self).model().stack.len() - 1 - n].span,
                    },
                ),
                ..old(self).model()
            }),
            n >= old(self).model().stack.len() ==> r == Err::<(), HydorError>(
                spec_underflow(old(self).model()),
            ) && final(self).model() == old(self).model(),
    {
        let size = self.stack.len();
        if n >= size {
            return Err(HydorError::StackUnderflow { stack_length: size, span: Span::unknown() });
        }
        let span = self.stack[size - 1 - n].span;
        self.stack.set(size - 1 - n, StackValue { value: new_value, span });
        Ok(())
    }

    fn pop_with_span(&mut self) -> (r: Result<(RuntimeValue, Span), HydorError>)
        ensures
            match spec_pop(old(self).model()) {
                Ok((m, sv)) => r == Ok::<(RuntimeValue, Span), HydorError>((sv.value, sv.span))
                    && final(self).model() == m,
                Err(e) => r == Err::<(RuntimeValue, Span), HydorError>(e) && final(self).model()
                    == old(self).model(),
            },
    {
        match self.stack.pop() {
            Some(sv) => Ok((sv.value, sv.span)),
            None => Err(HydorError::StackUnderflow { stack_length: 0, span: Span::unknown() }),
        }
    }

    fn pop_value(&mut self) -> (r: Result<RuntimeValue, HydorError>)
        ensures
            match spec_pop(old(self).model()) {
                Ok((m, sv)) => r == Ok::<RuntimeValue, HydorError>(sv.value) && final(self).model()
                    == m,
                Err(e) => r == Err::<RuntimeValue, HydorError>(e) && final(self).model() == old(
                    self,
                ).model(),
            },
    {
        match self.stack.pop() {
            Some(sv) => Ok(sv.value),
            None => Err(HydorError::StackUnderflow { stack_length: 0, span: Span::unknown() }),
        }
    }

    /// The text of string-table entry `index`.
    pub fn resolve_string(&self, index: usize) -> (r: &str)
        requires
            index < self.model().strings.len(),
        ensures
            r@ == self.model().strings[index as int],
    {
        self.string_table[index].as_str()
    }

    /// The number of entries in the string table.
    pub fn string_count(&self) -> (r: usize)
        ensures
            r == self.model().strings.len(),
    {
        self.string_table.len()
    }

    /// The value most recently removed by `Pop`.
    pub fn last_popped(&self) -> (r: Option<RuntimeValue>)
        ensures
            r == self.model().last_pop,
    {
        self.last_pop
    }

    /// Interns `s`: the index of an equal entry where the table holds one,
    /// else the index of `s` appended to the table.
    pub fn intern_string(&mut self, s: String) -> (r: usize)
        ensures
            (final(self).model().strings, r as int) == spec_intern(old(self).model().strings, s@),
            final(self).model() == (Machine {
                strings: final(self).model().strings,
                ..old(self).model()
            }),
    {
        let ghost strings = old(self).model().strings;
        let n = self.string_table.len();
        let mut i: usize = 0;
        while i < n
            invariant
                n == self.string_table@.len(),
                i <= n,
                strings == self.string_table@.map_values(|s: String| s@),
                self.model() == old(self).model(),
                spec_find(strings.subrange(0, i as int), s@) is None,
            decreases n - i,
        {
            assert(strings.subrange(0, i as int + 1).drop_last() =~= strings.subrange(0, i as int));
            if self.string_table[i] == s {
                assert(strings.subrange(0, i as int + 1).last() == s@);
                proof {
                    lemma_find_prefix(strings, s@, i as int + 1);
                }
                return i;
            }
            i = i + 1;
        }
        assert(strings.subrange(0, n as int) =~= strings);
        self.string_table.push(s);
        assert(self.string_table@.map_values(|s: String| s@) =~= strings.push(s@));
        n
    }
}

impl HydorVM {
    fn load_constant(&mut self, index: usize, offset: usize, span: Span) -> (r: Result<(), HydorError>)
        requires
            old(self).wf(),
        ensures
            agrees(
                r,
                final(self).model(),
                spec_load_constant(old(self).model(), index as int, offset as int, span),
            ),
            r is Ok ==> final(self).wf(),
    {
        if index >= self.constants.len() {
            return Err(HydorError::MalformedBytecode { offset });
        }
        let constant = self.constants[index];
        if let RuntimeValue::StringLiteral(i) = constant {
            if i >= self.string_table.len() {
                return Err(HydorError::MalformedBytecode { offset });
            }
        }
        self.push(constant, span)
    }

    fn load_string(&mut self, index: usize, offset: usize, span: Span) -> (r: Result<(), HydorError>)
        requires
            old(self).wf(),
        ensures
            agrees(
                r,
                final(self).model(),
                spec_load_string(old(self).model(), index as int, offset as int, span),
            ),
            r is Ok ==> final(self).wf(),
    {
        if index >= self.string_table.len() {
            return Err(HydorError::MalformedBytecode { offset });
        }
        self.push(RuntimeValue::StringLiteral(index), span)
    }

    fn push_literal(&mut self, value: RuntimeValue, span: Span) -> (r: Result<(), HydorError>)
        requires
            old(self).wf(),
            !(value is StringLiteral),
        ensures
            agrees(r, final(self).model(), spec_push(old(self).model(), value, span)),
            r is Ok ==> final(self).wf(),
    {
        self.push(value, span)
    }

    /// Concatenates two table entries, interns the text and pushes its index.
    fn string_concat(&mut self, left: usize, left_span: Span, right: usize, right_span: Span) -> (r: Result<(), HydorError>)
        requires
            old(self).wf(),
            left < old(self).model().strings.len(),
            right < old(self).model().strings.len(),
        ensures
            agrees(
                r,
                final(self).model(),
                spec_concat(old(self).model(), left, right, left_span.spec_merge(right_span)),
            ),
            r is Ok ==> final(self).wf(),
    {
        let mut text = String::from_str(self.resolve_string(left));
        text.append(self.resolve_string(right));
        let index = self.intern_string(text);
        let span = left_span.merge(&right_span);
        proof {
            lemma_find_found(old(self).model().strings, text@);
            let m = self.model();
            if let Some(v) = m.last_pop {
                assert(string_ok(v, old(self).model().strings));
            }
            assert forall|i: int| 0 <= i < m.stack.len() implies string_ok(
                #[trigger] m.stack[i].value,
                m.strings,
            ) by {
                assert(string_ok(old(self).model().stack[i].value, old(self).model().strings));
            }
        }
        self.push(RuntimeValue::StringLiteral(index), span)
    }

    /// Applies `op` to two popped operands other than a pair of strings to add.
    fn numeric_operation(&mut self, op: ArithOp, left: StackValue, right: StackValue) -> (r: Result<(), HydorError>)
        requires
            old(self).wf(),
            old(self).model().pending is None,
            string_ok(left.value, old(self).model().strings),
            string_ok(right.value, old(self).model().strings),
            !(op == ArithOp::Addition && left.value is StringLiteral && right.value is StringLiteral),
        ensures
            agrees(r, final(self).model(), spec_arith_values(old(self).model(), op, left, right)),
            r is Ok ==> final(self).wf(),
    {
        if !left.value.is_number() {
            return Err(
                HydorError::ArithmeticError {
                    operation: op,
                    left_type: left.value.get_type(),
                    right_type: right.value.get_type(),
                    span: left.span,
                },
            );
        }
        if !right.value.is_number() {
            return Err(
                HydorError::ArithmeticError {
                    operation: op,
                    left_type: left.value.get_type(),
                    right_type: right.value.get_type(),
                    span: right.span,
                },
            );
        }
        let span = left.span.merge(&right.span);
        if let (RuntimeValue::IntegerLiteral(a), RuntimeValue::IntegerLiteral(b)) = (
            left.value,
            right.value,
        ) {
            if let Some(v) = integer_arithmetic(op, a, b) {
                return self.push(RuntimeValue::IntegerLiteral(v), span);
            }
        }
        let task = FloatTask { operation: op, left: left.value, right: right.value };
        self.pending = Some(Pending { task, span });
        Ok(())
    }

    /// Pops the right operand, then the left: adds two numbers, or
    /// concatenates two strings.
    fn binary_op_add(&mut self) -> (r: Result<(), HydorError>)
        requires
            old(self).wf(),
            old(self).model().pending is None,
        ensures
            agrees(r, final(self).model(), spec_binary(old(self).model(), ArithOp::Addition)),
            r is Ok ==> final(self).wf(),
    {
        self.binary_op_numeric(ArithOp::Addition)
    }

    /// Pops the right operand, then the left, and applies `op`.
    fn binary_op_numeric(&mut self, op: ArithOp) -> (r: Result<(), HydorError>)
        requires
            old(self).wf(),
            old(self).model().pending is None,
        ensures
            agrees(r, final(self).model(), spec_binary(old(self).model(), op)),
            r is Ok ==> final(self).wf(),
    {
        let ghost m0 = self.model();
        let (right, right_span) = match self.pop_with_span() {
            Ok(x) => x,
            Err(e) => {
                return Err(e);
            },
        };
        let ghost m1 = self.model();
        let (left, left_span) = match self.pop_with_span() {
            Ok(x) => x,
            Err(e) => {
                return Err(e);
            },
        };
        proof {
            assert(string_ok(m0.stack[m0.stack.len() - 1].value, m0.strings));
            assert(string_ok(m0.stack[m0.stack.len() - 2].value, m0.strings));
            assert(m1.stack[m1.stack.len() - 1] == m0.stack[m0.stack.len() - 2]);
        }
        if op == ArithOp::Addition {
            if let (RuntimeValue::StringLiteral(li), RuntimeValue::StringLiteral(ri)) = (left, right) {
                return self.string_concat(li, left_span, ri, right_span);
            }
        }
        self.numeric_operation(
            op,
            StackValue { value: left, span: left_span },
            StackValue { value: right, span: right_span },
        )
    }
}

impl HydorVM {
    fn unary_operation(&mut self, opcode: OpCode, span: Span) -> (r: Result<(), HydorError>)
        requires
            old(self).wf(),
            opcode == OpCode::UnaryNegate || opcode == OpCode::UnaryNot,
        ensures
            opcode == OpCode::UnaryNegate ==> agrees(
                r,
                final(self).model(),
                spec_negate(old(self).model(), span),
            ),
            opcode == OpCode::UnaryNot ==> agrees(r, final(self).model(), spec_not(old(self).model())),
            r is Ok ==> final(self).wf(),
    {
        if opcode == OpCode::UnaryNegate {
            self.unary_negation_operation(span)
        } else {
            self.unary_not_operation()
        }
    }

    /// Negates the top value in place.
    fn unary_negation_operation(&mut self, span: Span) -> (r: Result<(), HydorError>)
        requires
            old(self).wf(),
        ensures
            agrees(r, final(self).model(), spec_negate(old(self).model(), span)),
            r is Ok ==> final(self).wf(),
    {
        let target = match self.peek_offset(0) {
            Ok(v) => v,
            Err(e) => {
                return Err(e);
            },
        };
        let target_span = match self.peek_span(0) {
            Ok(v) => v,
            Err(e) => {
                return Err(e);
            },
        };
        match target {
            RuntimeValue::IntegerLiteral(a) => {
                let negated = if a == i32::MIN {
                    a
                } else {
                    -a
                };
                self.set_offset_value(0, RuntimeValue::IntegerLiteral(negated))
            },
            RuntimeValue::FloatLiteral(bits) => {
                self.set_offset_value(0, RuntimeValue::FloatLiteral(negate_float_bits(bits)))
            },
            _ => Err(
                HydorError::UnaryOperationError {
                    operation: UnaryOp::Negation,
                    operand_type: target.get_type(),
                    span: span.merge(&target_span),
                },
            ),
        }
    }

    /// Replaces the top value by the boolean opposite of its truthiness.
    fn unary_not_operation(&mut self) -> (r: Result<(), HydorError>)
        requires
            old(self).wf(),
        ensures
            agrees(r, final(self).model(), spec_not(old(self).model())),
            r is Ok ==> final(self).wf(),
    {
        let target = match self.peek_offset(0) {
            Ok(v) => v,
            Err(e) => {
                return Err(e);
            },
        };
        if target.is_truthy() {
            self.set_offset_value(0, RuntimeValue::BooleanLiteral(false))
        } else {
            self.set_offset_value(0, RuntimeValue::BooleanLiteral(true))
        }
    }

    /// Pops the right operand, then the left, and pushes whether `op` holds.
    fn compare_operation(&mut self, op: CompareOp, span: Span) -> (r: Result<(), HydorError>)
        requires
            old(self).wf(),
            old(self).model().pending is None,
        ensures
            agrees(r, final(self).model(), spec_compare(old(self).model(), op, span)),
            r is Ok ==> final(self).wf(),
    {
        let ghost m0 = self.model();
        let right_val = match self.pop_value() {
            Ok(x) => x,
            Err(e) => {
                return Err(e);
            },
        };
        let ghost m1 = self.model();
        let left_val = match self.pop_value() {
            Ok(x) => x,
            Err(e) => {
                return Err(e);
            },
        };
        proof {
            assert(string_ok(m0.stack[m0.stack.len() - 1].value, m0.strings));
            assert(string_ok(m0.stack[m0.stack.len() - 2].value, m0.strings));
            assert(m1.stack[m1.stack.len() - 1] == m0.stack[m0.stack.len() - 2]);
        }
        if left_val.is_number() && right_val.is_number() {
            let ordering = order_numbers(left_val, right_val);
            let holds = match op {
                CompareOp::Less => ordering == NumberOrdering::Less,
                CompareOp::LessEqual => ordering == NumberOrdering::Less || ordering
                    == NumberOrdering::Equal,
                CompareOp::Greater => ordering == NumberOrdering::Greater,
                CompareOp::GreaterEqual => ordering == NumberOrdering::Greater || ordering
                    == NumberOrdering::Equal,
                CompareOp::Equal => ordering == NumberOrdering::Equal,
                CompareOp::NotEqual => ordering != NumberOrdering::Equal,
            };
            return self.push(RuntimeValue::BooleanLiteral(holds), span);
        }
        match op {
            CompareOp::Equal => {
                let result = self.values_equal(left_val, right_val);
                self.push(RuntimeValue::BooleanLiteral(result), span)
            },
            CompareOp::NotEqual => {
                let result = self.values_equal(left_val, right_val);
                self.push(RuntimeValue::BooleanLiteral(!result), span)
            },
            _ => {
                let blame_type = if !left_val.is_number() {
                    left_val.get_type()
                } else {
                    right_val.get_type()
                };
                Err(HydorError::ComparisonOperationError { operation: op, blame_type, span })
            },
        }
    }

    /// Equality of two values, by the rule of `spec_values_equal`.
    pub fn values_equal(&self, left: RuntimeValue, right: RuntimeValue) -> (r: bool)
        requires
            string_ok(left, self.model().strings),
            string_ok(right, self.model().strings),
        ensures
            r == spec_values_equal(self.model().strings, left, right),
    {
        match (left, right) {
            (RuntimeValue::IntegerLiteral(a), RuntimeValue::IntegerLiteral(b)) => a == b,
            (RuntimeValue::FloatLiteral(a), RuntimeValue::FloatLiteral(b)) => float_equal(a, b),
            (RuntimeValue::IntegerLiteral(a), RuntimeValue::FloatLiteral(b)) => {
                float_equals_integer(b, a)
            },
            (RuntimeValue::FloatLiteral(a), RuntimeValue::IntegerLiteral(b)) => {
                float_equals_integer(a, b)
            },
            (RuntimeValue::BooleanLiteral(a), RuntimeValue::BooleanLiteral(b)) => a == b,
            (RuntimeValue::StringLiteral(a), RuntimeValue::StringLiteral(b)) => {
                self.string_table[a] == self.string_table[b]
            },
            (RuntimeValue::NilLiteral, RuntimeValue::NilLiteral) => true,
            _ => false,
        }
    }

    /// Hands back the result of the float task: narrowed to an integer where
    /// neither operand was a float and the result is whole.
    pub fn complete_arithmetic(&mut self, result: FloatResult) -> (r: Result<(), HydorError>)
        requires
            old(self).wf(),
            old(self).model().pending is Some,
        ensures
            agrees(r, final(self).model(), spec_complete_arithmetic(old(self).model(), result)),
            r is Ok ==> final(self).wf() && final(self).model().pending is None,
    {
        match self.pending {
            Some(Pending { task, span }) => {
                self.pending = None;
                let value = if !task.left.is_float() && !task.right.is_float() && result.is_whole {
                    RuntimeValue::IntegerLiteral(result.as_integer)
                } else {
                    RuntimeValue::FloatLiteral(result.bits)
                };
                self.push(value, span)
            },
            None => Ok(()),
        }
    }

    /// The float task that the machine waits on, if any.
    pub fn pending_task(&self) -> (r: Option<FloatTask>)
        ensures
            r == (match self.model().pending {
                Some(p) => Some(p.task),
                None => None::<FloatTask>,
            }),
    {
        match self.pending {
            Some(p) => Some(p.task),
            None => None,
        }
    }
}

impl HydorVM {
    /// Runs one decoded instruction other than `Halt`.
    fn execute_op(&mut self, op: OpCode, operands: &Vec<i32>, offset: usize, span: Span) -> (r: Result<(), HydorError>)
        requires
            old(self).wf(),
            old(self).model().pending is None,
            operands@.len() == operand_widths(op).len(),
            forall|i: int| 0 <= i < operands@.len() ==> 0 <= #[trigger] operands@[i],
            op != OpCode::Halt,
        ensures
            agrees(
                r,
                final(self).model(),
                spec_execute_op(old(self).model(), op, operands@, offset as int, span),
            ),
            r is Ok ==> final(self).wf(),
    {
        match op {
            OpCode::LoadConstant => {
                let index = operands[0];
                self.load_constant(index as usize, offset, span)
            },
            OpCode::LoadString => {
                let index = operands[0];
                self.load_string(index as usize, offset, span)
            },
            OpCode::LoadNil => self.push_literal(RuntimeValue::NilLiteral, span),
            OpCode::LoadBoolTrue => self.push_literal(RuntimeValue::BooleanLiteral(true), span),
            OpCode::LoadBoolFalse => self.push_literal(RuntimeValue::BooleanLiteral(false), span),
            OpCode::Add => self.binary_op_add(),
            OpCode::Subtract => self.binary_op_numeric(ArithOp::Subtraction),
            OpCode::Multiply => self.binary_op_numeric(ArithOp::Multiplication),
            OpCode::Divide => self.binary_op_numeric(ArithOp::Division),
            OpCode::Exponent => self.binary_op_numeric(ArithOp::Exponentiation),
            OpCode::UnaryNegate => self.unary_operation(op, span),
            OpCode::UnaryNot => self.unary_operation(op, span),
            OpCode::CompareLess => self.compare_operation(CompareOp::Less, span),
            OpCode::CompareLessEqual => self.compare_operation(CompareOp::LessEqual, span),
            OpCode::CompareGreater => self.compare_operation(CompareOp::Greater, span),
            OpCode::CompareGreaterEqual => self.compare_operation(CompareOp::GreaterEqual, span),
            OpCode::CompareEqual => self.compare_operation(CompareOp::Equal, span),
            OpCode::CompareNotEqual => self.compare_operation(CompareOp::NotEqual, span),
            OpCode::Pop => {
                let ghost m0 = self.model();
                let value = match self.pop_value() {
                    Ok(v) => v,
                    Err(e) => {
                        return Err(e);
                    },
                };
                assert(string_ok(m0.stack[m0.stack.len() - 1].value, m0.strings));
                self.last_pop = Some(value);
                Ok(())
            },
            OpCode::Halt => Ok(()),
        }
    }

    /// Runs the program from the current instruction until it executes
    /// `Halt`, hands out a float task, or faults. After a float task is
    /// answered with `complete_arithmetic`, calling this
    /// again carries on with the next instruction.
    pub fn execute_bytecode(&mut self) -> (r: Result<Execution, HydorError>)
        requires
            old(self).wf(),
            old(self).model().pending is None,
        ensures
            match spec_run(old(self).model()) {
                Outcome::Halted(m) => r == Ok::<Execution, HydorError>(Execution::Halted)
                    && final(self).model() == m,
                Outcome::Suspended(m) => m.pending matches Some(p) && r == Ok::<
                    Execution,
                    HydorError,
                >(Execution::AwaitingFloat(p.task)) && final(self).model() == m,
                Outcome::Failed(e) => r == Err::<Execution, HydorError>(e),
            },
            r is Ok ==> final(self).wf(),
    {
        loop
            invariant
                self.wf(),
                self.model().pending is None,
                spec_run(self.model()) == spec_run(old(self).model()),
            decreases self.instructions@.len() - self.ip,
        {
            let offset = self.ip;
            let (op, operands) = match read_instruction(&self.instructions, offset) {
                Some(decoded) => decoded,
                None => {
                    return Err(HydorError::MalformedBytecode { offset });
                },
            };
            let span = self.debug_info.get_span(offset);
            let len = self.instructions.len();
            proof {
                let n = operand_widths(op).len();
                assert(offset + 1 + 2 * n <= len);
                assert forall|i: int| 0 <= i < operands@.len() implies 0 <= #[trigger] operands@[i] by {
                    assert(operands@[i] == be_u16_at(self.instructions@, offset + 1 + 2 * i) as i32);
                }
            }
            if op == OpCode::Halt {
                return Ok(Execution::Halted);
            }
            let ghost before = self.model();
            proof {
                crate::bytecode::lemma_operand_widths_len(op);
            }
            self.ip = offset + 1 + 2 * operands.len();
            match self.execute_op(op, &operands, offset, span) {
                Ok(()) => {},
                Err(e) => {
                    return Err(e);
                },
            }
            if let Some(p) = self.pending {
                return Ok(Execution::AwaitingFloat(p.task));
            }
        }
    }
}

/// A found index holds the string, and no earlier index does.
proof fn lemma_find_found(strings: Seq<Seq<char>>, s: Seq<char>)
    ensures
        match spec_find(strings, s) {
            Some(i) => 0 <= i < strings.len() && strings[i] == s && forall|j: int|
                0 <= j < i ==> strings[j] != s,
            None => forall|j: int| 0 <= j < strings.len() ==> strings[j] != s,
        },
    decreases strings.len(),
{
    if strings.len() > 0 {
        let prefix = strings.drop_last();
        lemma_find_found(prefix, s);
        assert forall|j: int| 0 <= j < prefix.len() implies prefix[j] == strings[j] by {}
    }
}

/// A first index found in a prefix is the first index in the whole sequence.
proof fn lemma_find_prefix(strings: Seq<Seq<char>>, s: Seq<char>, k: int)
    requires
        0 <= k <= strings.len(),
        spec_find(strings.subrange(0, k), s) is Some,
    ensures
        spec_find(strings, s) == spec_find(strings.subrange(0, k), s),
    decreases strings.len() - k,
{
    if k < strings.len() {
        assert(strings.subrange(0, k + 1).drop_last() =~= strings.subrange(0, k));
        lemma_find_prefix(strings, s, k + 1);
    } else {
        assert(strings.subrange(0, k) =~= strings);
    }
}

/// Interning is idempotent: interning a text that was just interned gives
/// the same index and leaves the table as it is; the entry at that index is
/// the text, and a table without duplicates stays without duplicates.
pub proof fn lemma_intern_idempotent(strings: Seq<Seq<char>>, s: Seq<char>)
    ensures
        ({
            let (t1, i1) = spec_intern(strings, s);
            let (t2, i2) = spec_intern(t1, s);
            &&& 0 <= i1 < t1.len()
            &&& t1[i1] == s
            &&& i2 == i1
            &&& t2 == t1
            &&& no_duplicates(strings) ==> no_duplicates(t1)
        }),
{
    lemma_find_found(strings, s);
    let (t1, i1) = spec_intern(strings, s);
    lemma_find_found(t1, s);
    if spec_find(strings, s) is None {
        assert(t1.drop_last() =~= strings);
        assert(spec_find(t1, s) == Some(strings.len() as int));
    }
}

/// Concatenating the same two entries again finds the entry made the first
/// time: the table does not grow and the same index is pushed.
pub proof fn lemma_concat_reuses_entry(m: Machine, li: usize, ri: usize, span1: Span, span2: Span)
    requires
        li < m.strings.len(),
        ri < m.strings.len(),
        m.strings.len() < usize::MAX,
        spec_concat(m, li, ri, span1) is Ok,
    ensures
        ({
            let m1 = spec_concat(m, li, ri, span1)->Ok_0;
            let idx = m1.stack.last().value;
            &&& spec_concat(m1, li, ri, span2) is Ok ==> {
                let m2 = spec_concat(m1, li, ri, span2)->Ok_0;
                &&& m2.strings == m1.strings
                &&& m2.stack.last().value == idx
            }
            &&& m1.strings.len() <= m.strings.len() + 1
            &&& idx matches RuntimeValue::StringLiteral(i) && m1.strings[i as int] == m.strings[li as int] + m.strings[ri as int]
        }),
{
    let text = m.strings[li as int] + m.strings[ri as int];
    lemma_intern_idempotent(m.strings, text);
    let (t1, i1) = spec_intern(m.strings, text);
    assert(t1[li as int] == m.strings[li as int]);
    assert(t1[ri as int] == m.strings[ri as int]);
    let m1 = spec_concat(m, li, ri, span1)->Ok_0;
    assert(m1.strings == t1);
    assert(m1.stack.last().value == RuntimeValue::StringLiteral(i1 as usize));
}

/// The stack's bounds: pushing onto a full stack fails with an overflow and
/// leaves nothing changed; popping from an empty stack fails with an underflow.
pub proof fn lemma_stack_bounds(m: Machine, v: RuntimeValue, span: Span)
    ensures
        m.stack.len() >= m.max_stack ==> spec_push(m, v, span) == Err::<Machine, HydorError>(
            HydorError::StackOverflow { stack_length: m.stack.len() as usize, span },
        ),
        m.stack.len() < m.max_stack ==> spec_push(m, v, span) is Ok,
        m.stack.len() == 0 ==> spec_pop(m) == Err::<(Machine, StackValue), HydorError>(
            HydorError::StackUnderflow { stack_length: 0, span: Span::spec_unknown() },
        ),
{
}

/// An integer and a float are never of one static type, so the checker
/// rejects `==` between them; at run time the machine compares them by value
/// and never fails: it pushes whether the widened integer and the float are
/// ordered as equal.
pub proof fn lemma_mixed_equality(m: Machine, a: i32, bits: u64, span: Span)
    requires
        m.stack.len() < m.max_stack,
    ensures
        crate::type_checker::spec_binary_type(
            crate::ast::BinaryOperator::Equal,
            crate::runtime_value::Type::Integer,
            crate::runtime_value::Type::Float,
        ) is None,
        spec_compare_values(
            m,
            CompareOp::Equal,
            RuntimeValue::IntegerLiteral(a),
            RuntimeValue::FloatLiteral(bits),
            span,
        ) == spec_push(
            m,
            RuntimeValue::BooleanLiteral(
                spec_number_order(RuntimeValue::IntegerLiteral(a), RuntimeValue::FloatLiteral(bits))
                    == NumberOrdering::Equal,
            ),
            span,
        ),
        spec_compare_values(
            m,
            CompareOp::Equal,
            RuntimeValue::IntegerLiteral(a),
            RuntimeValue::FloatLiteral(bits),
            span,
        ) is Ok,
{
}

} // verus!
