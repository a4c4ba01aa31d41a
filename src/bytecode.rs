use vstd::prelude::*;
use byteorder::{BigEndian, ByteOrder};
use crate::runtime_value::RuntimeValue;
use crate::span::Span;

verus! {

/// The operations of the machine. Each is one byte in the instruction stream,
/// followed by its operands.
#[derive(Debug, Clone, Copy, PartialEq, Eq, Structural)]
pub enum OpCode {
    Halt,
    Pop,
    LoadConstant,
    LoadString,
    LoadNil,
    LoadBoolTrue,
    LoadBoolFalse,
    Add,
    Subtract,
    Multiply,
    Divide,
    Exponent,
    UnaryNegate,
    UnaryNot,
    CompareLess,
    CompareLessEqual,
    CompareGreater,
    CompareGreaterEqual,
    CompareEqual,
    CompareNotEqual,
}

/// The byte that stands for each opcode.
pub open spec fn opcode_byte(op: OpCode) -> u8 {
    match op {
        OpCode::Halt => 0x01,
        OpCode::Pop => 0x02,
        OpCode::LoadConstant => 0x03,
        OpCode::LoadString => 0x04,
        OpCode::LoadNil => 0x05,
        OpCode::LoadBoolTrue => 0x06,
        OpCode::LoadBoolFalse => 0x07,
        OpCode::Add => 0x08,
        OpCode::Subtract => 0x09,
        OpCode::Multiply => 0x0a,
        OpCode::Divide => 0x0b,
        OpCode::Exponent => 0x0c,
        OpCode::UnaryNegate => 0x0d,
        OpCode::UnaryNot => 0x0e,
        OpCode::CompareLess => 0x0f,
        OpCode::CompareLessEqual => 0x10,
        OpCode::CompareGreater => 0x11,
        OpCode::CompareGreaterEqual => 0x12,
        OpCode::CompareEqual => 0x13,
        OpCode::CompareNotEqual => 0x14,
    }
}

/// The opcode that a byte stands for, if any.
pub open spec fn byte_opcode(b: u8) -> Option<OpCode> {
    if exists|op: OpCode| opcode_byte(op) == b {
        Some(choose|op: OpCode| opcode_byte(op) == b)
    } else {
        None
    }
}

/// The width in bytes of each operand of an opcode.
pub open spec fn operand_widths(op: OpCode) -> Seq<usize> {
    match op {
        OpCode::LoadConstant | OpCode::LoadString => seq![2usize],
        _ => seq![],
    }
}

pub open spec fn opcode_name(op: OpCode) -> Seq<char> {
    match op {
        OpCode::Halt => "HALT"@,
        OpCode::Pop => "POP"@,
        OpCode::LoadConstant => "LOAD_CONSTANT"@,
        OpCode::LoadString => "LOAD_STRING"@,
        OpCode::LoadNil => "LOAD_NIL"@,
        OpCode::LoadBoolTrue => "LOAD_BOOL_TRUE"@,
        OpCode::LoadBoolFalse => "LOAD_BOOL_FALSE"@,
        OpCode::Add => "ADD"@,
        OpCode::Subtract => "SUBTRACT"@,
        OpCode::Multiply => "MULTIPLY"@,
        OpCode::Divide => "DIVIDE"@,
        OpCode::Exponent => "EXPONENT"@,
        OpCode::UnaryNegate => "UNARY_NEGATE"@,
        OpCode::UnaryNot => "UNARY_NOT"@,
        OpCode::CompareLess => "COMPARE_LESS"@,
        OpCode::CompareLessEqual => "COMPARE_LESS_EQUAL"@,
        OpCode::CompareGreater => "COMPARE_GREATER"@,
        OpCode::CompareGreaterEqual => "COMPARE_GREATER_EQUAL"@,
        OpCode::CompareEqual => "COMPARE_EQUAL"@,
        OpCode::CompareNotEqual => "COMPARE_NOT_EQUAL"@,
    }
}

pub open spec fn sum_widths(widths: Seq<usize>) -> int
    decreases widths.len(),
{
    if widths.len() == 0 {
        0
    } else {
        widths.last() + sum_widths(widths.drop_last())
    }
}

/// The length of an encoded instruction: the opcode byte and its operands.
pub open spec fn instruction_len(op: OpCode) -> int {
    1 + sum_widths(operand_widths(op))
}

/// An operand list that `make` can encode for `op`: one operand per declared
/// width, each an unsigned 16-bit index.
pub open spec fn valid_operands(op: OpCode, operands: Seq<i32>) -> bool {
    &&& operands.len() == operand_widths(op).len()
    &&& forall|i: int| 0 <= i < operands.len() ==> 0 <= #[trigger] operands[i] <= 0xffff
}

/// The big-endian value of the two bytes at `at`.
pub open spec fn be_u16_at(bytes: Seq<u8>, at: int) -> int {
    bytes[at] * 256 + bytes[at + 1]
}

/// An instruction as bytes: the opcode byte, then each operand as two bytes,
/// most significant first.
pub open spec fn spec_encode(op: OpCode, operands: Seq<i32>) -> Seq<u8> {
    Seq::new(
        (1 + 2 * operands.len()) as nat,
        |j: int|
            if j == 0 {
                opcode_byte(op)
            } else if (j - 1) % 2 == 0 {
                (operands[(j - 1) / 2] / 256) as u8
            } else {
                (operands[(j - 1) / 2] % 256) as u8
            },
    )
}

/// The instruction that starts at `offset`, if the bytes there hold a whole one.
pub open spec fn spec_decode(bytes: Seq<u8>, offset: int) -> Option<(OpCode, Seq<i32>)> {
    if offset < 0 || offset >= bytes.len() {
        None
    } else {
        match byte_opcode(bytes[offset]) {
            None => None,
            Some(op) => {
                let n = operand_widths(op).len();
                if offset + 1 + 2 * n > bytes.len() {
                    None
                } else {
                    Some((op, Seq::new(n, |k: int| be_u16_at(bytes, offset + 1 + 2 * k) as i32)))
                }
            },
        }
    }
}

/// The static description of an opcode.
pub struct Definition {
    pub name: &'static str,
    pub operands_width: Vec<usize>,
}

proof fn lemma_opcode_byte_injective(a: OpCode, b: OpCode)
    ensures
        opcode_byte(a) == opcode_byte(b) ==> a == b,
{
}

/// Each opcode's byte stands for that opcode and no other.
pub proof fn lemma_byte_opcode(op: OpCode)
    ensures
        byte_opcode(opcode_byte(op)) == Some(op),
{
    let b = opcode_byte(op);
    let c = choose|o: OpCode| opcode_byte(o) == b;
    lemma_opcode_byte_injective(c, op);
}

impl OpCode {
    pub fn to_byte(self) -> (r: u8)
        ensures
            r == opcode_byte(self),
    {
        match self {
            OpCode::Halt => 0x01,
            OpCode::Pop => 0x02,
            OpCode::LoadConstant => 0x03,
            OpCode::LoadString => 0x04,
            OpCode::LoadNil => 0x05,
            OpCode::LoadBoolTrue => 0x06,
            OpCode::LoadBoolFalse => 0x07,
            OpCode::Add => 0x08,
            OpCode::Subtract => 0x09,
            OpCode::Multiply => 0x0a,
            OpCode::Divide => 0x0b,
            OpCode::Exponent => 0x0c,
            OpCode::UnaryNegate => 0x0d,
            OpCode::UnaryNot => 0x0e,
            OpCode::CompareLess => 0x0f,
            OpCode::CompareLessEqual => 0x10,
            OpCode::CompareGreater => 0x11,
            OpCode::CompareGreaterEqual => 0x12,
            OpCode::CompareEqual => 0x13,
            OpCode::CompareNotEqual => 0x14,
        }
    }

    pub fn get_definition(opcode: OpCode) -> (d: Definition)
        ensures
            d.operands_width@ == operand_widths(opcode),
            d.name@ == opcode_name(opcode),
    {
        match opcode {
            OpCode::Halt => Definition { name: "HALT", operands_width: vec![] },
            OpCode::Pop => Definition { name: "POP", operands_width: vec![] },
            OpCode::LoadConstant => Definition { name: "LOAD_CONSTANT", operands_width: vec![2] },
            OpCode::LoadString => Definition { name: "LOAD_STRING", operands_width: vec![2] },
            OpCode::LoadNil => Definition { name: "LOAD_NIL", operands_width: vec![] },
            OpCode::LoadBoolTrue => Definition { name: "LOAD_BOOL_TRUE", operands_width: vec![] },
            OpCode::LoadBoolFalse => Definition { name: "LOAD_BOOL_FALSE", operands_width: vec![] },
            OpCode::Add => Definition { name: "ADD", operands_width: vec![] },
            OpCode::Subtract => Definition { name: "SUBTRACT", operands_width: vec![] },
            OpCode::Multiply => Definition { name: "MULTIPLY", operands_width: vec![] },
            OpCode::Divide => Definition { name: "DIVIDE", operands_width: vec![] },
            OpCode::Exponent => Definition { name: "EXPONENT", operands_width: vec![] },
            OpCode::UnaryNegate => Definition { name: "UNARY_NEGATE", operands_width: vec![] },
            OpCode::UnaryNot => Definition { name: "UNARY_NOT", operands_width: vec![] },
            OpCode::CompareLess => Definition { name: "COMPARE_LESS", operands_width: vec![] },
            OpCode::CompareLessEqual => Definition {
                name: "COMPARE_LESS_EQUAL",
                operands_width: vec![],
            },
            OpCode::CompareGreater => Definition {
                name: "COMPARE_GREATER",
                operands_width: vec![],
            },
            OpCode::CompareGreaterEqual => Definition {
                name: "COMPARE_GREATER_EQUAL",
                operands_width: vec![],
            },
            OpCode::CompareEqual => Definition { name: "COMPARE_EQUAL", operands_width: vec![] },
            OpCode::CompareNotEqual => Definition {
                name: "COMPARE_NOT_EQUAL",
                operands_width: vec![],
            },
        }
    }
}


/// The opcode that `byte` stands for, or `None` for a byte that stands for none.
pub fn to_opcode(byte: u8) -> (r: Option<OpCode>)
    ensures
        r == byte_opcode(byte),
{
    let r = match byte {
        0x01 => Some(OpCode::Halt),
        0x02 => Some(OpCode::Pop),
        0x03 => Some(OpCode::LoadConstant),
        0x04 => Some(OpCode::LoadString),
        0x05 => Some(OpCode::LoadNil),
        0x06 => Some(OpCode::LoadBoolTrue),
        0x07 => Some(OpCode::LoadBoolFalse),
        0x08 => Some(OpCode::Add),
        0x09 => Some(OpCode::Subtract),
        0x0a => Some(OpCode::Multiply),
        0x0b => Some(OpCode::Divide),
        0x0c => Some(OpCode::Exponent),
        0x0d => Some(OpCode::UnaryNegate),
        0x0e => Some(OpCode::UnaryNot),
        0x0f => Some(OpCode::CompareLess),
        0x10 => Some(OpCode::CompareLessEqual),
        0x11 => Some(OpCode::CompareGreater),
        0x12 => Some(OpCode::CompareGreaterEqual),
        0x13 => Some(OpCode::CompareEqual),
        0x14 => Some(OpCode::CompareNotEqual),
        _ => None,
    };
    proof {
        match r {
            Some(op) => lemma_byte_opcode(op),
            None => {
                assert forall|op: OpCode| opcode_byte(op) != byte by {
                    match op {
                        _ => {},
                    }
                }
            },
        }
    }
    r
}

/// Relies on byteorder's `BigEndian::read_u16`: the two bytes at `offset`,
/// most significant first.
#[verifier::external_body]
fn be_read_u16(bytes: &Vec<u8>, offset: usize) -> (r: u16)
    requires
        offset + 2 <= bytes@.len(),
    ensures
        r as int == be_u16_at(bytes@, offset as int),
{
    BigEndian::read_u16(&bytes[offset..])
}

/// Relies on byteorder's `BigEndian::write_u16`: it writes the two bytes of
/// `n` at `offset`, most significant first, and nothing else.
#[verifier::external_body]
fn be_write_u16(bytes: &mut Vec<u8>, offset: usize, n: u16)
    requires
        offset + 2 <= old(bytes)@.len(),
    ensures
        final(bytes)@ == old(bytes)@.update(offset as int, (n / 256) as u8).update(
            offset + 1,
            (n % 256) as u8,
        ),
{
    BigEndian::write_u16(&mut bytes[offset..], n)
}

/// The big-endian unsigned 16-bit operand at `offset`.
pub fn read_uint16(instructions: &Vec<u8>, offset: usize) -> (r: u16)
    requires
        offset + 2 <= instructions@.len(),
    ensures
        r as int == be_u16_at(instructions@, offset as int),
{
    be_read_u16(instructions, offset)
}

/// Every operand is two bytes wide, and no opcode has more than one.
proof fn lemma_operand_widths(op: OpCode)
    ensures
        operand_widths(op).len() <= 1,
        sum_widths(operand_widths(op)) == 2 * operand_widths(op).len(),
        forall|i: int| 0 <= i < operand_widths(op).len() ==> operand_widths(op)[i] == 2,
{
    reveal_with_fuel(sum_widths, 2);
    match op {
        OpCode::LoadConstant | OpCode::LoadString => {
            assert(operand_widths(op).drop_last() =~= Seq::<usize>::empty());
        },
        _ => {},
    }
}

/// An instruction is its opcode byte and two bytes per operand.
pub proof fn lemma_operand_widths_len(op: OpCode)
    ensures
        instruction_len(op) == 1 + 2 * operand_widths(op).len(),
        operand_widths(op).len() <= 1,
{
    lemma_operand_widths(op);
}

impl OpCode {
    /// Encodes one instruction: the opcode byte, then each operand in its width.
    pub fn make(opcode: OpCode, operands: Vec<i32>) -> (r: Vec<u8>)
        requires
            valid_operands(opcode, operands@),
        ensures
            r@ == spec_encode(opcode, operands@),
            r@.len() == instruction_len(opcode),
    {
        let definition = OpCode::get_definition(opcode);
        proof {
            lemma_operand_widths(opcode);
        }
        let mut instruction_length: usize = 1;
        let n = definition.operands_width.len();
        let mut w: usize = 0;
        while w < n
            invariant
                n == definition.operands_width@.len(),
                definition.operands_width@ == operand_widths(opcode),
                n <= 1,
                w <= n,
                instruction_length == 1 + sum_widths(definition.operands_width@.subrange(0, w as int)),
            decreases n - w,
        {
            proof {
                let s = definition.operands_width@.subrange(0, w as int + 1);
                assert(s.drop_last() =~= definition.operands_width@.subrange(0, w as int));
            }
            instruction_length = instruction_length + definition.operands_width[w];
            w = w + 1;
        }
        assert(definition.operands_width@.subrange(0, n as int) =~= definition.operands_width@);
        let mut instructions: Vec<u8> = vec![0u8; instruction_length];
        instructions.set(0, opcode.to_byte());
        let ghost expected = spec_encode(opcode, operands@);
        assert(instruction_length == 1 + 2 * operands@.len());
        let mut offset: usize = 1;
        let mut i: usize = 0;
        while i < operands.len()
            invariant
                valid_operands(opcode, operands@),
                definition.operands_width@ == operand_widths(opcode),
                instructions@.len() == expected.len(),
                expected == spec_encode(opcode, operands@),
                i <= operands@.len() <= 1,
                offset == 1 + 2 * i,
                forall|j: int| 0 <= j < offset ==> instructions@[j] == expected[j],
            decreases operands@.len() - i,
        {
            let width = definition.operands_width[i];
            assert(width == 2);
            let operand = operands[i];
            assert(0 <= operands@[i as int] <= 0xffff);
            be_write_u16(&mut instructions, offset, operand as u16);
            assert(instructions@[offset as int] == expected[offset as int]);
            assert(instructions@[offset + 1] == expected[offset + 1]);
            offset = offset + width;
            i = i + 1;
        }
        assert(instructions@ =~= expected);
        instructions
    }
}

/// Decodes the instruction that starts at `offset`: its opcode and operands,
/// or `None` where the bytes there hold no whole instruction.
pub fn read_instruction(instructions: &Vec<u8>, offset: usize) -> (r: Option<(OpCode, Vec<i32>)>)
    ensures
        match r {
            None => spec_decode(instructions@, offset as int) is None,
            Some((op, operands)) => spec_decode(instructions@, offset as int) == Some(
                (op, operands@),
            ),
        },
{
    if offset >= instructions.len() {
        return None;
    }
    let op = match to_opcode(instructions[offset]) {
        None => {
            return None;
        },
        Some(op) => op,
    };
    let definition = OpCode::get_definition(op);
    let n = definition.operands_width.len();
    proof {
        lemma_operand_widths(op);
    }
    if 2 * n > instructions.len() - offset - 1 {
        return None;
    }
    let mut operands: Vec<i32> = Vec::new();
    let mut k: usize = 0;
    while k < n
        invariant
            n == operand_widths(op).len(),
            n <= 1,
            offset + 1 + 2 * n <= instructions@.len() <= usize::MAX,
            k <= n,
            operands@.len() == k,
            forall|j: int|
                0 <= j < k ==> #[trigger] operands@[j] == be_u16_at(
                    instructions@,
                    offset + 1 + 2 * j,
                ) as i32,
        decreases n - k,
    {
        let at: usize = offset + 1 + 2 * k;
        let v = read_uint16(instructions, at);
        operands.push(v as i32);
        k = k + 1;
    }
    let ghost expected = Seq::new(
        n as nat,
        |j: int| be_u16_at(instructions@, offset + 1 + 2 * j) as i32,
    );
    assert(operands@ =~= expected);
    Some((op, operands))
}

/// Decoding an encoded instruction gives back its opcode and operands, and the
/// encoding is one byte for the opcode plus the widths of its operands.
pub proof fn lemma_encode_decode_round_trip(op: OpCode, operands: Seq<i32>)
    requires
        valid_operands(op, operands),
    ensures
        spec_decode(spec_encode(op, operands), 0) == Some((op, operands)),
        spec_encode(op, operands).len() == instruction_len(op),
{
    let bytes = spec_encode(op, operands);
    lemma_byte_opcode(op);
    assert(bytes[0] == opcode_byte(op));
    let n = operand_widths(op).len();
    let decoded = Seq::new(n, |k: int| be_u16_at(bytes, 1 + 2 * k) as i32);
    assert forall|k: int| 0 <= k < n implies decoded[k] == operands[k] by {
        let v = operands[k];
        assert(0 <= v <= 0xffff);
        assert((1 + 2 * k - 1) / 2 == k);
        assert((2 + 2 * k - 1) / 2 == k);
        assert((1 + 2 * k - 1) % 2 == 0);
        assert((2 + 2 * k - 1) % 2 == 1);
        assert(bytes[1 + 2 * k] == (v / 256) as u8);
        assert(bytes[2 + 2 * k] == (v % 256) as u8);
        assert((v / 256) * 256 + v % 256 == v);
    }
    assert(decoded =~= operands);
    lemma_operand_widths(op);
}

/// The span recorded for `offset`: the last entry for it, or the unknown span.
pub open spec fn spec_span_at(entries: Seq<(usize, Span)>, offset: int) -> Span
    decreases entries.len(),
{
    if entries.len() == 0 {
        Span::spec_unknown()
    } else if entries.last().0 == offset {
        entries.last().1
    } else {
        spec_span_at(entries.drop_last(), offset)
    }
}

/// Source spans of the instructions, by the byte offset where each starts.
pub struct DebugInfo {
    pub entries: Vec<(usize, Span)>,
}

impl DebugInfo {
    pub fn new() -> (r: DebugInfo)
        ensures
            r.entries@.len() == 0,
    {
        DebugInfo { entries: Vec::new() }
    }

    /// Records `span` for the instruction at `offset`; a later record wins.
    pub fn add_span(&mut self, offset: usize, span: Span)
        ensures
            final(self).entries@ == old(self).entries@.push((offset, span)),
    {
        self.entries.push((offset, span));
    }

    pub fn get_span(&self, offset: usize) -> (r: Span)
        ensures
            r == spec_span_at(self.entries@, offset as int),
    {
        let mut i = self.entries.len();
        assert(self.entries@.subrange(0, i as int) =~= self.entries@);
        while i > 0
            invariant
                i <= self.entries@.len(),
                spec_span_at(self.entries@, offset as int) == spec_span_at(
                    self.entries@.subrange(0, i as int),
                    offset as int,
                ),
            decreases i,
        {
            let entry = self.entries[i - 1];
            if entry.0 == offset {
                return entry.1;
            }
            assert(self.entries@.subrange(0, i as int).drop_last() =~= self.entries@.subrange(
                0,
                i - 1,
            ));
            i = i - 1;
        }
        Span::unknown()
    }
}

/// A compiled unit: instruction bytes, constant pool, string table and spans.
pub struct Bytecode {
    pub instructions: Vec<u8>,
    pub constants: Vec<RuntimeValue>,
    pub string_table: Vec<String>,
    pub debug_info: DebugInfo,
}

} // verus!
