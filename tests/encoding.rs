use hydor::bytecode::{read_instruction, read_uint16, to_opcode, OpCode};

#[test]
fn load_constant_encodes_big_endian_operand() {
    let bytes = OpCode::make(OpCode::LoadConstant, vec![0x0102]);
    assert_eq!(bytes, vec![0x03, 0x01, 0x02]);
    assert_eq!(read_uint16(&bytes, 1), 258);
}

#[test]
fn operandless_instruction_is_one_byte() {
    assert_eq!(OpCode::make(OpCode::Halt, vec![]), vec![0x01]);
    assert_eq!(OpCode::make(OpCode::Add, vec![]).len(), 1);
}

#[test]
fn decoding_reverses_encoding() {
    for (op, operands) in [
        (OpCode::LoadConstant, vec![65535]),
        (OpCode::LoadString, vec![7]),
        (OpCode::CompareNotEqual, vec![]),
        (OpCode::Pop, vec![]),
    ] {
        let bytes = OpCode::make(op, operands.clone());
        let definition = OpCode::get_definition(op);
        assert_eq!(bytes.len(), 1 + definition.operands_width.iter().sum::<usize>());
        assert_eq!(read_instruction(&bytes, 0), Some((op, operands)));
    }
}

#[test]
fn decoding_reads_at_an_offset() {
    let mut bytes = OpCode::make(OpCode::Pop, vec![]);
    bytes.extend(OpCode::make(OpCode::LoadString, vec![300]));
    assert_eq!(read_instruction(&bytes, 1), Some((OpCode::LoadString, vec![300])));
    assert_eq!(read_instruction(&bytes, 3), None);
}

#[test]
fn unknown_bytes_are_no_opcode() {
    assert_eq!(to_opcode(0x00), None);
    assert_eq!(to_opcode(0x15), None);
    assert_eq!(to_opcode(0x08), Some(OpCode::Add));
    assert_eq!(read_instruction(&vec![0x99], 0), None);
}

#[test]
fn definitions_name_opcodes() {
    let d = OpCode::get_definition(OpCode::LoadConstant);
    assert_eq!(d.name, "LOAD_CONSTANT");
    assert_eq!(d.operands_width, vec![2]);
    assert_eq!(OpCode::get_definition(OpCode::Halt).name, "HALT");
}
