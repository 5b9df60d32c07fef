use kumojs::{Compiler, Operation};

fn encoded(op: Operation) -> Vec<u8> {
    let mut compiler = Compiler::new();
    compiler.emit_op(op);
    compiler.bytecode().clone()
}

#[test]
fn opcodes_follow_the_table() {
    assert_eq!(Operation::LoadString(String::from("a")).get_opcode(), 0x01);
    assert_eq!(Operation::LoadFloat64(3.5f64.to_bits()).get_opcode(), 0x02);
    assert_eq!(Operation::LoadBool(true).get_opcode(), 0x03);
    assert_eq!(Operation::Pop.get_opcode(), 0x04);
    assert_eq!(Operation::LoadNull.get_opcode(), 0x05);
    assert_eq!(Operation::LoadRegex(String::from("a"), String::from("g")).get_opcode(), 0x06);
    assert_eq!(Operation::LoadUndefined.get_opcode(), 0x07);
    assert_eq!(Operation::Return.get_opcode(), 0x08);
    assert_eq!(Operation::StoreVar(String::from("x")).get_opcode(), 0x09);
    assert_eq!(Operation::LoadVar(String::from("x")).get_opcode(), 0x0a);
}

#[test]
fn mnemonics_name_the_operations() {
    assert_eq!(Operation::Return.get_name(), "OP_RETURN");
    assert_eq!(Operation::LoadString(String::new()).get_name(), "OP_LOAD_STRING");
    assert_eq!(Operation::LoadFloat64(0).get_name(), "OP_LOAD_FLOAT64");
    assert_eq!(Operation::LoadBool(false).get_name(), "OP_LOAD_BOOL");
    assert_eq!(Operation::Pop.get_name(), "OP_POP");
    assert_eq!(Operation::LoadNull.get_name(), "OP_NULL");
    assert_eq!(Operation::LoadUndefined.get_name(), "OP_UNDEFINED");
    assert_eq!(Operation::LoadRegex(String::new(), String::new()).get_name(), "OP_REGEX");
    assert_eq!(Operation::StoreVar(String::new()).get_name(), "OP_STORE_VAR");
    assert_eq!(Operation::LoadVar(String::new()).get_name(), "OP_LOAD_VAR");
}

#[test]
fn operations_without_operands_take_one_byte() {
    assert_eq!(encoded(Operation::Return), vec![0x08]);
    assert_eq!(encoded(Operation::Pop), vec![0x04]);
    assert_eq!(encoded(Operation::LoadNull), vec![0x05]);
    assert_eq!(encoded(Operation::LoadUndefined), vec![0x07]);
}

#[test]
fn a_string_is_followed_by_its_terminator() {
    assert_eq!(
        encoded(Operation::LoadString(String::from("hello"))),
        vec![0x01, b'h', b'e', b'l', b'l', b'o', 0x00]
    );
}

#[test]
fn an_empty_string_is_the_terminator_alone() {
    assert_eq!(encoded(Operation::LoadString(String::new())), vec![0x01, 0x00]);
}

#[test]
fn a_string_is_written_as_utf8() {
    // U+00E9 takes two bytes, U+20AC three, U+1F600 four.
    assert_eq!(
        encoded(Operation::LoadString(String::from("\u{e9}\u{20ac}\u{1f600}"))),
        vec![0x01, 0xc3, 0xa9, 0xe2, 0x82, 0xac, 0xf0, 0x9f, 0x98, 0x80, 0x00]
    );
}

#[test]
fn a_number_is_eight_bytes_least_significant_first() {
    assert_eq!(
        encoded(Operation::LoadFloat64(3.5f64.to_bits())),
        vec![0x02, 0x00, 0x00, 0x00, 0x00, 0x00, 0x00, 0x0c, 0x40]
    );
    assert_eq!(
        encoded(Operation::LoadFloat64(0x0102_0304_0506_0708)),
        vec![0x02, 0x08, 0x07, 0x06, 0x05, 0x04, 0x03, 0x02, 0x01]
    );
}

#[test]
fn a_number_keeps_every_bit() {
    for value in [0.0f64, -0.0, 1.0, -1.5, f64::MAX, f64::MIN_POSITIVE, f64::INFINITY, f64::NAN] {
        let bytes = encoded(Operation::LoadFloat64(value.to_bits()));
        assert_eq!(bytes.len(), 9);
        assert_eq!(bytes[0], 0x02);
        let mut operand = [0u8; 8];
        operand.copy_from_slice(&bytes[1..]);
        assert_eq!(operand, value.to_le_bytes());
        assert_eq!(f64::from_le_bytes(operand).to_bits(), value.to_bits());
    }
}

#[test]
fn a_boolean_is_one_byte() {
    assert_eq!(encoded(Operation::LoadBool(true)), vec![0x03, 0x01]);
    assert_eq!(encoded(Operation::LoadBool(false)), vec![0x03, 0x00]);
}

#[test]
fn a_regex_is_pattern_then_flags() {
    assert_eq!(
        encoded(Operation::LoadRegex(String::from("a+"), String::from("gi"))),
        vec![0x06, b'a', b'+', 0x00, b'g', b'i', 0x00]
    );
    assert_eq!(
        encoded(Operation::LoadRegex(String::from("x"), String::new())),
        vec![0x06, b'x', 0x00, 0x00]
    );
}

#[test]
fn variable_operations_carry_the_name() {
    assert_eq!(encoded(Operation::StoreVar(String::from("x"))), vec![0x09, b'x', 0x00]);
    assert_eq!(
        encoded(Operation::LoadVar(String::from("total"))),
        vec![0x0a, b't', b'o', b't', b'a', b'l', 0x00]
    );
}

#[test]
fn emitting_appends_and_records_the_offset() {
    let mut compiler = Compiler::new();
    compiler.emit_op(Operation::LoadNull);
    compiler.emit_op(Operation::LoadString(String::from("ab")));
    compiler.emit_op(Operation::Return);
    assert_eq!(compiler.bytecode(), &vec![0x05, 0x01, b'a', b'b', 0x00, 0x08]);
    let log = compiler.disassembly();
    assert_eq!(log.len(), 3);
    assert_eq!((log[0].offset, log[0].opcode, log[0].mnemonic), (0, 0x05, "OP_NULL"));
    assert_eq!((log[1].offset, log[1].opcode, log[1].mnemonic), (1, 0x01, "OP_LOAD_STRING"));
    assert_eq!((log[2].offset, log[2].opcode, log[2].mnemonic), (5, 0x08, "OP_RETURN"));
}
