use kumojs::encoding::{read_le_value, read_text};
use kumojs::{Compiler, Operation};

fn encoded(op: &Operation) -> Vec<u8> {
    let mut compiler = Compiler::new();
    compiler.emit_op(op.clone());
    compiler.bytecode().clone()
}

fn every_variant() -> Vec<Operation> {
    vec![
        Operation::Return,
        Operation::LoadString(String::from("hello")),
        Operation::LoadString(String::new()),
        Operation::LoadString(String::from("na\u{ef}ve \u{2603} \u{1f600}")),
        Operation::LoadFloat64(3.5f64.to_bits()),
        Operation::LoadFloat64(f64::NAN.to_bits()),
        Operation::LoadFloat64((-0.0f64).to_bits()),
        Operation::LoadFloat64(u64::MAX),
        Operation::LoadBool(true),
        Operation::LoadBool(false),
        Operation::Pop,
        Operation::LoadNull,
        Operation::LoadUndefined,
        Operation::LoadRegex(String::from("^a.*b$"), String::from("gim")),
        Operation::LoadRegex(String::new(), String::new()),
        Operation::StoreVar(String::from("x")),
        Operation::LoadVar(String::from("some_longer_name")),
    ]
}

#[test]
fn decoding_undoes_encoding() {
    for op in every_variant() {
        let bytes = encoded(&op);
        assert_eq!(Operation::decode(&bytes), Some((op, bytes.len())));
    }
}

#[test]
fn decoding_does_not_read_past_the_instruction() {
    for op in every_variant() {
        let mut bytes = encoded(&op);
        let length = bytes.len();
        bytes.extend_from_slice(&[0x01, 0x00, 0xff, 0x04]);
        assert_eq!(Operation::decode(&bytes), Some((op, length)));
    }
}

#[test]
fn a_stream_decodes_instruction_by_instruction() {
    let ops = every_variant();
    let mut compiler = Compiler::new();
    for op in &ops {
        compiler.emit_op(op.clone());
    }
    let bytes = compiler.bytecode();
    let mut at = 0;
    for (op, record) in ops.iter().zip(compiler.disassembly()) {
        assert_eq!(record.offset, at);
        assert_eq!(record.opcode, op.get_opcode());
        assert_eq!(record.mnemonic, op.get_name());
        let (found, taken) = Operation::decode(&bytes[at..]).unwrap();
        assert_eq!(&found, op);
        at += taken;
    }
    assert_eq!(at, bytes.len());
}

#[test]
fn nothing_decodes_from_nothing() {
    assert_eq!(Operation::decode(&[]), None);
}

#[test]
fn an_unknown_opcode_does_not_decode() {
    assert_eq!(Operation::decode(&[0x00]), None);
    assert_eq!(Operation::decode(&[0x0b, 0x00]), None);
    assert_eq!(Operation::decode(&[0xff]), None);
}

#[test]
fn a_text_without_terminator_does_not_decode() {
    assert_eq!(Operation::decode(&[0x01, b'a', b'b']), None);
    assert_eq!(Operation::decode(&[0x09]), None);
    assert_eq!(Operation::decode(&[0x06, b'a', 0x00, b'g']), None);
}

#[test]
fn a_text_that_is_not_utf8_does_not_decode() {
    assert_eq!(Operation::decode(&[0x01, 0xff, 0x00]), None);
    assert_eq!(Operation::decode(&[0x0a, 0xc3, 0x00]), None);
    // An encoding longer than needed, and a surrogate.
    assert_eq!(Operation::decode(&[0x01, 0xc0, 0x80, 0x00]), None);
    assert_eq!(Operation::decode(&[0x01, 0xed, 0xa0, 0x80, 0x00]), None);
}

#[test]
fn a_short_number_does_not_decode() {
    assert_eq!(Operation::decode(&[0x02, 1, 2, 3, 4, 5, 6, 7]), None);
    assert_eq!(
        Operation::decode(&[0x02, 1, 2, 3, 4, 5, 6, 7, 8]),
        Some((Operation::LoadFloat64(0x0807_0605_0403_0201), 9))
    );
}

#[test]
fn a_boolean_is_zero_or_one() {
    assert_eq!(Operation::decode(&[0x03]), None);
    assert_eq!(Operation::decode(&[0x03, 0x02]), None);
    assert_eq!(Operation::decode(&[0x03, 0x01]), Some((Operation::LoadBool(true), 2)));
    assert_eq!(Operation::decode(&[0x03, 0x00]), Some((Operation::LoadBool(false), 2)));
}

#[test]
fn a_text_with_u0000_is_not_well_formed() {
    assert!(Operation::LoadString(String::from("ab")).is_well_formed());
    assert!(Operation::LoadString(String::new()).is_well_formed());
    assert!(!Operation::LoadString(String::from("a\0b")).is_well_formed());
    assert!(!Operation::LoadRegex(String::from("a"), String::from("\0")).is_well_formed());
    assert!(!Operation::LoadRegex(String::from("\0"), String::from("g")).is_well_formed());
    assert!(!Operation::StoreVar(String::from("\0")).is_well_formed());
    assert!(!Operation::LoadVar(String::from("x\0")).is_well_formed());
    assert!(Operation::LoadFloat64(0).is_well_formed());
    assert!(Operation::Pop.is_well_formed());
    for op in every_variant() {
        assert!(op.is_well_formed());
    }
}

#[test]
fn what_decodes_is_well_formed() {
    let (op, taken) = Operation::decode(&[0x01, b'a', 0x00, b'b', 0x00]).unwrap();
    assert_eq!((op.clone(), taken), (Operation::LoadString(String::from("a")), 3));
    assert!(op.is_well_formed());
}

#[test]
fn is_nul_free_looks_for_u0000() {
    assert!(kumojs::encoding::is_nul_free(""));
    assert!(kumojs::encoding::is_nul_free("plain \u{20ac} text"));
    assert!(!kumojs::encoding::is_nul_free("\0"));
    assert!(!kumojs::encoding::is_nul_free("end\0"));
}

#[test]
fn read_text_splits_at_the_first_zero_byte() {
    assert_eq!(read_text(b"abc\0def\0", 0), Some((String::from("abc"), 4)));
    assert_eq!(read_text(b"abc\0def\0", 4), Some((String::from("def"), 4)));
    assert_eq!(read_text(b"abc\0def\0", 3), Some((String::new(), 1)));
    assert_eq!(read_text(b"abc\0def\0", 8), None);
    assert_eq!(read_text(b"abc", 0), None);
    assert_eq!(read_text(&[0xe2, 0x82, 0xac, 0x00], 0), Some((String::from("\u{20ac}"), 4)));
    assert_eq!(read_text(&[0xe2, 0x82, 0x00], 0), None);
}

#[test]
fn read_le_value_reads_least_significant_first() {
    let bytes = [0xaa, 0x00, 0x00, 0x00, 0x00, 0x00, 0x00, 0x0c, 0x40, 0xbb];
    assert_eq!(read_le_value(&bytes, 1), 3.5f64.to_bits());
    assert_eq!(read_le_value(&[1, 2, 3, 4, 5, 6, 7, 8], 0), 0x0807_0605_0403_0201);
}

#[test]
fn push_le_bytes_appends_eight_bytes() {
    let mut buffer = vec![0xee];
    kumojs::encoding::push_le_bytes(&mut buffer, 0x1122_3344_5566_7788);
    assert_eq!(buffer, vec![0xee, 0x88, 0x77, 0x66, 0x55, 0x44, 0x33, 0x22, 0x11]);
}
