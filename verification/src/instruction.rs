//! The instruction set: one opcode byte per operation, followed by its
//! operands in a fixed layout.

use crate::encoding::{
    is_nul_free, le_bytes, le_value, lemma_le_round_trip, lemma_terminated_round_trip, nul_free,
    read_le_value, read_terminated, read_text, terminated,
};
use vstd::prelude::*;

verus! {

/// An operation of the stack machine, with its operands.
#[derive(Debug, Clone, PartialEq, Eq)]
pub enum Operation {
    /// Leaves the running unit.
    Return,
    /// Pushes a string.
    LoadString(String),
    /// Pushes a number, held as the bit pattern of an IEEE-754 double.
    LoadFloat64(u64),
    /// Pushes a boolean.
    LoadBool(bool),
    /// Discards the top of the stack.
    Pop,
    /// Pushes `null`.
    LoadNull,
    /// Pushes `undefined`.
    LoadUndefined,
    /// Pushes a regular expression: pattern, then flags.
    LoadRegex(String, String),
    /// Pops a value into the binding of the given name.
    StoreVar(String),
    /// Pushes the value of the binding of the given name.
    LoadVar(String),
}

/// The mathematical value of an [`Operation`]: texts are character sequences.
pub enum Instruction {
    Return,
    LoadString(Seq<char>),
    LoadFloat64(u64),
    LoadBool(bool),
    Pop,
    LoadNull,
    LoadUndefined,
    LoadRegex(Seq<char>, Seq<char>),
    StoreVar(Seq<char>),
    LoadVar(Seq<char>),
}

impl View for Operation {
    type V = Instruction;

    open spec fn view(&self) -> Instruction {
        match *self {
            Operation::Return => Instruction::Return,
            Operation::LoadString(s) => Instruction::LoadString(s@),
            Operation::LoadFloat64(bits) => Instruction::LoadFloat64(bits),
            Operation::LoadBool(b) => Instruction::LoadBool(b),
            Operation::Pop => Instruction::Pop,
            Operation::LoadNull => Instruction::LoadNull,
            Operation::LoadUndefined => Instruction::LoadUndefined,
            Operation::LoadRegex(exp, flags) => Instruction::LoadRegex(exp@, flags@),
            Operation::StoreVar(name) => Instruction::StoreVar(name@),
            Operation::LoadVar(name) => Instruction::LoadVar(name@),
        }
    }
}

impl Instruction {
    /// The byte that tags the operation.
    pub open spec fn opcode(self) -> u8 {
        match self {
            Instruction::LoadString(_) => 0x01,
            Instruction::LoadFloat64(_) => 0x02,
            Instruction::LoadBool(_) => 0x03,
            Instruction::Pop => 0x04,
            Instruction::LoadNull => 0x05,
            Instruction::LoadRegex(_, _) => 0x06,
            Instruction::LoadUndefined => 0x07,
            Instruction::Return => 0x08,
            Instruction::StoreVar(_) => 0x09,
            Instruction::LoadVar(_) => 0x0a,
        }
    }

    /// The name under which the operation is listed in a disassembly.
    pub open spec fn mnemonic(self) -> Seq<char> {
        match self {
            Instruction::Return => "OP_RETURN"@,
            Instruction::LoadString(_) => "OP_LOAD_STRING"@,
            Instruction::LoadFloat64(_) => "OP_LOAD_FLOAT64"@,
            Instruction::LoadBool(_) => "OP_LOAD_BOOL"@,
            Instruction::Pop => "OP_POP"@,
            Instruction::LoadNull => "OP_NULL"@,
            Instruction::LoadUndefined => "OP_UNDEFINED"@,
            Instruction::LoadRegex(_, _) => "OP_REGEX"@,
            Instruction::StoreVar(_) => "OP_STORE_VAR"@,
            Instruction::LoadVar(_) => "OP_LOAD_VAR"@,
        }
    }

    /// The bytes that follow the opcode.
    pub open spec fn operands(self) -> Seq<u8> {
        match self {
            Instruction::LoadString(s) => terminated(s),
            Instruction::LoadFloat64(bits) => le_bytes(bits),
            Instruction::LoadBool(b) => if b {
                seq![0x01u8]
            } else {
                seq![0x00u8]
            },
            Instruction::LoadRegex(exp, flags) => terminated(exp) + terminated(flags),
            Instruction::StoreVar(name) => terminated(name),
            Instruction::LoadVar(name) => terminated(name),
            Instruction::Return => seq![],
            Instruction::Pop => seq![],
            Instruction::LoadNull => seq![],
            Instruction::LoadUndefined => seq![],
        }
    }

    /// The instruction as it stands in a byte stream: opcode, then operands.
    pub open spec fn encoding(self) -> Seq<u8> {
        seq![self.opcode()] + self.operands()
    }

    /// No text operand holds U+0000, the character reserved for the terminator.
    pub open spec fn well_formed(self) -> bool {
        match self {
            Instruction::LoadString(s) => nul_free(s),
            Instruction::LoadRegex(exp, flags) => nul_free(exp) && nul_free(flags),
            Instruction::StoreVar(name) => nul_free(name),
            Instruction::LoadVar(name) => nul_free(name),
            _ => true,
        }
    }
}

/// The byte stream of a sequence of instructions: their encodings, one
/// after the other, with nothing before, between or after them.
pub open spec fn encode_all(instructions: Seq<Instruction>) -> Seq<u8>
    decreases instructions.len(),
{
    if instructions.len() == 0 {
        seq![]
    } else {
        encode_all(instructions.drop_last()) + instructions.last().encoding()
    }
}

/// The byte stream of two runs of instructions, one after the other, is the
/// stream of the first followed by the stream of the second.
pub proof fn lemma_encode_all_concat(first: Seq<Instruction>, second: Seq<Instruction>)
    ensures
        encode_all(first + second) == encode_all(first) + encode_all(second),
    decreases second.len(),
{
    if second.len() == 0 {
        assert(first + second =~= first);
        assert(encode_all(first) + encode_all(second) =~= encode_all(first));
    } else {
        lemma_encode_all_concat(first, second.drop_last());
        assert((first + second).drop_last() =~= first + second.drop_last());
        assert((first + second).last() == second.last());
        assert(encode_all(first + second) =~= encode_all(first) + encode_all(second));
    }
}

/// The byte stream of one instruction is its encoding.
pub proof fn lemma_encode_all_single(instruction: Instruction)
    ensures
        encode_all(seq![instruction]) == instruction.encoding(),
{
    let single = seq![instruction];
    assert(single.drop_last() =~= Seq::<Instruction>::empty());
    assert(encode_all(single.drop_last()) =~= Seq::<u8>::empty());
    assert(encode_all(single) =~= instruction.encoding());
}

/// What a reader of the byte stream finds at its front: the instruction and
/// the number of bytes it takes. `None` where the front is no instruction.
pub open spec fn decode(bytes: Seq<u8>) -> Option<(Instruction, int)> {
    if bytes.len() == 0 {
        None
    } else {
        let operands = bytes.skip(1);
        let opcode = bytes[0];
        if opcode == 0x01 {
            match read_terminated(operands) {
                Some((s, n)) => Some((Instruction::LoadString(s), 1 + n)),
                None => None,
            }
        } else if opcode == 0x02 {
            if operands.len() >= 8 {
                Some((Instruction::LoadFloat64(le_value(operands)), 9))
            } else {
                None
            }
        } else if opcode == 0x03 {
            if operands.len() >= 1 && operands[0] == 0x01 {
                Some((Instruction::LoadBool(true), 2))
            } else if operands.len() >= 1 && operands[0] == 0x00 {
                Some((Instruction::LoadBool(false), 2))
            } else {
                None
            }
        } else if opcode == 0x04 {
            Some((Instruction::Pop, 1))
        } else if opcode == 0x05 {
            Some((Instruction::LoadNull, 1))
        } else if opcode == 0x06 {
            match read_terminated(operands) {
                Some((exp, n)) => match read_terminated(operands.skip(n)) {
                    Some((flags, m)) => Some((Instruction::LoadRegex(exp, flags), 1 + n + m)),
                    None => None,
                },
                None => None,
            }
        } else if opcode == 0x07 {
            Some((Instruction::LoadUndefined, 1))
        } else if opcode == 0x08 {
            Some((Instruction::Return, 1))
        } else if opcode == 0x09 {
            match read_terminated(operands) {
                Some((name, n)) => Some((Instruction::StoreVar(name), 1 + n)),
                None => None,
            }
        } else if opcode == 0x0a {
            match read_terminated(operands) {
                Some((name, n)) => Some((Instruction::LoadVar(name), 1 + n)),
                None => None,
            }
        } else {
            None
        }
    }
}

/// Encoding, then decoding, gives back the operation and its operands
/// exactly, and tells where the next instruction starts: the bits of a
/// number, the characters of a text, the value of a boolean.
pub proof fn lemma_encode_decode(instruction: Instruction, rest: Seq<u8>)
    requires
        instruction.well_formed(),
    ensures
        decode(instruction.encoding() + rest) == Some(
            (instruction, instruction.encoding().len() as int),
        ),
{
    let bytes = instruction.encoding() + rest;
    let operands = bytes.skip(1);
    assert(bytes[0] == instruction.opcode());
    assert(operands =~= instruction.operands() + rest);
    match instruction {
        Instruction::LoadString(s) => {
            lemma_terminated_round_trip(s, rest);
        },
        Instruction::LoadFloat64(bits) => {
            lemma_le_round_trip(bits);
            assert(le_value(operands) == le_value(le_bytes(bits)));
        },
        Instruction::LoadRegex(exp, flags) => {
            assert(operands =~= terminated(exp) + (terminated(flags) + rest));
            lemma_terminated_round_trip(exp, terminated(flags) + rest);
            assert(operands.skip(terminated(exp).len() as int) =~= terminated(flags) + rest);
            lemma_terminated_round_trip(flags, rest);
        },
        Instruction::StoreVar(name) => {
            lemma_terminated_round_trip(name, rest);
        },
        Instruction::LoadVar(name) => {
            lemma_terminated_round_trip(name, rest);
        },
        _ => {},
    }
}

/// Every instruction of the run is well formed.
pub open spec fn all_well_formed(instructions: Seq<Instruction>) -> bool {
    forall|i: int| 0 <= i < instructions.len() ==> (#[trigger] instructions[i]).well_formed()
}

/// What a reader finds in a whole byte stream: the instructions that it
/// holds, front to back. `None` where the stream does not end with the end
/// of an instruction.
pub open spec fn decode_all(bytes: Seq<u8>) -> Option<Seq<Instruction>>
    decreases bytes.len(),
{
    if bytes.len() == 0 {
        Some(seq![])
    } else {
        match decode(bytes) {
            Some((instruction, taken)) => if 0 < taken <= bytes.len() {
                match decode_all(bytes.skip(taken)) {
                    Some(rest) => Some(seq![instruction] + rest),
                    None => None,
                }
            } else {
                None
            },
            None => None,
        }
    }
}

/// A reader gets back every run of well-formed instructions from its byte
/// stream: each operation, each operand, in order.
pub proof fn lemma_encode_decode_all(instructions: Seq<Instruction>)
    requires
        all_well_formed(instructions),
    ensures
        decode_all(encode_all(instructions)) == Some(instructions),
    decreases instructions.len(),
{
    if instructions.len() == 0 {
        assert(encode_all(instructions) =~= Seq::<u8>::empty());
        assert(instructions =~= Seq::<Instruction>::empty());
    } else {
        let head = instructions[0];
        let tail = instructions.skip(1);
        assert(instructions =~= seq![head] + tail);
        lemma_encode_all_concat(seq![head], tail);
        lemma_encode_all_single(head);
        let bytes = encode_all(instructions);
        assert(bytes == head.encoding() + encode_all(tail));
        lemma_encode_decode(head, encode_all(tail));
        assert(bytes.skip(head.encoding().len() as int) =~= encode_all(tail));
        assert(all_well_formed(tail)) by {
            assert forall|i: int| 0 <= i < tail.len() implies (#[trigger] tail[i]).well_formed() by {
                assert(tail[i] == instructions[i + 1]);
            }
        }
        lemma_encode_decode_all(tail);
    }
}

impl Operation {
    /// Whether no text operand holds U+0000.
    pub fn is_well_formed(&self) -> (well_formed: bool)
        ensures
            well_formed == self@.well_formed(),
    {
        match self {
            Operation::LoadString(s) => is_nul_free(s.as_str()),
            Operation::LoadRegex(exp, flags) => is_nul_free(exp.as_str()) && is_nul_free(
                flags.as_str(),
            ),
            Operation::StoreVar(name) => is_nul_free(name.as_str()),
            Operation::LoadVar(name) => is_nul_free(name.as_str()),
            _ => true,
        }
    }

    /// The opcode of the operation.
    pub fn get_opcode(&self) -> (opcode: u8)
        ensures
            opcode == self@.opcode(),
    {
        match self {
            Operation::LoadString(_) => 0x01,
            Operation::LoadFloat64(_) => 0x02,
            Operation::LoadBool(_) => 0x03,
            Operation::Pop => 0x04,
            Operation::LoadNull => 0x05,
            Operation::LoadRegex(_, _) => 0x06,
            Operation::LoadUndefined => 0x07,
            Operation::Return => 0x08,
            Operation::StoreVar(_) => 0x09,
            Operation::LoadVar(_) => 0x0a,
        }
    }

    /// The mnemonic of the operation.
    pub fn get_name(&self) -> (name: &'static str)
        ensures
            name@ == self@.mnemonic(),
    {
        match self {
            Operation::Return => "OP_RETURN",
            Operation::LoadString(_) => "OP_LOAD_STRING",
            Operation::LoadFloat64(_) => "OP_LOAD_FLOAT64",
            Operation::LoadBool(_) => "OP_LOAD_BOOL",
            Operation::Pop => "OP_POP",
            Operation::LoadNull => "OP_NULL",
            Operation::LoadUndefined => "OP_UNDEFINED",
            Operation::LoadRegex(_, _) => "OP_REGEX",
            Operation::StoreVar(_) => "OP_STORE_VAR",
            Operation::LoadVar(_) => "OP_LOAD_VAR",
        }
    }
}

impl Operation {
    /// Reads the instruction at the front of `bytes`: the operation with
    /// its operands, and the number of bytes it takes. `None` where the
    /// front of `bytes` is no instruction.
    pub fn decode(bytes: &[u8]) -> (found: Option<(Operation, usize)>)
        ensures
            match decode(bytes@) {
                Some((instruction, taken)) => found matches Some((op, n)) && op@ == instruction
                    && n == taken,
                None => found is None,
            },
    {
        if bytes.len() == 0 {
            return None;
        }
        let opcode = bytes[0];
        if opcode == 0x01 {
            match read_text(bytes, 1) {
                Some((s, n)) => Some((Operation::LoadString(s), 1 + n)),
                None => None,
            }
        } else if opcode == 0x02 {
            if bytes.len() - 1 >= 8 {
                Some((Operation::LoadFloat64(read_le_value(bytes, 1)), 9))
            } else {
                None
            }
        } else if opcode == 0x03 {
            if bytes.len() >= 2 && bytes[1] == 0x01 {
                assert(bytes@.skip(1)[0] == bytes@[1]);
                Some((Operation::LoadBool(true), 2))
            } else if bytes.len() >= 2 && bytes[1] == 0x00 {
                assert(bytes@.skip(1)[0] == bytes@[1]);
                Some((Operation::LoadBool(false), 2))
            } else {
                proof {
                    if bytes.len() >= 2 {
                        assert(bytes@.skip(1)[0] == bytes@[1]);
                    }
                }
                None
            }
        } else if opcode == 0x04 {
            Some((Operation::Pop, 1))
        } else if opcode == 0x05 {
            Some((Operation::LoadNull, 1))
        } else if opcode == 0x06 {
            match read_text(bytes, 1) {
                Some((exp, n)) => {
                    assert(bytes@.skip(1).skip(n as int) =~= bytes@.skip(1 + n));
                    match read_text(bytes, 1 + n) {
                        Some((flags, m)) => Some((Operation::LoadRegex(exp, flags), 1 + n + m)),
                        None => None,
                    }
                },
                None => None,
            }
        } else if opcode == 0x07 {
            Some((Operation::LoadUndefined, 1))
        } else if opcode == 0x08 {
            Some((Operation::Return, 1))
        } else if opcode == 0x09 {
            match read_text(bytes, 1) {
                Some((name, n)) => Some((Operation::StoreVar(name), 1 + n)),
                None => None,
            }
        } else if opcode == 0x0a {
            match read_text(bytes, 1) {
                Some((name, n)) => Some((Operation::LoadVar(name), 1 + n)),
                None => None,
            }
        } else {
            None
        }
    }
}

} // verus!
