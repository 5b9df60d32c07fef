//! The disassembly: one record per emitted instruction.

use crate::instruction::{encode_all, Instruction};
use vstd::prelude::*;

verus! {

/// Where an instruction starts in the byte stream, and which one it is.
#[derive(Debug, Clone, Copy, PartialEq, Eq)]
pub struct DisassemblyRecord {
    pub offset: usize,
    pub opcode: u8,
    pub mnemonic: &'static str,
}

/// The mathematical value of a [`DisassemblyRecord`].
pub struct RecordView {
    pub offset: nat,
    pub opcode: u8,
    pub mnemonic: Seq<char>,
}

impl View for DisassemblyRecord {
    type V = RecordView;

    open spec fn view(&self) -> RecordView {
        RecordView { offset: self.offset as nat, opcode: self.opcode, mnemonic: self.mnemonic@ }
    }
}

impl RecordView {
    /// The record of `instruction`, emitted at `offset`.
    pub open spec fn of(instruction: Instruction, offset: nat) -> RecordView {
        RecordView { offset, opcode: instruction.opcode(), mnemonic: instruction.mnemonic() }
    }

    /// The record as it reads once `base` bytes stand before its stream.
    pub open spec fn shifted(self, base: nat) -> RecordView {
        RecordView { offset: self.offset + base, opcode: self.opcode, mnemonic: self.mnemonic }
    }
}

/// The records of a log, each moved `base` bytes further.
pub open spec fn shift_all(records: Seq<RecordView>, base: nat) -> Seq<RecordView> {
    Seq::new(records.len(), |i: int| records[i].shifted(base))
}

/// The disassembly of a stream that holds `instructions` from byte `base`
/// on: record `i` gives the opcode and mnemonic of instruction `i`, and as
/// its offset `base` plus the number of bytes that the instructions before
/// it take.
pub open spec fn listing(instructions: Seq<Instruction>, base: nat) -> Seq<RecordView> {
    Seq::new(
        instructions.len(),
        |i: int| RecordView::of(instructions[i], base + encode_all(instructions.take(i)).len()),
    )
}

} // verus!
