//! What a walk emits: the program of the statements, byte for byte.

use crate::ast::{Expr, FnDecl, Lit, Pat, Stmt, VarDecl, VarDeclarator};
use crate::disassembly::{listing, RecordView};
use crate::encoding::nul_free;
use crate::error::CompileError;
use crate::instruction::{
    all_well_formed, decode_all, encode_all, lemma_encode_all_concat, lemma_encode_all_single,
    lemma_encode_decode_all, Instruction,
};
use crate::laws::scoping::lemma_global_declared;
use crate::lowering::{declarators_program, program};
use crate::model::CompilerView;
use vstd::prelude::*;
use vstd::utf8::encode_utf8;

verus! {

/// A literal that has an instruction, standing as a statement, compiles to
/// that instruction followed by `Pop`: the opcode of the literal, its
/// operands, and the byte 0x04.
pub proof fn lemma_literal_statement(v: CompilerView, lit: Lit)
    requires
        lit.lowered() is Ok,
    ensures
        v.compile_stmt(Stmt::Expr(Expr::Lit(lit))) matches Ok(w) && {
            &&& w == v.emit_op(lit.lowered()->Ok_0).emit_op(Instruction::Pop)
            &&& w.bytecode == v.bytecode + lit.lowered()->Ok_0.encoding() + seq![0x04u8]
        },
{
    let load = lit.lowered()->Ok_0;
    let w = v.emit_op(load).emit_op(Instruction::Pop);
    assert(Instruction::Pop.encoding() =~= seq![0x04u8]);
    assert(w.bytecode =~= v.bytecode + load.encoding() + seq![0x04u8]);
}

/// A declaration `let x = <literal>;` at depth 0 compiles to the
/// instruction of the literal followed by `StoreVar` with the name: the
/// byte 0x09, the UTF-8 bytes of the name, and the terminator.
pub proof fn lemma_initialized_declaration(v: CompilerView, decl: VarDecl, name: String, lit: Lit)
    requires
        v.depth == 0,
        decl.decls@.len() == 1,
        decl.decls@[0].name == Pat::Ident(name),
        nul_free(name@),
        decl.decls@[0].init == Some(Expr::Lit(lit)),
        lit.lowered() is Ok,
    ensures
        v.compile_stmt(Stmt::Var(decl)) matches Ok(w) && {
            &&& w.bytecode == v.bytecode + lit.lowered()->Ok_0.encoding() + seq![0x09u8]
                + encode_utf8(name@) + seq![0x00u8]
            &&& w.globals.contains(name@)
            &&& w.locals == v.locals
        },
{
    let load = lit.lowered()->Ok_0;
    let declared = v.emit_op(load).declare_variable(name@)->Ok_0;
    let w = declared.emit_op(Instruction::StoreVar(name@));
    reveal_with_fuel(CompilerView::compile_var_decl, 2);
    assert(v.compile_var_declator(decl.decls@[0]) == Ok::<CompilerView, CompileError>(w));
    assert(Instruction::StoreVar(name@).encoding() =~= seq![0x09u8] + encode_utf8(name@) + seq![
        0x00u8,
    ]);
    assert(w.bytecode =~= v.bytecode + load.encoding() + seq![0x09u8] + encode_utf8(name@) + seq![
        0x00u8,
    ]);
    lemma_global_declared(v.emit_op(load), name@);
}

/// A declaration `let x;` at depth 0 compiles to `LoadUndefined` followed
/// by `StoreVar` with the name: the bytes 0x07 and 0x09, the UTF-8 bytes of
/// the name, and the terminator.
pub proof fn lemma_bare_declaration(v: CompilerView, decl: VarDecl, name: String)
    requires
        v.depth == 0,
        decl.decls@.len() == 1,
        decl.decls@[0].name == Pat::Ident(name),
        nul_free(name@),
        decl.decls@[0].init == None::<Expr>,
    ensures
        v.compile_stmt(Stmt::Var(decl)) matches Ok(w) && {
            &&& w.bytecode == v.bytecode + seq![0x07u8, 0x09u8] + encode_utf8(name@) + seq![0x00u8]
            &&& w.globals.contains(name@)
            &&& w.locals == v.locals
        },
{
    let load = Instruction::LoadUndefined;
    let declared = v.emit_op(load).declare_variable(name@)->Ok_0;
    let w = declared.emit_op(Instruction::StoreVar(name@));
    reveal_with_fuel(CompilerView::compile_var_decl, 2);
    assert(v.compile_var_declator(decl.decls@[0]) == Ok::<CompilerView, CompileError>(w));
    assert(w.bytecode =~= v.bytecode + seq![0x07u8, 0x09u8] + encode_utf8(name@) + seq![0x00u8]);
    lemma_global_declared(v.emit_op(load), name@);
}

/// Appending two runs of instructions one after the other appends their
/// concatenation.
pub proof fn lemma_emit_all_concat(
    v: CompilerView,
    first: Seq<Instruction>,
    second: Seq<Instruction>,
)
    ensures
        v.emit_all(first).emit_all(second) == v.emit_all(first + second),
{
    lemma_encode_all_concat(first, second);
    let mid = v.emit_all(first);
    let left = mid.emit_all(second);
    let right = v.emit_all(first + second);
    assert(left.bytecode =~= right.bytecode);
    assert(left.disassembly =~= right.disassembly) by {
        assert(left.disassembly.len() == right.disassembly.len());
        assert forall|i: int| 0 <= i < left.disassembly.len() implies left.disassembly[i]
            == right.disassembly[i] by {
            let n = v.disassembly.len();
            if i >= n + first.len() {
                let k = i - n - first.len();
                assert((first + second).take(first.len() + k) =~= first + second.take(k));
                lemma_encode_all_concat(first, second.take(k));
            } else if i >= n {
                let k = i - n;
                assert((first + second).take(k) =~= first.take(k));
            }
        }
    }
    assert(left =~~= right);
}

/// Emitting one instruction appends the run that holds it alone.
pub proof fn lemma_emit_op_is_emit_all(v: CompilerView, instruction: Instruction)
    ensures
        v.emit_op(instruction) == v.emit_all(seq![instruction]),
{
    let single = seq![instruction];
    lemma_encode_all_single(instruction);
    assert(single.take(0) =~= Seq::<Instruction>::empty());
    assert(encode_all(single.take(0)) =~= Seq::<u8>::empty());
    assert(listing(single, v.bytecode.len()) =~= seq![
        RecordView::of(instruction, v.bytecode.len()),
    ]);
    assert(v.emit_op(instruction).disassembly =~= v.emit_all(single).disassembly);
    assert(v.emit_op(instruction) =~~= v.emit_all(single));
}

/// Appending no instruction changes nothing.
pub proof fn lemma_emit_all_empty(v: CompilerView)
    ensures
        v.emit_all(seq![]) == v,
{
    assert(encode_all(Seq::<Instruction>::empty()) =~= Seq::<u8>::empty());
    assert(v.emit_all(seq![]).bytecode =~= v.bytecode);
    assert(v.emit_all(seq![]).disassembly =~= v.disassembly);
    assert(v.emit_all(seq![]) =~~= v);
}

/// What a declaration does to the bindings does not change what is emitted
/// after it.
proof fn lemma_emit_all_same_output(v: CompilerView, w: CompilerView, run: Seq<Instruction>)
    requires
        v.same_output(w),
    ensures
        v.emit_all(run).same_output(w.emit_all(run)),
{
}

/// The output of a declarator is its program.
pub proof fn lemma_var_declator_program(v: CompilerView, declarator: VarDeclarator)
    ensures
        v.compile_var_declator(declarator) matches Ok(w) ==> w.same_output(
            v.emit_all(declarator.program()),
        ),
{
    if let Ok(w) = v.compile_var_declator(declarator) {
        let load = declarator.initial()->Ok_0;
        let name = declarator.name.target()->Ok_0;
        let store = Instruction::StoreVar(name);
        let pushed = v.emit_op(load);
        let declared = pushed.declare_variable(name)->Ok_0;
        lemma_emit_op_is_emit_all(v, load);
        lemma_emit_op_is_emit_all(declared, store);
        lemma_emit_op_is_emit_all(pushed, store);
        lemma_emit_all_concat(v, seq![load], seq![store]);
        assert(seq![load] + seq![store] =~= declarator.program());
        assert(declared.same_output(pushed));
    }
}

/// The output of a run of declarators is their program.
pub proof fn lemma_var_decl_program(v: CompilerView, decls: Seq<VarDeclarator>, from: nat)
    ensures
        v.compile_var_decl(decls, from) matches Ok(w) ==> w.same_output(
            v.emit_all(declarators_program(decls, from)),
        ),
    decreases decls.len() - from,
{
    if from >= decls.len() {
        lemma_emit_all_empty(v);
    } else if let Ok(next) = v.compile_var_declator(decls[from as int]) {
        if let Ok(w) = next.compile_var_decl(decls, from + 1) {
            let head = decls[from as int].program();
            let tail = declarators_program(decls, from + 1);
            lemma_var_declator_program(v, decls[from as int]);
            lemma_var_decl_program(next, decls, from + 1);
            lemma_emit_all_same_output(next, v.emit_all(head), tail);
            lemma_emit_all_concat(v, head, tail);
        }
    }
}

/// Declaring parameters emits nothing.
pub proof fn lemma_params_emit_nothing(v: CompilerView, params: Seq<Pat>, from: nat)
    ensures
        v.declare_params(params, from) matches Ok(w) ==> w.same_output(v),
    decreases params.len() - from,
{
    if from < params.len() {
        if let Ok(name) = params[from as int].target() {
            if let Ok(next) = v.declare_variable(name) {
                lemma_params_emit_nothing(next, params, from + 1);
            }
        }
    }
}

/// Taking in the output of an inner context that emitted `run` from an
/// empty stream appends `run`.
proof fn lemma_absorb_program(v: CompilerView, inner: CompilerView, run: Seq<Instruction>)
    requires
        inner.bytecode == encode_all(run),
        inner.disassembly == listing(run, 0),
    ensures
        v.absorb(inner.bytecode, inner.disassembly) == v.emit_all(run),
{
    let left = v.absorb(inner.bytecode, inner.disassembly);
    let right = v.emit_all(run);
    assert(left.disassembly =~= right.disassembly);
    assert(left =~~= right);
}

/// The output of a function declaration is the program of its body.
pub proof fn lemma_fn_decl_program(v: CompilerView, function: FnDecl)
    ensures
        v.compile_fn_decl(function) matches Ok(w) ==> w == v.emit_all(
            program(function.body@, 0),
        ),
    decreases function, 0nat,
{
    let opened = v.new_enclosing();
    if let Ok(inner) = opened.declare_params(function.params@, 0) {
        if let Ok(done) = inner.compile_stmts(function.body@, 0) {
            let run = program(function.body@, 0);
            lemma_params_emit_nothing(opened, function.params@, 0);
            lemma_stmts_program(inner, function.body@, 0);
            assert(inner.emit_all(run).bytecode =~= encode_all(run));
            assert(inner.emit_all(run).disassembly =~= listing(run, 0));
            lemma_absorb_program(v, done, run);
        }
    }
}

/// The output of a statement is its program.
pub proof fn lemma_stmt_program(v: CompilerView, stmt: Stmt)
    ensures
        v.compile_stmt(stmt) matches Ok(w) ==> w.same_output(v.emit_all(stmt.program())),
    decreases stmt, 1nat,
{
    match stmt {
        Stmt::Expr(expr) => {
            if let Ok(load) = expr.lowered() {
                lemma_emit_op_is_emit_all(v, load);
                lemma_emit_op_is_emit_all(v.emit_op(load), Instruction::Pop);
                lemma_emit_all_concat(v, seq![load], seq![Instruction::Pop]);
                assert(seq![load] + seq![Instruction::Pop] =~= stmt.program());
            }
        },
        Stmt::Var(decl) => {
            lemma_var_decl_program(v, decl.decls@, 0);
        },
        Stmt::Fn(function) => {
            lemma_fn_decl_program(v, function);
        },
        Stmt::Other(_) => {},
    }
}

/// What a walk emits depends on the statements alone, not on the bindings
/// in scope: a run of statements that compiles appends the encodings of its
/// program to the byte stream, in source order, and to the disassembly one
/// record per instruction, whose offset is the number of bytes before that
/// instruction.
pub proof fn lemma_stmts_program(v: CompilerView, stmts: Seq<Stmt>, from: nat)
    ensures
        v.compile_stmts(stmts, from) matches Ok(w) ==> {
            &&& w.bytecode == v.bytecode + encode_all(program(stmts, from))
            &&& w.disassembly == v.disassembly + listing(program(stmts, from), v.bytecode.len())
        },
    decreases stmts, stmts.len() - from,
{
    if from >= stmts.len() {
        lemma_emit_all_empty(v);
    } else if let Ok(next) = v.compile_stmt(stmts[from as int]) {
        if let Ok(w) = next.compile_stmts(stmts, from + 1) {
            let head = stmts[from as int].program();
            let tail = program(stmts, from + 1);
            lemma_stmt_program(v, stmts[from as int]);
            lemma_stmts_program(next, stmts, from + 1);
            lemma_emit_all_same_output(next, v.emit_all(head), tail);
            lemma_emit_all_concat(v, head, tail);
        }
    }
}

/// The offsets of a listing grow from record to record, each by the length
/// of the instruction before it.
pub proof fn lemma_listing_offsets(instructions: Seq<Instruction>, base: nat, i: int)
    requires
        0 <= i < instructions.len(),
    ensures
        listing(instructions, base)[i].offset == base + encode_all(instructions.take(i)).len(),
        i + 1 < instructions.len() ==> listing(instructions, base)[i + 1].offset == listing(
            instructions,
            base,
        )[i].offset + instructions[i].encoding().len(),
        i + 1 < instructions.len() ==> listing(instructions, base)[i].offset < listing(
            instructions,
            base,
        )[i + 1].offset,
{
    if i + 1 < instructions.len() {
        assert(instructions.take(i + 1).drop_last() =~= instructions.take(i));
        assert(instructions.take(i + 1).last() == instructions[i]);
    }
}

/// Two runs of well-formed instructions make a run of well-formed
/// instructions.
proof fn lemma_all_well_formed_concat(first: Seq<Instruction>, second: Seq<Instruction>)
    requires
        all_well_formed(first),
        all_well_formed(second),
    ensures
        all_well_formed(first + second),
{
    assert forall|i: int| 0 <= i < (first + second).len() implies (#[trigger] (first
        + second)[i]).well_formed() by {
        if i < first.len() {
            assert((first + second)[i] == first[i]);
        } else {
            assert((first + second)[i] == second[i - first.len()]);
        }
    }
}

/// No instruction of a declaration holds a text with U+0000.
pub proof fn lemma_declarators_program_well_formed(decls: Seq<VarDeclarator>, from: nat)
    ensures
        all_well_formed(declarators_program(decls, from)),
    decreases decls.len() - from,
{
    if from < decls.len() {
        lemma_declarators_program_well_formed(decls, from + 1);
        lemma_all_well_formed_concat(
            decls[from as int].program(),
            declarators_program(decls, from + 1),
        );
    }
}

/// No instruction of a statement holds a text with U+0000.
pub proof fn lemma_stmt_program_well_formed(stmt: Stmt)
    ensures
        all_well_formed(stmt.program()),
    decreases stmt, 0nat,
{
    match stmt {
        Stmt::Var(decl) => {
            lemma_declarators_program_well_formed(decl.decls@, 0);
        },
        Stmt::Fn(function) => {
            lemma_program_well_formed(function.body@, 0);
        },
        _ => {},
    }
}

/// No instruction of a program holds a text with U+0000: a walk emits
/// well-formed instructions only.
pub proof fn lemma_program_well_formed(stmts: Seq<Stmt>, from: nat)
    ensures
        all_well_formed(program(stmts, from)),
    decreases stmts, stmts.len() - from,
{
    if from < stmts.len() {
        lemma_stmt_program_well_formed(stmts[from as int]);
        lemma_program_well_formed(stmts, from + 1);
        lemma_all_well_formed_concat(stmts[from as int].program(), program(stmts, from + 1));
    }
}

/// The byte stream of a compiled module reads back as its program: a
/// reader finds in it, instruction by instruction, what the walk emitted,
/// and nothing else.
pub proof fn lemma_compiled_stream_decodes(stmts: Seq<Stmt>)
    ensures
        CompilerView::fresh().compile_stmts(stmts, 0) matches Ok(w) ==> decode_all(w.bytecode)
            == Some(program(stmts, 0)),
{
    if let Ok(w) = CompilerView::fresh().compile_stmts(stmts, 0) {
        lemma_stmts_program(CompilerView::fresh(), stmts, 0);
        lemma_program_well_formed(stmts, 0);
        lemma_encode_decode_all(program(stmts, 0));
        assert(w.bytecode =~= encode_all(program(stmts, 0)));
    }
}

} // verus!
