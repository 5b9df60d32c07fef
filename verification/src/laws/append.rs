//! A walk only appends: what a context holds stays where it is.

use crate::ast::{FnDecl, Pat, Stmt, VarDeclarator};
use crate::disassembly::shift_all;
use crate::instruction::Instruction;
use crate::model::CompilerView;
use vstd::prelude::*;

verus! {

/// Every context extends to itself.
pub proof fn lemma_extends_reflexive(v: CompilerView)
    ensures
        v.extends_to(v),
{
    assert(v.bytecode.take(v.bytecode.len() as int) =~= v.bytecode);
    assert(v.disassembly.take(v.disassembly.len() as int) =~= v.disassembly);
    assert(v.locals.take(v.locals.len() as int) =~= v.locals);
    assert(v.globals.take(v.globals.len() as int) =~= v.globals);
}

/// What was appended to a context that was itself appended to, was appended
/// to the first.
pub proof fn lemma_extends_transitive(a: CompilerView, b: CompilerView, c: CompilerView)
    requires
        a.extends_to(b),
        b.extends_to(c),
    ensures
        a.extends_to(c),
{
    assert(c.bytecode.take(a.bytecode.len() as int) =~= b.bytecode.take(
        a.bytecode.len() as int,
    ));
    assert(c.disassembly.take(a.disassembly.len() as int) =~= b.disassembly.take(
        a.disassembly.len() as int,
    ));
    assert(c.locals.take(a.locals.len() as int) =~= b.locals.take(a.locals.len() as int));
    assert(c.globals.take(a.globals.len() as int) =~= b.globals.take(a.globals.len() as int));
}

/// Emitting an instruction appends to the byte stream and to the
/// disassembly, and touches nothing else. The new record points at the new
/// instruction.
pub proof fn lemma_emit_appends(v: CompilerView, instruction: Instruction)
    ensures
        v.extends_to(v.emit_op(instruction)),
        v.traced() ==> v.emit_op(instruction).traced(),
{
    let w = v.emit_op(instruction);
    assert(w.bytecode.take(v.bytecode.len() as int) =~= v.bytecode);
    assert(w.disassembly.take(v.disassembly.len() as int) =~= v.disassembly);
    assert(w.locals.take(v.locals.len() as int) =~= v.locals);
    assert(w.globals.take(v.globals.len() as int) =~= v.globals);
}

/// Declaring a name appends a binding, or changes nothing.
pub proof fn lemma_declare_appends(v: CompilerView, name: Seq<char>)
    ensures
        v.declare_variable(name) matches Ok(w) ==> v.extends_to(w) && (v.traced() ==> w.traced()),
{
    if let Ok(w) = v.declare_variable(name) {
        assert(w.bytecode.take(v.bytecode.len() as int) =~= v.bytecode);
        assert(w.disassembly.take(v.disassembly.len() as int) =~= v.disassembly);
        assert(w.locals.take(v.locals.len() as int) =~= v.locals);
        assert(w.globals.take(v.globals.len() as int) =~= v.globals);
    }
}

/// Compiling a declarator only appends.
pub proof fn lemma_var_declator_appends(v: CompilerView, declarator: VarDeclarator)
    ensures
        v.compile_var_declator(declarator) matches Ok(w) ==> v.extends_to(w) && (v.traced()
            ==> w.traced()),
{
    if let Ok(w) = v.compile_var_declator(declarator) {
        let load = declarator.initial()->Ok_0;
        let name = declarator.name.target()->Ok_0;
        let pushed = v.emit_op(load);
        let declared = pushed.declare_variable(name)->Ok_0;
        lemma_emit_appends(v, load);
        lemma_declare_appends(pushed, name);
        lemma_emit_appends(declared, Instruction::StoreVar(name));
        lemma_extends_transitive(v, pushed, declared);
        lemma_extends_transitive(v, declared, w);
    }
}

/// Compiling a run of declarators only appends.
pub proof fn lemma_var_decl_appends(v: CompilerView, decls: Seq<VarDeclarator>, from: nat)
    ensures
        v.compile_var_decl(decls, from) matches Ok(w) ==> v.extends_to(w) && (v.traced()
            ==> w.traced()),
    decreases decls.len() - from,
{
    if from >= decls.len() {
        lemma_extends_reflexive(v);
    } else if let Ok(next) = v.compile_var_declator(decls[from as int]) {
        lemma_var_declator_appends(v, decls[from as int]);
        lemma_var_decl_appends(next, decls, from + 1);
        if let Ok(w) = next.compile_var_decl(decls, from + 1) {
            lemma_extends_transitive(v, next, w);
        }
    }
}

/// Declaring a run of parameters only appends.
pub proof fn lemma_params_append(v: CompilerView, params: Seq<Pat>, from: nat)
    ensures
        v.declare_params(params, from) matches Ok(w) ==> v.extends_to(w) && (v.traced()
            ==> w.traced()),
    decreases params.len() - from,
{
    if from >= params.len() {
        lemma_extends_reflexive(v);
    } else if let Ok(name) = params[from as int].target() {
        if let Ok(next) = v.declare_variable(name) {
            lemma_declare_appends(v, name);
            lemma_params_append(next, params, from + 1);
            if let Ok(w) = next.declare_params(params, from + 1) {
                lemma_extends_transitive(v, next, w);
            }
        }
    }
}

/// Taking in the output of an inner context only appends, and the records
/// taken in point at the bytes taken in.
pub proof fn lemma_absorb_appends(v: CompilerView, inner: CompilerView)
    ensures
        v.extends_to(v.absorb(inner.bytecode, inner.disassembly)),
        v.traced() && inner.traced() ==> v.absorb(inner.bytecode, inner.disassembly).traced(),
{
    let w = v.absorb(inner.bytecode, inner.disassembly);
    assert(w.bytecode.take(v.bytecode.len() as int) =~= v.bytecode);
    assert(w.disassembly.take(v.disassembly.len() as int) =~= v.disassembly);
    assert(w.locals.take(v.locals.len() as int) =~= v.locals);
    assert(w.globals.take(v.globals.len() as int) =~= v.globals);
    if v.traced() && inner.traced() {
        let moved = shift_all(inner.disassembly, v.bytecode.len());
        assert forall|i: int| 0 <= i < w.disassembly.len() implies (#[trigger] w.disassembly[i]).offset
            < w.bytecode.len() by {
            if i < v.disassembly.len() {
                assert(w.disassembly[i] == v.disassembly[i]);
            } else {
                let k = i - v.disassembly.len();
                assert(w.disassembly[i] == moved[k]);
                assert(moved[k] == inner.disassembly[k].shifted(v.bytecode.len()));
            }
        }
    }
}

/// Compiling a function declaration only appends.
pub proof fn lemma_fn_decl_appends(v: CompilerView, function: FnDecl)
    ensures
        v.compile_fn_decl(function) matches Ok(w) ==> v.extends_to(w) && (v.traced()
            ==> w.traced()),
    decreases function, 0nat,
{
    if let Ok(inner) = v.new_enclosing().declare_params(function.params@, 0) {
        if let Ok(done) = inner.compile_stmts(function.body@, 0) {
            lemma_params_append(v.new_enclosing(), function.params@, 0);
            lemma_stmts_append(inner, function.body@, 0);
            lemma_absorb_appends(v, done);
        }
    }
}

/// Compiling a statement only appends.
pub proof fn lemma_stmt_appends(v: CompilerView, stmt: Stmt)
    ensures
        v.compile_stmt(stmt) matches Ok(w) ==> v.extends_to(w) && (v.traced() ==> w.traced()),
    decreases stmt, 1nat,
{
    match stmt {
        Stmt::Expr(expr) => {
            if let Ok(pushed) = v.compile_expr(expr) {
                lemma_emit_appends(v, expr.lowered()->Ok_0);
                lemma_emit_appends(pushed, Instruction::Pop);
                lemma_extends_transitive(v, pushed, pushed.emit_op(Instruction::Pop));
            }
        },
        Stmt::Var(decl) => {
            lemma_var_decl_appends(v, decl.decls@, 0);
        },
        Stmt::Fn(function) => {
            lemma_fn_decl_appends(v, function);
        },
        Stmt::Other(_) => {},
    }
}

/// Compiling a run of statements only appends: what stood in the byte
/// stream, the disassembly and the tables stands there still, unchanged.
pub proof fn lemma_stmts_append(v: CompilerView, stmts: Seq<Stmt>, from: nat)
    ensures
        v.compile_stmts(stmts, from) matches Ok(w) ==> v.extends_to(w) && (v.traced()
            ==> w.traced()),
    decreases stmts, stmts.len() - from,
{
    if from >= stmts.len() {
        lemma_extends_reflexive(v);
    } else if let Ok(next) = v.compile_stmt(stmts[from as int]) {
        lemma_stmt_appends(v, stmts[from as int]);
        lemma_stmts_append(next, stmts, from + 1);
        if let Ok(w) = next.compile_stmts(stmts, from + 1) {
            lemma_extends_transitive(v, next, w);
        }
    }
}

} // verus!
