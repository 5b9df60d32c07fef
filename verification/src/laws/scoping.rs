//! Scopes: what entering, leaving and declaring do to the bindings.

use crate::ast::{Stmt, VarDeclarator};
use crate::error::CompileError;
use crate::instruction::Instruction;
use crate::laws::append::lemma_stmt_appends;
use crate::model::CompilerView;
use crate::scope::{cut, lemma_cut_is_outer, outer, BindingView, MAX_LOCALS};
use vstd::prelude::*;

verus! {

/// A context that has compiled nothing is well formed.
pub proof fn lemma_fresh_well_formed()
    ensures
        CompilerView::fresh().well_formed(),
        CompilerView::fresh().traced(),
{
}

/// Entering a scope keeps a context well formed.
pub proof fn lemma_enter_keeps_well_formed(v: CompilerView)
    requires
        v.well_formed(),
    ensures
        v.enter_scope().well_formed(),
{
}

/// Leaving a scope removes exactly the bindings declared in it: the table
/// that is left holds the bindings declared at a lesser depth, each in its
/// old slot, and every binding that is gone was declared at the depth that
/// is left.
pub proof fn lemma_exit_removes_the_scope(v: CompilerView)
    requires
        v.well_formed(),
        v.depth > 0,
    ensures
        v.exit_scope().well_formed(),
        v.exit_scope().locals == outer(v.locals, v.depth),
        v.exit_scope().locals.len() <= v.locals.len(),
        forall|i: int|
            0 <= i < v.exit_scope().locals.len() ==> v.exit_scope().locals[i] == v.locals[i],
        forall|i: int|
            v.exit_scope().locals.len() <= i < v.locals.len() ==> (#[trigger] v.locals[i]).depth
                == v.depth,
{
    lemma_cut_is_outer(v.locals, v.depth);
    let kept = v.exit_scope().locals;
    assert forall|i: int| 0 <= i < kept.len() implies 1 <= (#[trigger] kept[i]).depth <= v.depth
        - 1 by {
        assert(kept[i] == v.locals[i]);
    }
    assert forall|i: int, j: int| 0 <= i <= j < kept.len() implies kept[i].depth
        <= kept[j].depth by {
        assert(kept[i] == v.locals[i] && kept[j] == v.locals[j]);
    }
}

/// Declaring a name keeps a context well formed.
pub proof fn lemma_declare_keeps_well_formed(v: CompilerView, name: Seq<char>)
    requires
        v.well_formed(),
    ensures
        v.declare_variable(name) matches Ok(w) ==> w.well_formed(),
{
    if let Ok(w) = v.declare_variable(name) {
        if v.depth > 0 {
            assert forall|i: int| 0 <= i < w.locals.len() implies 1 <= (#[trigger] w.locals[i]).depth
                <= w.depth by {
                if i < v.locals.len() {
                    assert(w.locals[i] == v.locals[i]);
                }
            }
            assert forall|i: int, j: int| 0 <= i <= j < w.locals.len() implies w.locals[i].depth
                <= w.locals[j].depth by {
                if j < v.locals.len() {
                    assert(w.locals[i] == v.locals[i] && w.locals[j] == v.locals[j]);
                } else if i < v.locals.len() {
                    assert(w.locals[i] == v.locals[i]);
                }
            }
        }
    }
}

/// Emitting touches no binding.
proof fn lemma_emit_keeps_well_formed(v: CompilerView, instruction: Instruction)
    requires
        v.well_formed(),
    ensures
        v.emit_op(instruction).well_formed(),
{
}

/// Compiling a run of declarators keeps a context well formed.
pub proof fn lemma_var_decl_keeps_well_formed(
    v: CompilerView,
    decls: Seq<VarDeclarator>,
    from: nat,
)
    requires
        v.well_formed(),
    ensures
        v.compile_var_decl(decls, from) matches Ok(w) ==> w.well_formed(),
    decreases decls.len() - from,
{
    if from < decls.len() {
        let declarator = decls[from as int];
        if let Ok(next) = v.compile_var_declator(declarator) {
            let load = declarator.initial()->Ok_0;
            let name = declarator.name.target()->Ok_0;
            lemma_emit_keeps_well_formed(v, load);
            lemma_declare_keeps_well_formed(v.emit_op(load), name);
            lemma_var_decl_keeps_well_formed(next, decls, from + 1);
        }
    }
}

/// Compiling a statement keeps a context well formed, and leaves its depth
/// as it was: what a function declares stays in the context of the function.
pub proof fn lemma_stmt_keeps_well_formed(v: CompilerView, stmt: Stmt)
    requires
        v.well_formed(),
    ensures
        v.compile_stmt(stmt) matches Ok(w) ==> w.well_formed() && w.depth == v.depth,
{
    lemma_stmt_appends(v, stmt);
    match stmt {
        Stmt::Var(decl) => {
            lemma_var_decl_keeps_well_formed(v, decl.decls@, 0);
        },
        _ => {},
    }
}

/// Compiling a run of statements keeps a context well formed, and leaves
/// its depth as it was.
pub proof fn lemma_stmts_keep_well_formed(v: CompilerView, stmts: Seq<Stmt>, from: nat)
    requires
        v.well_formed(),
    ensures
        v.compile_stmts(stmts, from) matches Ok(w) ==> w.well_formed() && w.depth == v.depth,
    decreases stmts.len() - from,
{
    if from < stmts.len() {
        if let Ok(next) = v.compile_stmt(stmts[from as int]) {
            lemma_stmt_keeps_well_formed(v, stmts[from as int]);
            lemma_stmts_keep_well_formed(next, stmts, from + 1);
        }
    }
}

/// A name declared inside a scope shadows whatever it stood for outside,
/// for as long as the scope lasts: inside, the name resolves to the new
/// slot; once the scope is left, the context is what it was, and the name
/// resolves as it did before.
pub proof fn lemma_shadowing(v: CompilerView, name: Seq<char>)
    requires
        v.well_formed(),
        v.locals.len() < MAX_LOCALS,
    ensures
        v.enter_scope().declare_variable(name) matches Ok(inside) && {
            &&& inside.resolve_variable(name) == Some(
                BindingView::Local { slot: v.locals.len(), depth: v.depth + 1 },
            )
            &&& inside.exit_scope() == v
            &&& inside.exit_scope().resolve_variable(name) == v.resolve_variable(name)
        },
{
    let inside = v.enter_scope().declare_variable(name)->Ok_0;
    assert(inside.locals.last().name == name);
    assert(inside.locals.drop_last() =~= v.locals);
    lemma_cut_is_outer(v.locals, inside.depth);
    assert(cut(v.locals, inside.depth) == v.locals.len()) by {
        if cut(v.locals, inside.depth) < v.locals.len() {
            assert(v.locals[cut(v.locals, inside.depth)].depth <= v.depth);
        }
    }
    assert(inside.locals.take(v.locals.len() as int) =~= v.locals);
    assert(inside.exit_scope() =~~= v);
}

/// The slot table of one context holds 256 bindings. Declaring one more
/// inside a scope fails with the capacity error, and a declarator that
/// would need the slot fails with it too.
pub proof fn lemma_capacity(v: CompilerView, declarator: VarDeclarator)
    requires
        v.depth > 0,
        v.locals.len() == MAX_LOCALS,
        declarator.initial() is Ok,
        declarator.name.target() is Ok,
    ensures
        v.declare_variable(declarator.name.target()->Ok_0) == Err::<CompilerView, CompileError>(
            CompileError::TooManyLocals,
        ),
        v.compile_var_declator(declarator) == Err::<CompilerView, CompileError>(
            CompileError::TooManyLocals,
        ),
{
}

/// A name declared at depth 0 is among the globals afterwards, and takes no
/// slot.
pub proof fn lemma_global_declared(v: CompilerView, name: Seq<char>)
    requires
        v.depth == 0,
    ensures
        v.declare_variable(name) matches Ok(w) && w.globals.contains(name) && w.locals
            == v.locals,
{
    let w = v.declare_variable(name)->Ok_0;
    if !v.globals.contains(name) {
        assert(w.globals.last() == name);
    }
}

} // verus!
