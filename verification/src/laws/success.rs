//! When a walk succeeds.

use crate::ast::{FnDecl, Pat, Stmt, VarDeclarator};
use crate::lowering::{all_bind, all_lower, declarators_lower, declared};
use crate::model::CompilerView;
use crate::scope::MAX_LOCALS;
use vstd::prelude::*;

verus! {

/// A declarator compiles exactly when it has a lowering and the slot table
/// has room for its binding. Inside a scope it takes one slot.
pub proof fn lemma_var_declator_compiles(v: CompilerView, declarator: VarDeclarator)
    ensures
        v.compile_var_declator(declarator) is Ok <==> declarator.lowers() && v.has_room(1),
        v.compile_var_declator(declarator) matches Ok(w) ==> w.depth == v.depth && w.locals.len()
            == v.locals.len() + (if v.depth == 0 {
            0nat
        } else {
            1nat
        }),
{
}

/// A run of declarators compiles exactly when each of them has a lowering
/// and the slot table has room for them. Inside a scope each takes one slot.
pub proof fn lemma_var_decl_compiles(v: CompilerView, decls: Seq<VarDeclarator>, from: nat)
    requires
        from <= decls.len(),
        v.locals.len() <= MAX_LOCALS,
    ensures
        v.compile_var_decl(decls, from) is Ok <==> declarators_lower(decls, from) && v.has_room(
            (decls.len() - from) as nat,
        ),
        v.compile_var_decl(decls, from) matches Ok(w) ==> w.depth == v.depth && w.locals.len()
            == v.locals.len() + (if v.depth == 0 {
            0
        } else {
            decls.len() - from
        }),
    decreases decls.len() - from,
{
    if from < decls.len() {
        let declarator = decls[from as int];
        lemma_var_declator_compiles(v, declarator);
        assert(declarators_lower(decls, from) <==> declarator.lowers() && declarators_lower(
            decls,
            from + 1,
        )) by {
            if declarator.lowers() && declarators_lower(decls, from + 1) {
                assert forall|i: int| from <= i < decls.len() implies (#[trigger] decls[i]).lowers() by {
                    if i > from {
                        assert(decls[i].lowers());
                    }
                }
            }
            if declarators_lower(decls, from) {
                assert(decls[from as int].lowers());
            }
        }
        if let Ok(next) = v.compile_var_declator(declarator) {
            lemma_var_decl_compiles(next, decls, from + 1);
        }
    }
}

/// A run of parameters is declared exactly when each of them binds a name
/// and the slot table has room for them.
pub proof fn lemma_params_declare(v: CompilerView, params: Seq<Pat>, from: nat)
    requires
        from <= params.len(),
        v.depth > 0,
        v.locals.len() <= MAX_LOCALS,
    ensures
        v.declare_params(params, from) is Ok <==> all_bind(params, from) && v.has_room(
            (params.len() - from) as nat,
        ),
        v.declare_params(params, from) matches Ok(w) ==> w.depth == v.depth && w.locals.len()
            == v.locals.len() + params.len() - from,
    decreases params.len() - from,
{
    if from < params.len() {
        let param = params[from as int];
        assert(all_bind(params, from) <==> param.target() is Ok && all_bind(params, from + 1)) by {
            if param.target() is Ok && all_bind(params, from + 1) {
                assert forall|i: int| from <= i < params.len() implies (#[trigger] params[i]).target() is Ok by {
                    if i > from {
                        assert(params[i].target() is Ok);
                    }
                }
            }
            if all_bind(params, from) {
                assert(params[from as int].target() is Ok);
            }
        }
        if let Ok(name) = param.target() {
            if let Ok(next) = v.declare_variable(name) {
                lemma_params_declare(next, params, from + 1);
            }
        }
    }
}

/// A function declaration compiles exactly when it has a lowering, whatever
/// the context around it holds.
pub proof fn lemma_fn_decl_compiles(v: CompilerView, function: FnDecl)
    ensures
        v.compile_fn_decl(function) is Ok <==> function.lowers(),
    decreases function, 0nat,
{
    let opened = v.new_enclosing();
    lemma_params_declare(opened, function.params@, 0);
    if let Ok(inner) = opened.declare_params(function.params@, 0) {
        lemma_stmts_compile(inner, function.body@, 0);
    }
}

/// The bindings that one statement declares in the context that compiles it.
proof fn lemma_declared_single(stmt: Stmt)
    ensures
        declared(seq![stmt], 0) == match stmt {
            Stmt::Var(decl) => decl.decls@.len(),
            _ => 0,
        },
{
    reveal_with_fuel(declared, 2);
    assert(seq![stmt][0] == stmt);
}

/// A statement compiles exactly when it has a lowering and the slot table
/// has room for what it declares.
pub proof fn lemma_stmt_compiles(v: CompilerView, stmt: Stmt)
    requires
        v.locals.len() <= MAX_LOCALS,
    ensures
        v.compile_stmt(stmt) is Ok <==> stmt.lowers() && v.has_room(declared(seq![stmt], 0)),
        v.compile_stmt(stmt) matches Ok(w) ==> w.depth == v.depth && w.locals.len()
            == v.locals.len() + (if v.depth == 0 {
            0
        } else {
            declared(seq![stmt], 0)
        }),
    decreases stmt, 1nat,
{
    lemma_declared_single(stmt);
    match stmt {
        Stmt::Var(decl) => {
            lemma_var_decl_compiles(v, decl.decls@, 0);
        },
        Stmt::Fn(function) => {
            lemma_fn_decl_compiles(v, function);
        },
        _ => {},
    }
}

/// A run of statements compiles exactly when each statement has a lowering
/// and no slot table is asked for more than its 256 slots: not that of a
/// function in the run, by its parameters and the declarations of its
/// body, and not that of the context itself, by the declarations of the
/// run. At depth 0 the run asks the context for no slot.
pub proof fn lemma_stmts_compile(v: CompilerView, stmts: Seq<Stmt>, from: nat)
    requires
        from <= stmts.len(),
        v.locals.len() <= MAX_LOCALS,
    ensures
        v.compile_stmts(stmts, from) is Ok <==> all_lower(stmts, from) && v.has_room(
            declared(stmts, from),
        ),
        v.compile_stmts(stmts, from) matches Ok(w) ==> w.depth == v.depth && w.locals.len()
            == v.locals.len() + (if v.depth == 0 {
            0
        } else {
            declared(stmts, from)
        }),
    decreases stmts, stmts.len() - from,
{
    if from < stmts.len() {
        let stmt = stmts[from as int];
        lemma_stmt_compiles(v, stmt);
        lemma_declared_single(stmt);
        assert(declared(stmts, from) == declared(seq![stmt], 0) + declared(stmts, from + 1));
        if let Ok(next) = v.compile_stmt(stmt) {
            lemma_stmts_compile(next, stmts, from + 1);
        }
    }
}

} // verus!
