//! The mathematical model of a compiler context, and of what each step of
//! the walk does to it.

use crate::ast::{Expr, FnDecl, Lit, Pat, Stmt, VarDeclarator};
use crate::disassembly::{listing, shift_all, RecordView};
use crate::error::{CompileError, Construct};
use crate::instruction::{encode_all, Instruction};
use crate::scope::{cut, innermost, nested_in_order, BindingView, LocalView, MAX_LOCALS};
use vstd::prelude::*;

verus! {

/// The state of one compiler context.
#[verifier::ext_equal]
pub struct CompilerView {
    /// The bytes emitted so far.
    pub bytecode: Seq<u8>,
    /// One record per emitted instruction, in emission order.
    pub disassembly: Seq<RecordView>,
    /// The local slot table.
    pub locals: Seq<LocalView>,
    /// The names declared at depth 0.
    pub globals: Seq<Seq<char>>,
    /// The current scope depth.
    pub depth: nat,
    /// The context of the function around this one, if any.
    pub enclosing: Option<Box<CompilerView>>,
}

impl CompilerView {
    /// A module context that has compiled nothing.
    pub open spec fn fresh() -> CompilerView {
        CompilerView {
            bytecode: seq![],
            disassembly: seq![],
            locals: seq![],
            globals: seq![],
            depth: 0,
            enclosing: None,
        }
    }

    /// The table lists scopes from the outside in, holds no entry of depth 0
    /// or of a scope that is not open, and is within its capacity.
    pub open spec fn well_formed(self) -> bool {
        &&& self.locals.len() <= MAX_LOCALS
        &&& nested_in_order(self.locals)
        &&& forall|i: int|
            0 <= i < self.locals.len() ==> 1 <= (#[trigger] self.locals[i]).depth <= self.depth
    }

    /// The context after `instruction` is appended to the byte stream, with
    /// its record in the disassembly.
    pub open spec fn emit_op(self, instruction: Instruction) -> CompilerView {
        CompilerView {
            bytecode: self.bytecode + instruction.encoding(),
            disassembly: self.disassembly.push(RecordView::of(instruction, self.bytecode.len())),
            ..self
        }
    }

    /// The context one scope further in.
    pub open spec fn enter_scope(self) -> CompilerView {
        CompilerView { depth: self.depth + 1, ..self }
    }

    /// The context one scope further out: the slot table is cut back to
    /// what it held when the scope was entered, so the bindings of the scope
    /// that is left are gone and those declared outside it keep their slots.
    pub open spec fn exit_scope(self) -> CompilerView {
        CompilerView {
            depth: (self.depth - 1) as nat,
            locals: self.locals.take(cut(self.locals, self.depth)),
            ..self
        }
    }

    /// The context with one more entry in its slot table, or the capacity
    /// error where the table is full.
    pub open spec fn add_local(self, name: Seq<char>, depth: nat) -> Result<
        CompilerView,
        CompileError,
    > {
        if self.locals.len() >= MAX_LOCALS {
            Err(CompileError::TooManyLocals)
        } else {
            Ok(CompilerView { locals: self.locals.push(LocalView { name, depth }), ..self })
        }
    }

    /// The context after `name` is declared at the current depth: among the
    /// globals at depth 0, in the next free slot inside a scope.
    pub open spec fn declare_variable(self, name: Seq<char>) -> Result<
        CompilerView,
        CompileError,
    > {
        if self.depth == 0 {
            if self.globals.contains(name) {
                Ok(self)
            } else {
                Ok(CompilerView { globals: self.globals.push(name), ..self })
            }
        } else {
            self.add_local(name, self.depth)
        }
    }

    /// The binding that `name` stands for: the most recently declared local
    /// of that name, else the global of that name, else none.
    pub open spec fn resolve_variable(self, name: Seq<char>) -> Option<BindingView> {
        match innermost(self.locals, name) {
            Some(slot) => Some(
                BindingView::Local { slot: slot as nat, depth: self.locals[slot].depth },
            ),
            None => if self.globals.contains(name) {
                Some(BindingView::Global)
            } else {
                None
            },
        }
    }

    /// The empty context of a function declared in this one, one scope
    /// further in.
    pub open spec fn new_enclosing(self) -> CompilerView {
        CompilerView {
            bytecode: seq![],
            disassembly: seq![],
            locals: seq![],
            globals: seq![],
            depth: self.depth + 1,
            enclosing: Some(Box::new(self)),
        }
    }

    /// The context after the output of a finished inner context is appended
    /// to its own: the bytes as they are, the records moved by the number of
    /// bytes that stood here before.
    pub open spec fn absorb(
        self,
        bytecode: Seq<u8>,
        disassembly: Seq<RecordView>,
    ) -> CompilerView {
        CompilerView {
            bytecode: self.bytecode + bytecode,
            disassembly: self.disassembly + shift_all(disassembly, self.bytecode.len()),
            ..self
        }
    }

    /// The context after a literal is compiled: its instruction is emitted.
    pub open spec fn compile_lit(self, lit: Lit) -> Result<CompilerView, CompileError> {
        match lit.lowered() {
            Ok(instruction) => Ok(self.emit_op(instruction)),
            Err(construct) => Err(CompileError::UnsupportedConstruct(construct)),
        }
    }

    /// The context after an expression is compiled: the instructions that
    /// leave its value on the stack are emitted.
    pub open spec fn compile_expr(self, expr: Expr) -> Result<CompilerView, CompileError> {
        match expr.lowered() {
            Ok(instruction) => Ok(self.emit_op(instruction)),
            Err(construct) => Err(CompileError::UnsupportedConstruct(construct)),
        }
    }

    /// The context after one declarator is compiled: the initial value is
    /// pushed, the name is declared, and the value is stored under the name.
    pub open spec fn compile_var_declator(self, declarator: VarDeclarator) -> Result<
        CompilerView,
        CompileError,
    > {
        match declarator.initial() {
            Err(construct) => Err(CompileError::UnsupportedConstruct(construct)),
            Ok(load) => match declarator.name.target() {
                Err(construct) => Err(CompileError::UnsupportedConstruct(construct)),
                Ok(name) => match self.emit_op(load).declare_variable(name) {
                    Err(error) => Err(error),
                    Ok(declared) => Ok(declared.emit_op(Instruction::StoreVar(name))),
                },
            },
        }
    }

    /// The context after the declarators `decls[from..]` are compiled, in
    /// order, or the error of the first that fails.
    pub open spec fn compile_var_decl(self, decls: Seq<VarDeclarator>, from: nat) -> Result<
        CompilerView,
        CompileError,
    >
        decreases decls.len() - from,
    {
        if from >= decls.len() {
            Ok(self)
        } else {
            match self.compile_var_declator(decls[from as int]) {
                Err(error) => Err(error),
                Ok(next) => next.compile_var_decl(decls, from + 1),
            }
        }
    }

    /// The context after the parameters `params[from..]` are declared, in
    /// order, or the error of the first that fails.
    pub open spec fn declare_params(self, params: Seq<Pat>, from: nat) -> Result<
        CompilerView,
        CompileError,
    >
        decreases params.len() - from,
    {
        if from >= params.len() {
            Ok(self)
        } else {
            match params[from as int].target() {
                Err(construct) => Err(CompileError::UnsupportedConstruct(construct)),
                Ok(name) => match self.declare_variable(name) {
                    Err(error) => Err(error),
                    Ok(next) => next.declare_params(params, from + 1),
                },
            }
        }
    }

    /// The context after a function declaration is compiled: parameters and
    /// body are compiled in a context of their own, one scope further in,
    /// and the output of that context is appended to this one.
    pub open spec fn compile_fn_decl(self, function: FnDecl) -> Result<CompilerView, CompileError>
        decreases function, 0nat,
    {
        match self.new_enclosing().declare_params(function.params@, 0) {
            Err(error) => Err(error),
            Ok(inner) => match inner.compile_stmts(function.body@, 0) {
                Err(error) => Err(error),
                Ok(done) => Ok(self.absorb(done.bytecode, done.disassembly)),
            },
        }
    }

    /// The context after a statement is compiled.
    pub open spec fn compile_stmt(self, stmt: Stmt) -> Result<CompilerView, CompileError>
        decreases stmt, 1nat,
    {
        match stmt {
            Stmt::Expr(expr) => match self.compile_expr(expr) {
                Err(error) => Err(error),
                Ok(pushed) => Ok(pushed.emit_op(Instruction::Pop)),
            },
            Stmt::Var(decl) => self.compile_var_decl(decl.decls@, 0),
            Stmt::Fn(function) => self.compile_fn_decl(function),
            Stmt::Other(kind) => Err(CompileError::UnsupportedConstruct(Construct::Statement(kind))),
        }
    }

    /// The context after the statements `stmts[from..]` are compiled, in
    /// order, or the error of the first that fails.
    pub open spec fn compile_stmts(self, stmts: Seq<Stmt>, from: nat) -> Result<
        CompilerView,
        CompileError,
    >
        decreases stmts, stmts.len() - from,
    {
        if from >= stmts.len() {
            Ok(self)
        } else {
            match self.compile_stmt(stmts[from as int]) {
                Err(error) => Err(error),
                Ok(next) => next.compile_stmts(stmts, from + 1),
            }
        }
    }
}

impl CompilerView {
    /// Whether the slot table has room for `count` more bindings declared at
    /// the current depth. At depth 0 it always has: globals take no slot.
    pub open spec fn has_room(self, count: nat) -> bool {
        self.depth == 0 || self.locals.len() + count <= MAX_LOCALS
    }

    /// The context after `instructions` are appended to its output: their
    /// encodings to the byte stream, their records to the disassembly.
    pub open spec fn emit_all(self, instructions: Seq<Instruction>) -> CompilerView {
        CompilerView {
            bytecode: self.bytecode + encode_all(instructions),
            disassembly: self.disassembly + listing(instructions, self.bytecode.len()),
            ..self
        }
    }

    /// This context and `other` hold the same output.
    pub open spec fn same_output(self, other: CompilerView) -> bool {
        self.bytecode == other.bytecode && self.disassembly == other.disassembly
    }
}

impl CompilerView {
    /// `later` holds all that this context holds, in the same places, and
    /// maybe more after it: bytes, records, slots and globals were appended
    /// only. Depth and enclosing context are the same.
    pub open spec fn extends_to(self, later: CompilerView) -> bool {
        &&& self.bytecode.len() <= later.bytecode.len()
        &&& later.bytecode.take(self.bytecode.len() as int) == self.bytecode
        &&& self.disassembly.len() <= later.disassembly.len()
        &&& later.disassembly.take(self.disassembly.len() as int) == self.disassembly
        &&& self.locals.len() <= later.locals.len()
        &&& later.locals.take(self.locals.len() as int) == self.locals
        &&& self.globals.len() <= later.globals.len()
        &&& later.globals.take(self.globals.len() as int) == self.globals
        &&& self.depth == later.depth
        &&& self.enclosing == later.enclosing
    }

    /// Every record of the disassembly points into the byte stream.
    pub open spec fn traced(self) -> bool {
        forall|i: int|
            0 <= i < self.disassembly.len() ==> (#[trigger] self.disassembly[i]).offset
                < self.bytecode.len()
    }
}

/// A fallible step came out as the model says: on success the context is
/// the one the model gives, on failure the error is the one the model gives
/// and the context is as it was.
pub open spec fn settled(
    before: CompilerView,
    after: CompilerView,
    result: Result<(), CompileError>,
    expected: Result<CompilerView, CompileError>,
) -> bool {
    match expected {
        Ok(view) => result is Ok && after == view,
        Err(error) => result == Err::<(), CompileError>(error) && after == before,
    }
}

} // verus!
