//! The compiler context and the walk over the syntax tree.

use crate::ast::{Expr, FnDecl, Lit, Module, Pat, Stmt, VarDecl, VarDeclarator};
use crate::disassembly::{listing, shift_all, DisassemblyRecord};
use crate::encoding::{is_nul_free, push_le_bytes, terminated};
use crate::error::{CompileError, Construct, LiteralKind};
use crate::instruction::{encode_all, Instruction, Operation};
use crate::laws::append::{
    lemma_extends_reflexive, lemma_extends_transitive, lemma_params_append, lemma_stmt_appends,
    lemma_stmts_append, lemma_var_declator_appends,
};
use crate::laws::output::lemma_stmts_program;
use crate::laws::success::lemma_stmts_compile;
use crate::lowering::{all_lower, declared, nesting, program};
use crate::model::{settled, CompilerView};
use crate::scope::{cut, innermost, Binding, Local, LocalView, MAX_LOCALS};
use vstd::prelude::*;
use vstd::string::StrSliceExecFns;

verus! {

/// The context in which one function body, or the module itself, is
/// compiled: its byte stream, its disassembly, its bindings and its depth.
pub struct Compiler<'a> {
    bytecode: Vec<u8>,
    disassembly: Vec<DisassemblyRecord>,
    locals: Vec<Local>,
    globals: Vec<String>,
    current_scope_depth: usize,
    enclosing: Option<&'a Compiler<'a>>,
}

impl<'a> View for Compiler<'a> {
    type V = CompilerView;

    closed spec fn view(&self) -> CompilerView
        decreases self,
    {
        CompilerView {
            bytecode: self.bytecode@,
            disassembly: self.disassembly@.map_values(|record: DisassemblyRecord| record@),
            locals: self.locals@.map_values(|local: Local| local@),
            globals: self.globals@.map_values(|name: String| name@),
            depth: self.current_scope_depth as nat,
            enclosing: match self.enclosing {
                Some(outer) => Some(Box::new(outer.view())),
                None => None,
            },
        }
    }
}

impl<'a> Compiler<'a> {
    /// A module context that has compiled nothing.
    pub fn new() -> (compiler: Compiler<'a>)
        ensures
            compiler@ == CompilerView::fresh(),
    {
        let compiler = Compiler {
            bytecode: Vec::new(),
            disassembly: Vec::new(),
            locals: Vec::new(),
            globals: Vec::new(),
            current_scope_depth: 0,
            enclosing: None,
        };
        assert(compiler@ =~~= CompilerView::fresh());
        compiler
    }

    /// The empty context of a function declared in this one. It stands one
    /// scope further in, and knows the context around it.
    pub fn new_enclosing(&'a self) -> (inner: Compiler<'a>)
        requires
            self@.depth < usize::MAX,
        ensures
            inner@ == self@.new_enclosing(),
    {
        let mut inner = Compiler {
            bytecode: Vec::new(),
            disassembly: Vec::new(),
            locals: Vec::new(),
            globals: Vec::new(),
            current_scope_depth: self.current_scope_depth,
            enclosing: Some(self),
        };
        inner.enter_scope();
        assert(inner@ =~~= self@.new_enclosing());
        inner
    }

    /// The bytes emitted so far.
    pub fn bytecode(&self) -> (bytes: &Vec<u8>)
        ensures
            bytes@ == self@.bytecode,
    {
        &self.bytecode
    }

    /// The local slot table: entry `i` holds the binding of slot `i`.
    pub fn locals(&self) -> (locals: &Vec<Local>)
        ensures
            locals@.map_values(|local: Local| local@) == self@.locals,
    {
        &self.locals
    }

    /// The context of the function around this one, if there is one.
    pub fn enclosing(&self) -> (outer: Option<&'a Compiler<'a>>)
        ensures
            match outer {
                Some(context) => self@.enclosing == Some(Box::new(context@)),
                None => self@.enclosing is None,
            },
    {
        self.enclosing
    }

    /// The current scope depth.
    pub fn depth(&self) -> (depth: usize)
        ensures
            depth == self@.depth,
    {
        self.current_scope_depth
    }

    /// Enters a scope.
    pub fn enter_scope(&mut self)
        requires
            old(self)@.depth < usize::MAX,
        ensures
            final(self)@ == old(self)@.enter_scope(),
    {
        self.current_scope_depth += 1;
        assert(self@ =~~= old(self)@.enter_scope());
    }

    /// One record per emitted instruction, in emission order.
    pub fn disassembly(&self) -> (records: &Vec<DisassemblyRecord>)
        ensures
            records@.map_values(|record: DisassemblyRecord| record@) == self@.disassembly,
    {
        &self.disassembly
    }

    /// Leaves the innermost scope. Its bindings are dropped from the slot
    /// table; the bindings declared outside it keep their slots.
    pub fn exit_scope(&mut self)
        requires
            old(self)@.depth > 0,
        ensures
            final(self)@ == old(self)@.exit_scope(),
    {
        let depth = self.current_scope_depth;
        let mut keep: usize = self.locals.len();
        assert(self@.locals.take(keep as int) =~= self@.locals);
        while keep > 0 && self.locals[keep - 1].depth >= depth
            invariant
                keep <= self.locals.len(),
                cut(self@.locals, depth as nat) == cut(self@.locals.take(keep as int), depth as nat),
            decreases keep,
        {
            proof {
                let table = self@.locals.take(keep as int);
                assert(table.last() == self.locals[keep - 1]@);
                assert(table.drop_last() =~= self@.locals.take(keep - 1));
            }
            keep -= 1;
        }
        proof {
            let table = self@.locals.take(keep as int);
            if keep > 0 {
                assert(table.last() == self.locals[keep - 1]@);
            }
            assert(cut(self@.locals, depth as nat) == keep);
            assert(self.locals@.take(keep as int).map_values(|local: Local| local@)
                =~= self@.locals.take(keep as int));
        }
        self.locals.truncate(keep);
        self.current_scope_depth -= 1;
        assert(self@ =~~= old(self)@.exit_scope());
    }

    /// Appends an entry to the slot table. With a full table nothing is
    /// appended and the capacity error comes back.
    pub fn add_local(&mut self, name: String, depth: usize) -> (result: Result<(), CompileError>)
        ensures
            settled(old(self)@, final(self)@, result, old(self)@.add_local(name@, depth as nat)),
    {
        if self.locals.len() >= MAX_LOCALS {
            return Err(CompileError::TooManyLocals);
        }
        let ghost before = self@.locals;
        let ghost entry = LocalView { name: name@, depth: depth as nat };
        self.locals.push(Local { name, depth });
        proof {
            assert(self@.locals =~= before.push(entry));
            assert(self@ =~~= old(self)@.add_local(name@, depth as nat)->Ok_0);
        }
        Ok(())
    }

    /// Whether `name` is among the globals.
    fn has_global(&self, name: &String) -> (found: bool)
        ensures
            found == self@.globals.contains(name@),
    {
        let mut i: usize = 0;
        while i < self.globals.len()
            invariant
                i <= self.globals.len(),
                forall|k: int| 0 <= k < i ==> self@.globals[k] != name@,
            decreases self.globals.len() - i,
        {
            if self.globals[i] == *name {
                assert(self@.globals[i as int] == name@);
                return true;
            }
            i += 1;
        }
        false
    }

    /// Declares `name` at the current depth: as a global at depth 0, in the
    /// next free slot of the local table inside a scope. With a full table
    /// nothing is declared and the capacity error comes back.
    pub fn declare_variable(&mut self, name: String) -> (result: Result<(), CompileError>)
        ensures
            settled(old(self)@, final(self)@, result, old(self)@.declare_variable(name@)),
    {
        if self.current_scope_depth == 0 {
            if !self.has_global(&name) {
                let ghost before = self@.globals;
                self.globals.push(name);
                assert(self@.globals =~= before.push(name@));
                assert(self@ =~~= old(self)@.declare_variable(name@)->Ok_0);
            }
            Ok(())
        } else {
            let depth = self.current_scope_depth;
            self.add_local(name, depth)
        }
    }

    /// Looks `name` up: the most recently declared local of that name wins,
    /// a global of that name comes next.
    pub fn resolve_variable(&self, name: &str) -> (binding: Option<Binding>)
        ensures
            match self@.resolve_variable(name@) {
                Some(expected) => binding matches Some(found) && found@ == expected,
                None => binding is None,
            },
    {
        let wanted = name.to_owned();
        let mut i: usize = self.locals.len();
        assert(self@.locals.take(i as int) =~= self@.locals);
        while i > 0
            invariant
                i <= self.locals.len(),
                wanted@ == name@,
                innermost(self@.locals, name@) == innermost(self@.locals.take(i as int), name@),
            decreases i,
        {
            proof {
                let table = self@.locals.take(i as int);
                assert(table.last() == self.locals[i - 1]@);
                assert(table.drop_last() =~= self@.locals.take(i - 1));
            }
            if self.locals[i - 1].name == wanted {
                assert(self@.locals[i - 1] == self.locals[i - 1]@);
                return Some(Binding::Local { slot: i - 1, depth: self.locals[i - 1].depth });
            }
            i -= 1;
        }
        if self.has_global(&wanted) {
            Some(Binding::Global)
        } else {
            None
        }
    }

    /// Appends the UTF-8 bytes of `s` and the terminator to the byte stream.
    fn emit_string(&mut self, s: &str)
        ensures
            final(self)@ == (CompilerView {
                bytecode: old(self)@.bytecode + terminated(s@),
                ..old(self)@
            }),
    {
        let mut bytes = s.as_bytes_vec();
        self.bytecode.append(&mut bytes);
        self.bytecode.push(0x00);
        assert(self@ =~~= (CompilerView {
            bytecode: old(self)@.bytecode + terminated(s@),
            ..old(self)@
        }));
    }

    /// Appends `op` to the byte stream: its opcode, then its operands. The
    /// disassembly gets the record of where it starts.
    pub fn emit_op(&mut self, op: Operation)
        requires
            op@.well_formed(),
        ensures
            final(self)@ == old(self)@.emit_op(op@),
    {
        let record = DisassemblyRecord {
            offset: self.bytecode.len(),
            opcode: op.get_opcode(),
            mnemonic: op.get_name(),
        };
        self.bytecode.push(op.get_opcode());
        match &op {
            Operation::LoadString(s) => {
                self.emit_string(s.as_str());
            },
            Operation::LoadFloat64(bits) => {
                push_le_bytes(&mut self.bytecode, *bits);
            },
            Operation::LoadBool(b) => {
                if *b {
                    self.bytecode.push(0x01);
                } else {
                    self.bytecode.push(0x00);
                }
            },
            Operation::StoreVar(name) => {
                self.emit_string(name.as_str());
            },
            Operation::LoadVar(name) => {
                self.emit_string(name.as_str());
            },
            Operation::LoadRegex(exp, flags) => {
                self.emit_string(exp.as_str());
                self.emit_string(flags.as_str());
            },
            Operation::Return => {},
            Operation::LoadUndefined => {},
            Operation::Pop => {},
            Operation::LoadNull => {},
        }
        let ghost log = self@.disassembly;
        self.disassembly.push(record);
        proof {
            assert(self@.disassembly =~= log.push(record@));
            assert(self@.bytecode =~= old(self)@.bytecode + op@.encoding());
            assert(self@ =~~= old(self)@.emit_op(op@));
        }
    }

    /// Cuts the byte stream, the disassembly and the tables back to the
    /// given lengths.
    fn rewind(&mut self, bytecode: usize, disassembly: usize, locals: usize, globals: usize)
        requires
            bytecode <= old(self)@.bytecode.len(),
            disassembly <= old(self)@.disassembly.len(),
            locals <= old(self)@.locals.len(),
            globals <= old(self)@.globals.len(),
        ensures
            final(self)@ == (CompilerView {
                bytecode: old(self)@.bytecode.take(bytecode as int),
                disassembly: old(self)@.disassembly.take(disassembly as int),
                locals: old(self)@.locals.take(locals as int),
                globals: old(self)@.globals.take(globals as int),
                ..old(self)@
            }),
    {
        self.bytecode.truncate(bytecode);
        self.disassembly.truncate(disassembly);
        self.locals.truncate(locals);
        self.globals.truncate(globals);
        assert(self@ =~~= (CompilerView {
            bytecode: old(self)@.bytecode.take(bytecode as int),
            disassembly: old(self)@.disassembly.take(disassembly as int),
            locals: old(self)@.locals.take(locals as int),
            globals: old(self)@.globals.take(globals as int),
            ..old(self)@
        }));
    }

    /// Compiles a literal: emits the instruction that pushes it.
    pub fn compile_lit(&mut self, lit: &Lit) -> (result: Result<(), CompileError>)
        ensures
            settled(old(self)@, final(self)@, result, old(self)@.compile_lit(*lit)),
    {
        match lit {
            Lit::Str(s) => {
                if !is_nul_free(s.as_str()) {
                    return Err(
                        CompileError::UnsupportedConstruct(
                            Construct::Literal(LiteralKind::EmbeddedNul),
                        ),
                    );
                }
                self.emit_op(Operation::LoadString(s.clone()));
            },
            Lit::Num(bits) => {
                self.emit_op(Operation::LoadFloat64(*bits));
            },
            Lit::Bool(b) => {
                self.emit_op(Operation::LoadBool(*b));
            },
            Lit::Null => {
                self.emit_op(Operation::LoadNull);
            },
            Lit::Regex(exp, flags) => {
                if !is_nul_free(exp.as_str()) || !is_nul_free(flags.as_str()) {
                    return Err(
                        CompileError::UnsupportedConstruct(
                            Construct::Literal(LiteralKind::EmbeddedNul),
                        ),
                    );
                }
                self.emit_op(Operation::LoadRegex(exp.clone(), flags.clone()));
            },
            Lit::BigInt => {
                return Err(
                    CompileError::UnsupportedConstruct(Construct::Literal(LiteralKind::BigInt)),
                );
            },
            Lit::JsxText => {
                return Err(
                    CompileError::UnsupportedConstruct(Construct::Literal(LiteralKind::JsxText)),
                );
            },
        }
        Ok(())
    }

    /// Compiles an expression: emits the instructions that leave its value
    /// on the stack.
    pub fn compile_expr(&mut self, expr: &Expr) -> (result: Result<(), CompileError>)
        ensures
            settled(old(self)@, final(self)@, result, old(self)@.compile_expr(*expr)),
    {
        match expr {
            Expr::Lit(lit) => self.compile_lit(lit),
            Expr::Other(kind) => Err(
                CompileError::UnsupportedConstruct(Construct::Expression(*kind)),
            ),
        }
    }

    /// Compiles one declarator: pushes the initial value, or `undefined`
    /// where there is none, declares the name and stores the value under it.
    pub fn compile_var_declator(&mut self, declarator: &VarDeclarator) -> (result: Result<
        (),
        CompileError,
    >)
        ensures
            settled(
                old(self)@,
                final(self)@,
                result,
                old(self)@.compile_var_declator(*declarator),
            ),
    {
        if let Some(init) = &declarator.init {
            if let Some(construct) = init.unsupported() {
                return Err(CompileError::UnsupportedConstruct(construct));
            }
        }
        let name = match declarator.name.binds() {
            Ok(name) => name,
            Err(construct) => {
                return Err(CompileError::UnsupportedConstruct(construct));
            },
        };
        // The name is declared before anything is emitted: a full slot table
        // then leaves the byte stream as it was. Declaring and emitting touch
        // different parts of the context, so the order does not show.
        match self.declare_variable(name.clone()) {
            Err(error) => {
                return Err(error);
            },
            Ok(()) => {},
        }
        let ghost declared = self@;
        match &declarator.init {
            Some(init) => {
                let pushed = self.compile_expr(init);
                assert(pushed is Ok);
            },
            None => {
                self.emit_op(Operation::LoadUndefined);
            },
        }
        self.emit_op(Operation::StoreVar(name.clone()));
        proof {
            let load = declarator.initial()->Ok_0;
            assert(self@ == declared.emit_op(load).emit_op(Instruction::StoreVar(name@)));
            assert(self@ =~~= old(self)@.compile_var_declator(*declarator)->Ok_0);
        }
        Ok(())
    }

    /// Compiles a variable declaration: its declarators, in order. Where one
    /// of them fails, the context is left as it was before the first.
    pub fn compile_var_decl(&mut self, var_decl: &VarDecl) -> (result: Result<(), CompileError>)
        ensures
            settled(
                old(self)@,
                final(self)@,
                result,
                old(self)@.compile_var_decl(var_decl.decls@, 0),
            ),
    {
        let bytecode = self.bytecode.len();
        let disassembly = self.disassembly.len();
        let locals = self.locals.len();
        let globals = self.globals.len();
        proof {
            lemma_extends_reflexive(self@);
        }
        let mut i: usize = 0;
        while i < var_decl.decls.len()
            invariant
                i <= var_decl.decls.len(),
                bytecode == old(self)@.bytecode.len(),
                disassembly == old(self)@.disassembly.len(),
                locals == old(self)@.locals.len(),
                globals == old(self)@.globals.len(),
                old(self)@.extends_to(self@),
                old(self)@.compile_var_decl(var_decl.decls@, 0) == self@.compile_var_decl(
                    var_decl.decls@,
                    i as nat,
                ),
            decreases var_decl.decls.len() - i,
        {
            let ghost before = self@;
            match self.compile_var_declator(&var_decl.decls[i]) {
                Ok(()) => {
                    proof {
                        lemma_var_declator_appends(before, var_decl.decls[i as int]);
                        lemma_extends_transitive(old(self)@, before, self@);
                    }
                },
                Err(error) => {
                    self.rewind(bytecode, disassembly, locals, globals);
                    assert(self@ =~~= old(self)@);
                    return Err(error);
                },
            }
            i += 1;
        }
        Ok(())
    }

    /// Declares the parameters of a function, in order.
    fn declare_params(&mut self, params: &Vec<Pat>) -> (result: Result<(), CompileError>)
        ensures
            match old(self)@.declare_params(params@, 0) {
                Ok(view) => result is Ok && final(self)@ == view,
                Err(error) => result == Err::<(), CompileError>(error),
            },
    {
        let mut i: usize = 0;
        while i < params.len()
            invariant
                i <= params.len(),
                old(self)@.declare_params(params@, 0) == self@.declare_params(params@, i as nat),
            decreases params.len() - i,
        {
            let name = match params[i].binds() {
                Ok(name) => name,
                Err(construct) => {
                    return Err(CompileError::UnsupportedConstruct(construct));
                },
            };
            match self.declare_variable(name.clone()) {
                Ok(()) => {},
                Err(error) => {
                    return Err(error);
                },
            }
            i += 1;
        }
        Ok(())
    }

    /// Ends the context and hands out what it emitted.
    fn into_output(self) -> (output: (Vec<u8>, Vec<DisassemblyRecord>))
        ensures
            output.0@ == self@.bytecode,
            output.1@.map_values(|record: DisassemblyRecord| record@) == self@.disassembly,
    {
        (self.bytecode, self.disassembly)
    }

    /// Appends the output of a finished inner context: its bytes as they
    /// are, its records moved by the number of bytes that stood here before.
    fn absorb(&mut self, bytecode: Vec<u8>, disassembly: Vec<DisassemblyRecord>)
        requires
            forall|i: int|
                0 <= i < disassembly.len() ==> (#[trigger] disassembly[i]).offset < bytecode.len(),
        ensures
            final(self)@ == old(self)@.absorb(
                bytecode@,
                disassembly@.map_values(|record: DisassemblyRecord| record@),
            ),
    {
        let base = self.bytecode.len();
        let mut bytecode = bytecode;
        let ghost taken = bytecode@;
        let ghost records = disassembly@.map_values(|record: DisassemblyRecord| record@);
        self.bytecode.append(&mut bytecode);
        assert(self.bytecode.len() == base + taken.len());
        assert(self@ =~~= (CompilerView {
            bytecode: old(self)@.bytecode + taken,
            disassembly: old(self)@.disassembly + shift_all(records, base as nat).take(0),
            ..old(self)@
        }));
        let mut i: usize = 0;
        while i < disassembly.len()
            invariant
                i <= disassembly.len(),
                base == old(self)@.bytecode.len(),
                base + taken.len() <= usize::MAX,
                records == disassembly@.map_values(|record: DisassemblyRecord| record@),
                forall|k: int|
                    0 <= k < disassembly.len() ==> (#[trigger] disassembly[k]).offset
                        < taken.len(),
                self@ == (CompilerView {
                    bytecode: old(self)@.bytecode + taken,
                    disassembly: old(self)@.disassembly + shift_all(records, base as nat).take(
                        i as int,
                    ),
                    ..old(self)@
                }),
            decreases disassembly.len() - i,
        {
            let record = disassembly[i];
            let ghost log = self@.disassembly;
            let moved = DisassemblyRecord {
                offset: record.offset + base,
                opcode: record.opcode,
                mnemonic: record.mnemonic,
            };
            self.disassembly.push(moved);
            proof {
                assert(moved@ == records[i as int].shifted(base as nat));
                assert(self@.disassembly =~= log.push(moved@));
                assert(shift_all(records, base as nat).take(i + 1) =~= shift_all(
                    records,
                    base as nat,
                ).take(i as int).push(moved@));
                assert(self@ =~~= (CompilerView {
                    bytecode: old(self)@.bytecode + taken,
                    disassembly: old(self)@.disassembly + shift_all(records, base as nat).take(
                        i + 1,
                    ),
                    ..old(self)@
                }));
            }
            i += 1;
        }
        proof {
            assert(shift_all(records, base as nat).take(i as int) =~= shift_all(
                records,
                base as nat,
            ));
        }
    }

    /// Compiles a function declaration. Parameters and body are compiled in
    /// a context of their own, one scope further in; what that context
    /// emitted is appended to this one. Where the function fails to compile,
    /// this context is left as it was.
    pub fn compile_fn_decl(&mut self, function: &FnDecl) -> (result: Result<(), CompileError>)
        requires
            old(self)@.depth + 1 + nesting(function.body@, 0) <= usize::MAX,
        ensures
            settled(old(self)@, final(self)@, result, old(self)@.compile_fn_decl(*function)),
        decreases *function, 0nat,
    {
        let mut inner = self.new_enclosing();
        let ghost opened = inner@;
        match inner.declare_params(&function.params) {
            Ok(()) => {},
            Err(error) => {
                return Err(error);
            },
        }
        let ghost declared = inner@;
        proof {
            lemma_params_append(opened, function.params@, 0);
        }
        match inner.compile_stmts(&function.body) {
            Ok(()) => {},
            Err(error) => {
                return Err(error);
            },
        }
        let ghost done = inner@;
        proof {
            lemma_stmts_append(declared, function.body@, 0);
        }
        inner.exit_scope();
        let (bytecode, disassembly) = inner.into_output();
        proof {
            let records = disassembly@.map_values(|record: DisassemblyRecord| record@);
            assert forall|i: int| 0 <= i < disassembly.len() implies (#[trigger] disassembly[i]).offset
                < bytecode.len() by {
                assert(records[i] == disassembly[i]@);
                assert(done.disassembly[i].offset < done.bytecode.len());
            }
        }
        self.absorb(bytecode, disassembly);
        Ok(())
    }

    /// Compiles a statement. Where it fails, the context is left as it was.
    pub fn compile_stmt(&mut self, stmt: &Stmt) -> (result: Result<(), CompileError>)
        requires
            old(self)@.depth + stmt.nesting() <= usize::MAX,
        ensures
            settled(old(self)@, final(self)@, result, old(self)@.compile_stmt(*stmt)),
        decreases *stmt, 1nat,
    {
        match stmt {
            Stmt::Expr(expr) => {
                match self.compile_expr(expr) {
                    Ok(()) => {},
                    Err(error) => {
                        return Err(error);
                    },
                }
                self.emit_op(Operation::Pop);
                Ok(())
            },
            Stmt::Var(var_decl) => self.compile_var_decl(var_decl),
            Stmt::Fn(function) => self.compile_fn_decl(function),
            Stmt::Other(kind) => Err(
                CompileError::UnsupportedConstruct(Construct::Statement(*kind)),
            ),
        }
    }

    /// Compiles statements, in order. Where one of them fails, the context
    /// is left as it was before the first.
    pub fn compile_stmts(&mut self, stmts: &Vec<Stmt>) -> (result: Result<(), CompileError>)
        requires
            old(self)@.depth + nesting(stmts@, 0) <= usize::MAX,
        ensures
            settled(old(self)@, final(self)@, result, old(self)@.compile_stmts(stmts@, 0)),
        decreases *stmts, 2nat,
    {
        let bytecode = self.bytecode.len();
        let disassembly = self.disassembly.len();
        let locals = self.locals.len();
        let globals = self.globals.len();
        proof {
            lemma_extends_reflexive(self@);
        }
        let mut i: usize = 0;
        while i < stmts.len()
            invariant
                i <= stmts.len(),
                bytecode == old(self)@.bytecode.len(),
                disassembly == old(self)@.disassembly.len(),
                locals == old(self)@.locals.len(),
                globals == old(self)@.globals.len(),
                old(self)@.extends_to(self@),
                self@.depth + nesting(stmts@, i as nat) <= usize::MAX,
                old(self)@.compile_stmts(stmts@, 0) == self@.compile_stmts(stmts@, i as nat),
            decreases stmts.len() - i,
        {
            let ghost before = self@;
            match self.compile_stmt(&stmts[i]) {
                Ok(()) => {
                    proof {
                        lemma_stmt_appends(before, stmts[i as int]);
                        lemma_extends_transitive(old(self)@, before, self@);
                    }
                },
                Err(error) => {
                    self.rewind(bytecode, disassembly, locals, globals);
                    assert(self@ =~~= old(self)@);
                    return Err(error);
                },
            }
            i += 1;
        }
        Ok(())
    }

    /// Compiles a module and hands out the byte stream of this context,
    /// with the module's instructions at its end: the encodings of its
    /// program, in source order. The module compiles if every construct in
    /// it has a lowering and no slot table is asked for more than it holds;
    /// where it does not, the first failure in source order is reported, and
    /// nothing of the module is emitted or declared.
    pub fn compile(&mut self, module: &Module) -> (result: Result<Vec<u8>, CompileError>)
        requires
            old(self)@.depth + nesting(module.body@, 0) <= usize::MAX,
        ensures
            match old(self)@.compile_stmts(module.body@, 0) {
                Ok(view) => {
                    &&& final(self)@ == view
                    &&& result matches Ok(bytes)
                    &&& bytes@ == view.bytecode
                },
                Err(error) => final(self)@ == old(self)@ && result == Err::<
                    Vec<u8>,
                    CompileError,
                >(error),
            },
            old(self)@.locals.len() <= MAX_LOCALS ==> (result is Ok <==> all_lower(module.body@, 0)
                && old(self)@.has_room(declared(module.body@, 0))),
            result matches Ok(bytes) ==> {
                &&& bytes@ == old(self)@.bytecode + encode_all(program(module.body@, 0))
                &&& final(self)@.disassembly == old(self)@.disassembly + listing(
                    program(module.body@, 0),
                    old(self)@.bytecode.len(),
                )
            },
    {
        proof {
            lemma_stmts_program(self@, module.body@, 0);
            if self@.locals.len() <= MAX_LOCALS {
                lemma_stmts_compile(self@, module.body@, 0);
            }
        }
        match self.compile_stmts(&module.body) {
            Ok(()) => {
                let bytes = self.bytecode.clone();
                assert(bytes@ =~= self@.bytecode);
                Ok(bytes)
            },
            Err(error) => Err(error),
        }
    }
}

} // verus!
