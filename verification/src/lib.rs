//! A bytecode compiler front-end for a small ECMAScript subset.
//!
//! A syntax tree is walked depth-first and lowered to a flat instruction
//! stream for a stack machine. Every executable function carries a contract
//! over a mathematical model of the compiler state, and the contracts are
//! proved by Verus.
//!
//! - [`ast`]: the syntax tree that is read.
//! - [`instruction`] and [`encoding`]: the instruction set and its layout in
//!   bytes, with a reader for it.
//! - [`scope`]: bindings, the local slot table, name resolution.
//! - [`disassembly`]: the record kept of each emitted instruction.
//! - [`lowering`]: what each piece of syntax stands for.
//! - [`model`]: the state of a compiler context as a mathematical value, and
//!   what each step of the walk does to it.
//! - [`compiler`]: the compiler context and the walk.
//! - [`laws`]: what holds of every context and every walk.
//! - [`error`]: the errors a compilation can end in.

pub mod ast;
pub mod compiler;
pub mod disassembly;
pub mod encoding;
pub mod error;
pub mod instruction;
pub mod laws;
pub mod lowering;
pub mod model;
pub mod scope;

pub use ast::{Expr, FnDecl, Lit, Module, Pat, Stmt, VarDecl, VarDeclarator};
pub use compiler::Compiler;
pub use disassembly::DisassemblyRecord;
pub use error::{CompileError, Construct, ExpressionKind, LiteralKind, PatternKind, StatementKind};
pub use instruction::{Instruction, Operation};
pub use lowering::nests_within;
pub use scope::{Binding, Local, MAX_LOCALS};
