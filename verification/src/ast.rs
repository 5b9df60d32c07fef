//! The syntax tree that the compiler reads.
//!
//! The tree holds the forms that have a lowering in full, and of every other
//! form only its kind.

use crate::error::{ExpressionKind, StatementKind};
use vstd::prelude::*;

verus! {

/// A literal.
#[derive(Debug, Clone, PartialEq, Eq)]
pub enum Lit {
    /// A string literal.
    Str(String),
    /// A numeric literal, as the bit pattern of its IEEE-754 double.
    Num(u64),
    /// `true` or `false`.
    Bool(bool),
    /// `null`.
    Null,
    /// A regular expression literal: its pattern and its flags.
    Regex(String, String),
    /// A big-integer literal.
    BigInt,
    /// Text inside a JSX element.
    JsxText,
}

/// The target of a declarator, or a parameter.
#[derive(Debug, Clone, PartialEq, Eq)]
pub enum Pat {
    /// A plain identifier.
    Ident(String),
    /// `[a, b]`
    Array,
    /// `...rest`
    Rest,
    /// `{a, b}`
    Object,
    /// `a = 1`
    Assign,
    /// A target that the parser could not make sense of.
    Invalid,
    /// An expression in the place of a target.
    Expr,
}

/// An expression.
#[derive(Debug, Clone, PartialEq, Eq)]
pub enum Expr {
    /// A literal.
    Lit(Lit),
    /// Any other expression, by its kind.
    Other(ExpressionKind),
}

/// One `name = init` of a variable declaration.
#[derive(Debug, Clone, PartialEq, Eq)]
pub struct VarDeclarator {
    pub name: Pat,
    pub init: Option<Expr>,
}

/// A `var`, `let` or `const` declaration.
#[derive(Debug, Clone, PartialEq, Eq)]
pub struct VarDecl {
    pub decls: Vec<VarDeclarator>,
}

/// A function declaration.
#[derive(Debug, PartialEq, Eq)]
pub struct FnDecl {
    pub params: Vec<Pat>,
    pub body: Vec<Stmt>,
}

/// A statement.
#[derive(Debug, PartialEq, Eq)]
pub enum Stmt {
    /// An expression whose value is discarded.
    Expr(Expr),
    /// A variable declaration.
    Var(VarDecl),
    /// A function declaration.
    Fn(FnDecl),
    /// Any other statement, by its kind.
    Other(StatementKind),
}

/// A parsed script.
#[derive(Debug, PartialEq, Eq)]
pub struct Module {
    pub body: Vec<Stmt>,
}

} // verus!
