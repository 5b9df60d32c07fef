//! The errors a compilation can end in, and the constructs that cause them.

use vstd::prelude::*;
use vstd::string::StringExecFns;

verus! {

/// A literal form that has no instruction.
#[derive(Debug, Clone, Copy, PartialEq, Eq)]
pub enum LiteralKind {
    /// A big-integer literal.
    BigInt,
    /// Text inside a JSX element.
    JsxText,
    /// A string or a regular expression that holds U+0000, the character
    /// that ends a text in the byte stream.
    EmbeddedNul,
}

/// A binding target that is not a plain identifier.
#[derive(Debug, Clone, Copy, PartialEq, Eq)]
pub enum PatternKind {
    Array,
    Rest,
    Object,
    Assign,
    Invalid,
    Expr,
}

/// An expression form that is not a literal.
#[derive(Debug, Clone, Copy, PartialEq, Eq)]
pub enum ExpressionKind {
    This,
    Array,
    Object,
    Function,
    Unary,
    Update,
    Binary,
    Assign,
    Member,
    SuperProp,
    Conditional,
    Call,
    New,
    Sequence,
    Identifier,
    Template,
    TaggedTemplate,
    Arrow,
    Class,
    Yield,
    MetaProperty,
    Await,
    Paren,
    OptionalChain,
    PrivateName,
    Jsx,
    TypeScript,
    Invalid,
}

/// A statement form other than an expression statement, a variable
/// declaration or a function declaration.
#[derive(Debug, Clone, Copy, PartialEq, Eq)]
pub enum StatementKind {
    Block,
    Empty,
    Debugger,
    With,
    Return,
    Labeled,
    Break,
    Continue,
    If,
    Switch,
    Throw,
    Try,
    While,
    DoWhile,
    For,
    ForIn,
    ForOf,
    Class,
    Using,
    TypeScript,
    ModuleDeclaration,
}

/// A piece of syntax that the compiler has no lowering for.
#[derive(Debug, Clone, Copy, PartialEq, Eq)]
pub enum Construct {
    Literal(LiteralKind),
    Pattern(PatternKind),
    Expression(ExpressionKind),
    Statement(StatementKind),
}

/// Why a compilation produced no bytecode.
#[derive(Debug, Clone, PartialEq, Eq)]
pub enum CompileError {
    /// The source could not be loaded.
    LoadFileError(String),
    /// The source could not be parsed.
    ParseError(String),
    /// One function context declared more local bindings than it has slots.
    TooManyLocals,
    /// The source holds a construct that has no lowering.
    UnsupportedConstruct(Construct),
}

impl Construct {
    /// The syntactic category of the construct, as a noun.
    pub open spec fn category(self) -> Seq<char> {
        match self {
            Construct::Literal(_) => "literal"@,
            Construct::Pattern(_) => "pattern"@,
            Construct::Expression(_) => "expression"@,
            Construct::Statement(_) => "statement"@,
        }
    }

    /// The syntactic category of the construct, as a noun.
    pub fn describe(&self) -> (text: &'static str)
        ensures
            text@ == self.category(),
    {
        match self {
            Construct::Literal(_) => "literal",
            Construct::Pattern(_) => "pattern",
            Construct::Expression(_) => "expression",
            Construct::Statement(_) => "statement",
        }
    }
}

impl CompileError {
    /// The text of [`CompileError::message`].
    pub open spec fn text(self) -> Seq<char> {
        match self {
            CompileError::LoadFileError(detail) => "failed to load file: "@ + detail@,
            CompileError::ParseError(detail) => "parse error: "@ + detail@,
            CompileError::TooManyLocals =>
                "too many locals, max number of locals supported is 256"@,
            CompileError::UnsupportedConstruct(construct) => "unsupported construct: "@
                + construct.category(),
        }
    }

    /// A sentence that says what went wrong.
    pub fn message(&self) -> (text: String)
        ensures
            text@ == self.text(),
    {
        match self {
            CompileError::LoadFileError(detail) => String::from_str("failed to load file: ").concat(
                detail.as_str(),
            ),
            CompileError::ParseError(detail) => String::from_str("parse error: ").concat(
                detail.as_str(),
            ),
            CompileError::TooManyLocals => String::from_str(
                "too many locals, max number of locals supported is 256",
            ),
            CompileError::UnsupportedConstruct(construct) => String::from_str(
                "unsupported construct: ",
            ).concat(construct.describe()),
        }
    }
}

} // verus!
