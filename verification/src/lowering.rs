//! Lowering, node by node: which instructions a piece of syntax stands
//! for, and which pieces stand for none.

use crate::ast::{Expr, FnDecl, Lit, Module, Pat, Stmt, VarDeclarator};
use crate::encoding::{is_nul_free, nul_free};
use crate::error::{Construct, LiteralKind, PatternKind};
use crate::instruction::Instruction;
use crate::scope::MAX_LOCALS;
use vstd::prelude::*;

verus! {

impl Lit {
    /// The instruction that pushes the literal, or the kind of literal that
    /// has none. A text that holds U+0000 has none: in the byte stream that
    /// character ends the text.
    pub open spec fn lowered(self) -> Result<Instruction, Construct> {
        match self {
            Lit::Str(s) => if nul_free(s@) {
                Ok(Instruction::LoadString(s@))
            } else {
                Err(Construct::Literal(LiteralKind::EmbeddedNul))
            },
            Lit::Num(bits) => Ok(Instruction::LoadFloat64(bits)),
            Lit::Bool(b) => Ok(Instruction::LoadBool(b)),
            Lit::Null => Ok(Instruction::LoadNull),
            Lit::Regex(exp, flags) => if nul_free(exp@) && nul_free(flags@) {
                Ok(Instruction::LoadRegex(exp@, flags@))
            } else {
                Err(Construct::Literal(LiteralKind::EmbeddedNul))
            },
            Lit::BigInt => Err(Construct::Literal(LiteralKind::BigInt)),
            Lit::JsxText => Err(Construct::Literal(LiteralKind::JsxText)),
        }
    }
}

impl Expr {
    /// The instruction that pushes the value of the expression, or the
    /// construct in it that has no lowering.
    pub open spec fn lowered(self) -> Result<Instruction, Construct> {
        match self {
            Expr::Lit(lit) => lit.lowered(),
            Expr::Other(kind) => Err(Construct::Expression(kind)),
        }
    }
}

impl Pat {
    /// The name that the target binds, or the kind of target that binds no
    /// single name. A name that holds U+0000 is no identifier.
    pub open spec fn target(self) -> Result<Seq<char>, Construct> {
        match self {
            Pat::Ident(name) => if nul_free(name@) {
                Ok(name@)
            } else {
                Err(Construct::Pattern(PatternKind::Invalid))
            },
            Pat::Array => Err(Construct::Pattern(PatternKind::Array)),
            Pat::Rest => Err(Construct::Pattern(PatternKind::Rest)),
            Pat::Object => Err(Construct::Pattern(PatternKind::Object)),
            Pat::Assign => Err(Construct::Pattern(PatternKind::Assign)),
            Pat::Invalid => Err(Construct::Pattern(PatternKind::Invalid)),
            Pat::Expr => Err(Construct::Pattern(PatternKind::Expr)),
        }
    }
}

impl VarDeclarator {
    /// The instruction that pushes the initial value: that of the
    /// initializer, or `LoadUndefined` where there is none.
    pub open spec fn initial(self) -> Result<Instruction, Construct> {
        match self.init {
            Some(init) => init.lowered(),
            None => Ok(Instruction::LoadUndefined),
        }
    }
}

impl Stmt {
    /// How many function declarations stand inside one another in the
    /// statement, the outermost counted.
    pub open spec fn nesting(self) -> nat
        decreases self, 0nat,
    {
        match self {
            Stmt::Fn(function) => 1 + nesting(function.body@, 0),
            _ => 0,
        }
    }
}

/// The deepest nesting of function declarations among the statements
/// `stmts[from..]`.
pub open spec fn nesting(stmts: Seq<Stmt>, from: nat) -> nat
    decreases stmts, stmts.len() - from,
{
    if from >= stmts.len() {
        0
    } else {
        let here = stmts[from as int].nesting();
        let after = nesting(stmts, from + 1);
        if here >= after {
            here
        } else {
            after
        }
    }
}

impl VarDeclarator {
    /// The instructions of the declarator: the push of the initial value,
    /// then the store under the declared name.
    pub open spec fn program(self) -> Seq<Instruction> {
        match (self.initial(), self.name.target()) {
            (Ok(load), Ok(name)) => seq![load, Instruction::StoreVar(name)],
            _ => seq![],
        }
    }
}

/// The instructions of the declarators `decls[from..]`, in source order.
pub open spec fn declarators_program(decls: Seq<VarDeclarator>, from: nat) -> Seq<Instruction>
    decreases decls.len() - from,
{
    if from >= decls.len() {
        seq![]
    } else {
        decls[from as int].program() + declarators_program(decls, from + 1)
    }
}

impl Stmt {
    /// The instructions of the statement, in source order. An expression
    /// statement pushes its value and pops it; a declaration pushes and
    /// stores once per declarator; a function declaration holds the
    /// instructions of its body.
    pub open spec fn program(self) -> Seq<Instruction>
        decreases self, 0nat,
    {
        match self {
            Stmt::Expr(expr) => match expr.lowered() {
                Ok(load) => seq![load, Instruction::Pop],
                Err(_) => seq![],
            },
            Stmt::Var(decl) => declarators_program(decl.decls@, 0),
            Stmt::Fn(function) => program(function.body@, 0),
            Stmt::Other(_) => seq![],
        }
    }
}

/// The instructions of the statements `stmts[from..]`, in source order.
pub open spec fn program(stmts: Seq<Stmt>, from: nat) -> Seq<Instruction>
    decreases stmts, stmts.len() - from,
{
    if from >= stmts.len() {
        seq![]
    } else {
        stmts[from as int].program() + program(stmts, from + 1)
    }
}

impl VarDeclarator {
    /// Initial value and target both have a lowering.
    pub open spec fn lowers(self) -> bool {
        self.initial() is Ok && self.name.target() is Ok
    }
}

/// Each of the targets `params[from..]` binds a name.
pub open spec fn all_bind(params: Seq<Pat>, from: nat) -> bool {
    forall|i: int| from <= i < params.len() ==> (#[trigger] params[i]).target() is Ok
}

/// Each of the declarators `decls[from..]` has a lowering.
pub open spec fn declarators_lower(decls: Seq<VarDeclarator>, from: nat) -> bool {
    forall|i: int| from <= i < decls.len() ==> (#[trigger] decls[i]).lowers()
}

/// The number of bindings that the statements `stmts[from..]` declare in
/// the context that compiles them: one per declarator. What a function
/// declares inside is not counted, it goes to the context of the function.
pub open spec fn declared(stmts: Seq<Stmt>, from: nat) -> nat
    decreases stmts.len() - from,
{
    if from >= stmts.len() {
        0
    } else {
        let here = match stmts[from as int] {
            Stmt::Var(decl) => decl.decls@.len(),
            _ => 0,
        };
        here + declared(stmts, from + 1)
    }
}

impl FnDecl {
    /// The function has a lowering: its parameters bind names, its body has
    /// a lowering, and parameters and declarations of the body together
    /// fit the slot table.
    pub open spec fn lowers(self) -> bool
        decreases self, 0nat,
    {
        &&& all_bind(self.params@, 0)
        &&& all_lower(self.body@, 0)
        &&& self.params@.len() + declared(self.body@, 0) <= MAX_LOCALS
    }
}

impl Stmt {
    /// The statement has a lowering: it is of a kind that has one, and so is
    /// all that stands in it.
    pub open spec fn lowers(self) -> bool
        decreases self, 1nat,
    {
        match self {
            Stmt::Expr(expr) => expr.lowered() is Ok,
            Stmt::Var(decl) => declarators_lower(decl.decls@, 0),
            Stmt::Fn(function) => function.lowers(),
            Stmt::Other(_) => false,
        }
    }
}

/// Each of the statements `stmts[from..]` has a lowering.
pub open spec fn all_lower(stmts: Seq<Stmt>, from: nat) -> bool
    decreases stmts, stmts.len() - from,
{
    from >= stmts.len() || (stmts[from as int].lowers() && all_lower(stmts, from + 1))
}

/// Whether function declarations stand at most `limit` deep inside one
/// another in `stmts`.
pub fn nests_within(stmts: &Vec<Stmt>, limit: usize) -> (fits: bool)
    ensures
        fits == (nesting(stmts@, 0) <= limit),
    decreases *stmts,
{
    let mut i: usize = 0;
    while i < stmts.len()
        invariant
            i <= stmts.len(),
            (nesting(stmts@, 0) <= limit) == (nesting(stmts@, i as nat) <= limit),
        decreases stmts.len() - i,
    {
        assert(nesting(stmts@, i as nat) == if stmts@[i as int].nesting() >= nesting(
            stmts@,
            i as nat + 1,
        ) {
            stmts@[i as int].nesting()
        } else {
            nesting(stmts@, i as nat + 1)
        });
        if let Stmt::Fn(function) = &stmts[i] {
            assert(stmts@[i as int].nesting() == 1 + nesting(function.body@, 0));
            if limit == 0 || !nests_within(&function.body, limit - 1) {
                return false;
            }
        } else {
            assert(stmts@[i as int].nesting() == 0);
        }
        i += 1;
    }
    true
}

impl Module {
    /// Whether a context at depth `depth` can compile the module: whether
    /// the depth of its innermost function body still fits the machine word.
    pub fn fits(&self, depth: usize) -> (fits: bool)
        ensures
            fits == (depth + nesting(self.body@, 0) <= usize::MAX),
    {
        nests_within(&self.body, usize::MAX - depth)
    }
}

impl Lit {
    /// The kind of the literal, where it is one that has no instruction.
    pub fn unsupported(&self) -> (construct: Option<Construct>)
        ensures
            match self.lowered() {
                Ok(_) => construct is None,
                Err(expected) => construct == Some(expected),
            },
    {
        match self {
            Lit::Str(s) => if is_nul_free(s.as_str()) {
                None
            } else {
                Some(Construct::Literal(LiteralKind::EmbeddedNul))
            },
            Lit::Regex(exp, flags) => if is_nul_free(exp.as_str()) && is_nul_free(
                flags.as_str(),
            ) {
                None
            } else {
                Some(Construct::Literal(LiteralKind::EmbeddedNul))
            },
            Lit::BigInt => Some(Construct::Literal(LiteralKind::BigInt)),
            Lit::JsxText => Some(Construct::Literal(LiteralKind::JsxText)),
            _ => None,
        }
    }
}

impl Expr {
    /// The construct in the expression that has no lowering, if there is one.
    pub fn unsupported(&self) -> (construct: Option<Construct>)
        ensures
            match self.lowered() {
                Ok(_) => construct is None,
                Err(expected) => construct == Some(expected),
            },
    {
        match self {
            Expr::Lit(lit) => lit.unsupported(),
            Expr::Other(kind) => Some(Construct::Expression(*kind)),
        }
    }
}

impl Pat {
    /// The name that the target binds, or the kind of target that binds no
    /// single name.
    pub fn binds(&self) -> (name: Result<&String, Construct>)
        ensures
            match self.target() {
                Ok(expected) => name matches Ok(found) && found@ == expected,
                Err(construct) => name == Err::<&String, Construct>(construct),
            },
    {
        match self {
            Pat::Ident(name) => if is_nul_free(name.as_str()) {
                Ok(name)
            } else {
                Err(Construct::Pattern(PatternKind::Invalid))
            },
            Pat::Array => Err(Construct::Pattern(PatternKind::Array)),
            Pat::Rest => Err(Construct::Pattern(PatternKind::Rest)),
            Pat::Object => Err(Construct::Pattern(PatternKind::Object)),
            Pat::Assign => Err(Construct::Pattern(PatternKind::Assign)),
            Pat::Invalid => Err(Construct::Pattern(PatternKind::Invalid)),
            Pat::Expr => Err(Construct::Pattern(PatternKind::Expr)),
        }
    }
}

} // verus!
