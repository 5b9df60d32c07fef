//! Lexical scopes: bindings, the local slot table, and name resolution.

use vstd::prelude::*;

verus! {

/// The number of slots in the local table of one function context.
pub const MAX_LOCALS: usize = 256;

/// An entry of the local slot table. Its slot is its position in the table.
#[derive(Debug, Clone, PartialEq, Eq)]
pub struct Local {
    pub name: String,
    pub depth: usize,
}

/// The mathematical value of a [`Local`].
pub struct LocalView {
    pub name: Seq<char>,
    pub depth: nat,
}

impl View for Local {
    type V = LocalView;

    open spec fn view(&self) -> LocalView {
        LocalView { name: self.name@, depth: self.depth as nat }
    }
}

/// Where a name is stored, and the depth at which it was declared.
#[derive(Debug, Clone, Copy, PartialEq, Eq)]
pub enum Binding {
    /// Declared at depth 0: found by name when the program runs.
    Global,
    /// Declared inside a scope: held in a slot of the owning function.
    Local { slot: usize, depth: usize },
}

/// The mathematical value of a [`Binding`].
pub enum BindingView {
    Global,
    Local { slot: nat, depth: nat },
}

impl View for Binding {
    type V = BindingView;

    open spec fn view(&self) -> BindingView {
        match *self {
            Binding::Global => BindingView::Global,
            Binding::Local { slot, depth } => BindingView::Local {
                slot: slot as nat,
                depth: depth as nat,
            },
        }
    }
}

impl BindingView {
    /// The depth at which the binding was declared.
    pub open spec fn depth(self) -> nat {
        match self {
            BindingView::Global => 0,
            BindingView::Local { depth, .. } => depth,
        }
    }
}

impl Binding {
    /// The depth at which the binding was declared.
    pub fn depth(&self) -> (depth: usize)
        ensures
            depth == self@.depth(),
    {
        match self {
            Binding::Global => 0,
            Binding::Local { depth, .. } => *depth,
        }
    }
}

/// The slot of the most recently declared entry of `locals` that is named
/// `name`, if there is one.
pub open spec fn innermost(locals: Seq<LocalView>, name: Seq<char>) -> Option<int>
    decreases locals.len(),
{
    if locals.len() == 0 {
        None
    } else if locals.last().name == name {
        Some(locals.len() - 1)
    } else {
        innermost(locals.drop_last(), name)
    }
}

/// The innermost entry of a name is the last one of that name in the table:
/// it bears the name, and no entry after it does. Where there is none, no
/// entry bears the name.
pub proof fn lemma_innermost_is_last_match(locals: Seq<LocalView>, name: Seq<char>)
    ensures
        match innermost(locals, name) {
            Some(slot) => {
                &&& 0 <= slot < locals.len()
                &&& locals[slot].name == name
                &&& forall|i: int| slot < i < locals.len() ==> locals[i].name != name
            },
            None => forall|i: int| 0 <= i < locals.len() ==> locals[i].name != name,
        },
    decreases locals.len(),
{
    if locals.len() > 0 && locals.last().name != name {
        let front = locals.drop_last();
        lemma_innermost_is_last_match(front, name);
        match innermost(front, name) {
            Some(slot) => {
                assert forall|i: int| slot < i < locals.len() implies locals[i].name != name by {
                    if i < front.len() {
                        assert(front[i] == locals[i]);
                    }
                }
            },
            None => {
                assert forall|i: int| 0 <= i < locals.len() implies locals[i].name != name by {
                    if i < front.len() {
                        assert(front[i] == locals[i]);
                    }
                }
            },
        }
    }
}

/// The entries of `locals` that were declared outside the scope at `depth`.
pub open spec fn outer(locals: Seq<LocalView>, depth: nat) -> Seq<LocalView> {
    locals.filter(|local: LocalView| local.depth < depth)
}

/// The table lists scopes from the outside in: no entry was declared at a
/// lesser depth than one before it.
pub open spec fn nested_in_order(locals: Seq<LocalView>) -> bool {
    forall|i: int, j: int| 0 <= i <= j < locals.len() ==> locals[i].depth <= locals[j].depth
}

/// In a table that lists scopes from the outside in, the entries declared
/// outside a scope are the first `k` of the table, each in its old slot.
pub proof fn lemma_outer_is_prefix(locals: Seq<LocalView>, depth: nat, k: int)
    requires
        nested_in_order(locals),
        0 <= k <= locals.len(),
        forall|i: int| 0 <= i < k ==> locals[i].depth < depth,
        forall|i: int| k <= i < locals.len() ==> locals[i].depth >= depth,
    ensures
        outer(locals, depth) == locals.take(k),
    decreases locals.len(),
{
    reveal(Seq::filter);
    let keep = |local: LocalView| local.depth < depth;
    if locals.len() == 0 {
        assert(locals.take(k) =~= locals);
    } else {
        let front = locals.drop_last();
        if k == locals.len() {
            lemma_outer_is_prefix(front, depth, k - 1);
            assert(front.take(k - 1) =~= front);
            assert(front.push(locals.last()) =~= locals);
            assert(locals.take(k) =~= locals);
        } else {
            lemma_outer_is_prefix(front, depth, k);
            assert(front.take(k) =~= locals.take(k));
        }
    }
}

/// The first slot of `locals`, counted from the end, whose entry was
/// declared outside the scope at `depth`: the length to which leaving that
/// scope cuts the table.
pub open spec fn cut(locals: Seq<LocalView>, depth: nat) -> int
    decreases locals.len(),
{
    if locals.len() > 0 && locals.last().depth >= depth {
        cut(locals.drop_last(), depth)
    } else {
        locals.len() as int
    }
}

/// Cutting an ordered table leaves exactly the entries declared outside the
/// scope.
pub proof fn lemma_cut_is_outer(locals: Seq<LocalView>, depth: nat)
    requires
        nested_in_order(locals),
    ensures
        0 <= cut(locals, depth) <= locals.len(),
        outer(locals, depth) == locals.take(cut(locals, depth)),
        forall|i: int| 0 <= i < cut(locals, depth) ==> locals[i].depth < depth,
        forall|i: int| cut(locals, depth) <= i < locals.len() ==> locals[i].depth >= depth,
    decreases locals.len(),
{
    if locals.len() > 0 && locals.last().depth >= depth {
        let front = locals.drop_last();
        assert(nested_in_order(front)) by {
            assert forall|i: int, j: int| 0 <= i <= j < front.len() implies front[i].depth
                <= front[j].depth by {
                assert(front[i] == locals[i] && front[j] == locals[j]);
            }
        }
        lemma_cut_is_outer(front, depth);
        assert forall|i: int| 0 <= i < cut(locals, depth) implies locals[i].depth < depth by {
            assert(front[i] == locals[i]);
        }
        assert forall|i: int| cut(locals, depth) <= i < locals.len() implies locals[i].depth
            >= depth by {
            if i < front.len() {
                assert(front[i] == locals[i]);
            }
        }
    } else if locals.len() > 0 {
        let end = locals.len() - 1;
        assert forall|i: int| 0 <= i < locals.len() implies locals[i].depth < depth by {
            assert(locals[i].depth <= locals[end].depth);
        }
    }
    lemma_outer_is_prefix(locals, depth, cut(locals, depth));
}

} // verus!
