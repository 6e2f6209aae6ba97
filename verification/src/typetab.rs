//! Scope-indexed type table. Scopes form a parent chain and are kept in an
//! arena: each scope record holds the handle of its parent, an append-only
//! list of type slots, and a "covers" mapping fixed at construction from
//! alias/generic names to resolved types. Lookups take a slot index and an
//! environment index (ancestor distance: 0 is this scope, 1 its parent, and
//! so on) and walk the chain; a slot missing at depth 0 falls through to the
//! parent at depth 0 rather than failing.

use vstd::prelude::*;

use crate::token::str_eq;
use crate::types::{Type, TypeNode, TypeMode};

verus! {

/// A structural failure of a table lookup.
#[derive(Clone, Copy, Debug, PartialEq, Eq, Structural)]
pub enum TableError {
    /// The walk ran past the root of the scope chain.
    InvalidEnvironmentIndex,
    /// No cover of the requested name exists at the terminal scope.
    InvalidTypeIndex,
}

/// One scope record of the arena.
#[derive(Debug, PartialEq)]
pub struct Scope {
    /// Handle of the parent scope; the root has none. Always smaller than
    /// the record's own handle, so chains cannot be cyclic.
    pub parent: Option<usize>,
    /// The type slots declared in this scope, append-only.
    pub types: Vec<Type>,
    /// Alias/generic-binding entries, fixed at construction; looked up by
    /// name, first entry wins.
    pub covers: Vec<(String, Type)>,
}

/// The scope-indexed type table: an arena of scope records addressed by
/// integer handles.
#[derive(Debug, PartialEq)]
pub struct TypeTab {
    pub scopes: Vec<Scope>,
}

/// First cover entry named `name`, if any.
pub open spec fn spec_cover_lookup(covers: Seq<(String, Type)>, name: Seq<char>) -> Option<Type>
    decreases covers.len(),
{
    if covers.len() == 0 {
        None
    } else if covers[0].0@ == name {
        Some(covers[0].1)
    } else {
        spec_cover_lookup(covers.drop_first(), name)
    }
}

impl TypeTab {
    /// Arena well-formedness: every parent handle points at an earlier
    /// record, so every parent walk terminates.
    pub open spec fn wf(self) -> bool {
        forall|i: int|
            0 <= i < self.scopes@.len() ==> match (#[trigger] self.scopes@[i]).parent {
                Some(p) => p < i,
                None => true,
            }
    }

    /// Number of ancestors above `scope`.
    pub open spec fn chain_len(self, scope: int) -> nat
        decreases scope + 1 when self.wf() && 0 <= scope < self.scopes@.len()
    {
        match self.scopes@[scope].parent {
            Some(p) => 1 + self.chain_len(p as int),
            None => 0,
        }
    }

    /// The scope whose slot list a `(index, env)` lookup lands in: at depth 0
    /// the slot must exist, else the lookup falls through to the parent at
    /// depth 0; at depth `n + 1` it defers to the parent at depth `n`. `None`
    /// means the walk ran past the root.
    pub open spec fn spec_slot_scope(self, scope: int, index: int, env: int) -> Option<int>
        decreases 2 * scope + if env == 0 { 1int } else { 0int }
            when self.wf() && 0 <= scope < self.scopes@.len()
    {
        if env == 0 {
            if index < self.scopes@[scope].types@.len() {
                Some(scope)
            } else {
                self.spec_slot_scope(scope, index, 1)
            }
        } else {
            match self.scopes@[scope].parent {
                Some(p) => self.spec_slot_scope(p as int, index, env - 1),
                None => None,
            }
        }
    }

    /// The scope a cover lookup of depth `env` lands in: exactly `env`
    /// parent steps, with no fallthrough.
    pub open spec fn spec_cover_scope(self, scope: int, env: int) -> Option<int>
        decreases scope + 1 when self.wf() && 0 <= scope < self.scopes@.len()
    {
        if env == 0 {
            Some(scope)
        } else {
            match self.scopes@[scope].parent {
                Some(p) => self.spec_cover_scope(p as int, env - 1),
                None => None,
            }
        }
    }

    /// A fresh table holding only the global (root) scope, with no slots and
    /// no covers.
    pub fn global() -> (r: TypeTab)
        ensures
            r.wf(),
            r.scopes@.len() == 1,
            r.scopes@[0].parent is None,
            r.scopes@[0].types@ =~= Seq::<Type>::empty(),
            r.scopes@[0].covers@ =~= Seq::<(String, Type)>::empty(),
    {
        let root = Scope { parent: None, types: Vec::new(), covers: Vec::new() };
        let mut scopes: Vec<Scope> = Vec::new();
        scopes.push(root);
        TypeTab { scopes }
    }

    /// Appends a child scope of `parent` with the given initial slots and
    /// covers, and returns its handle.
    pub fn new(&mut self, parent: usize, types: Vec<Type>, covers: Vec<(String, Type)>) -> (h:
        usize)
        requires
            old(self).wf(),
            parent < old(self).scopes@.len(),
        ensures
            final(self).wf(),
            h == old(self).scopes@.len(),
            final(self).scopes@.len() == old(self).scopes@.len() + 1,
            forall|k: int| 0 <= k < h ==> final(self).scopes@[k] == old(self).scopes@[k],
            final(self).scopes@[h as int].parent == Some(parent),
            final(self).scopes@[h as int].types == types,
            final(self).scopes@[h as int].covers == covers,
    {
        let h = self.scopes.len();
        self.scopes.push(Scope { parent: Some(parent), types, covers });
        h
    }

    /// Current slot count of `scope`; the analysis pass allocates the next
    /// slot at this index.
    pub fn size(&self, scope: usize) -> (r: usize)
        requires
            scope < self.scopes@.len(),
        ensures
            r == self.scopes@[scope as int].types@.len(),
    {
        self.scopes[scope].types.len()
    }

    /// Appends one default (`Nil`-typed, regular) slot to `scope`. The fresh
    /// slot immediately resolves at depth 0 under its index.
    pub fn grow(&mut self, scope: usize)
        requires
            old(self).wf(),
            scope < old(self).scopes@.len(),
        ensures
            final(self).wf(),
            final(self).scopes@.len() == old(self).scopes@.len(),
            forall|k: int|
                0 <= k < final(self).scopes@.len() && k != scope ==> final(self).scopes@[k] == old(
                    self,
                ).scopes@[k],
            final(self).scopes@[scope as int].parent == old(self).scopes@[scope as int].parent,
            final(self).scopes@[scope as int].covers == old(self).scopes@[scope as int].covers,
            final(self).scopes@[scope as int].types@ =~= old(self).scopes@[scope as int].types@.push(
                Type { node: TypeNode::Nil, mode: TypeMode::Regular },
            ),
            final(self).spec_slot_scope(
                scope as int,
                old(self).scopes@[scope as int].types@.len() as int,
                0,
            ) == Some(scope as int),
    {
        let slot = Type::from(TypeNode::Nil);
        let rec = &mut self.scopes[scope];
        rec.types.push(slot);
    }

    /// Resolves `(index, env_index)` from `scope` and returns the type in
    /// the slot the walk lands in; a walk past the root yields the
    /// invalid-environment-index error.
    pub fn get_type(&self, scope: usize, index: usize, env_index: usize) -> (r: Result<
        &Type,
        TableError,
    >)
        requires
            self.wf(),
            scope < self.scopes@.len(),
        ensures
            match r {
                Ok(t) => self.spec_slot_scope(scope as int, index as int, env_index as int)
                    matches Some(s) && *t == self.scopes@[s].types@[index as int],
                Err(e) => e == TableError::InvalidEnvironmentIndex && self.spec_slot_scope(
                    scope as int,
                    index as int,
                    env_index as int,
                ) is None,
            },
        decreases 2 * (scope as int) + if env_index == 0 {
            1int
        } else {
            0int
        },
    {
        if env_index == 0 {
            if index < self.scopes[scope].types.len() {
                Ok(&self.scopes[scope].types[index])
            } else {
                self.get_type(scope, index, 1)
            }
        } else {
            match self.scopes[scope].parent {
                Some(p) => self.get_type(p, index, env_index - 1),
                None => Err(TableError::InvalidEnvironmentIndex),
            }
        }
    }

    /// Resolves `(index, env_index)` as `get_type` does and overwrites the
    /// slot the walk lands in; the table is unchanged when the walk fails.
    pub fn set_type(&mut self, scope: usize, index: usize, env_index: usize, t: Type) -> (r:
        Result<(), TableError>)
        requires
            old(self).wf(),
            scope < old(self).scopes@.len(),
        ensures
            final(self).wf(),
            final(self).scopes@.len() == old(self).scopes@.len(),
            match r {
                Ok(u) => ({
                    &&& old(self).spec_slot_scope(scope as int, index as int, env_index as int)
                        matches Some(s)
                    &&& forall|k: int|
                        0 <= k < old(self).scopes@.len() && k != s ==> final(self).scopes@[k]
                            == old(self).scopes@[k]
                    &&& final(self).scopes@[s].parent == old(self).scopes@[s].parent
                    &&& final(self).scopes@[s].covers == old(self).scopes@[s].covers
                    &&& final(self).scopes@[s].types@ =~= old(self).scopes@[s].types@.update(
                        index as int,
                        t,
                    )
                }),
                Err(e) => e == TableError::InvalidEnvironmentIndex && old(self).spec_slot_scope(
                    scope as int,
                    index as int,
                    env_index as int,
                ) is None && *final(self) == *old(self),
            },
        decreases 2 * (scope as int) + if env_index == 0 {
            1int
        } else {
            0int
        },
    {
        if env_index == 0 {
            if index < self.scopes[scope].types.len() {
                self.scopes[scope].types[index] = t;
                Ok(())
            } else {
                self.set_type(scope, index, 1, t)
            }
        } else {
            match self.scopes[scope].parent {
                Some(p) => self.set_type(p, index, env_index - 1, t),
                None => Err(TableError::InvalidEnvironmentIndex),
            }
        }
    }

    /// Walks exactly `env_index` parents up from `scope` and looks `index`
    /// up in that scope's covers only: a missing entry there is the
    /// invalid-type-index error, a walk past the root the
    /// invalid-environment-index error.
    #[verifier::loop_isolation(false)]
    pub fn get_cover(&self, scope: usize, index: &str, env_index: usize) -> (r: Result<
        &Type,
        TableError,
    >)
        requires
            self.wf(),
            scope < self.scopes@.len(),
        ensures
            match r {
                Ok(t) => self.spec_cover_scope(scope as int, env_index as int) matches Some(s)
                    && spec_cover_lookup(self.scopes@[s].covers@, index@) == Some(*t),
                Err(e) => if e == TableError::InvalidTypeIndex {
                    self.spec_cover_scope(scope as int, env_index as int) matches Some(s)
                        && spec_cover_lookup(self.scopes@[s].covers@, index@) is None
                } else {
                    e == TableError::InvalidEnvironmentIndex && self.spec_cover_scope(
                        scope as int,
                        env_index as int,
                    ) is None
                },
            },
        decreases scope,
    {
        if env_index == 0 {
            let covers = &self.scopes[scope].covers;
            let ghost whole = covers@;
            let mut j: usize = 0;
            while j < covers.len()
                invariant
                    0 <= j <= covers.len(),
                    forall|k: int| 0 <= k < j ==> (#[trigger] covers@[k]).0@ != index@,
                decreases covers.len() - j,
            {
                if str_eq(covers[j].0.as_str(), index) {
                    proof {
                        lemma_cover_lookup_hit(covers@, index@, j as int);
                    }
                    return Ok(&covers[j].1);
                }
                j = j + 1;
            }
            proof {
                lemma_cover_lookup_miss(covers@, index@);
            }
            Err(TableError::InvalidTypeIndex)
        } else {
            match self.scopes[scope].parent {
                Some(p) => self.get_cover(p, index, env_index - 1),
                None => Err(TableError::InvalidEnvironmentIndex),
            }
        }
    }
}

/// A cover lookup whose first match sits at position `j` returns that entry.
proof fn lemma_cover_lookup_hit(covers: Seq<(String, Type)>, name: Seq<char>, j: int)
    requires
        0 <= j < covers.len(),
        covers[j].0@ == name,
        forall|k: int| 0 <= k < j ==> (#[trigger] covers[k]).0@ != name,
    ensures
        spec_cover_lookup(covers, name) == Some(covers[j].1),
    decreases j,
{
    if j > 0 {
        lemma_cover_lookup_hit(covers.drop_first(), name, j - 1);
    }
}

/// A cover lookup with no matching entry returns nothing.
proof fn lemma_cover_lookup_miss(covers: Seq<(String, Type)>, name: Seq<char>)
    requires
        forall|k: int| 0 <= k < covers.len() ==> (#[trigger] covers[k]).0@ != name,
    ensures
        spec_cover_lookup(covers, name) is None,
    decreases covers.len(),
{
    if covers.len() > 0 {
        lemma_cover_lookup_miss(covers.drop_first(), name);
    }
}

/// Slot resolution only looks at parent links and slot counts, so it is
/// unchanged by a table edit that keeps both.
proof fn lemma_slot_scope_stable(t1: TypeTab, t2: TypeTab, scope: int, index: int, env: int)
    requires
        t1.wf(),
        t2.wf(),
        0 <= scope < t1.scopes@.len(),
        t2.scopes@.len() == t1.scopes@.len(),
        forall|k: int|
            0 <= k < t1.scopes@.len() ==> (#[trigger] t2.scopes@[k]).parent
                == t1.scopes@[k].parent,
        forall|k: int|
            0 <= k < t1.scopes@.len() ==> (#[trigger] t2.scopes@[k]).types@.len()
                == t1.scopes@[k].types@.len(),
    ensures
        t2.spec_slot_scope(scope, index, env) == t1.spec_slot_scope(scope, index, env),
    decreases 2 * scope + if env == 0 {
        1int
    } else {
        0int
    },
{
    if env == 0 {
        if index < t1.scopes@[scope].types@.len() {
        } else {
            lemma_slot_scope_stable(t1, t2, scope, index, 1);
        }
    } else {
        match t1.scopes@[scope].parent {
            Some(p) => lemma_slot_scope_stable(t1, t2, p as int, index, env - 1),
            None => {},
        }
    }
}

/// A successful slot resolution lands in a real scope whose slot list is
/// long enough to hold the index.
proof fn lemma_slot_scope_bounds(tab: TypeTab, scope: int, index: int, env: int)
    requires
        tab.wf(),
        0 <= scope < tab.scopes@.len(),
        tab.spec_slot_scope(scope, index, env) is Some,
    ensures
        ({
            let s = tab.spec_slot_scope(scope, index, env)->Some_0;
            &&& 0 <= s < tab.scopes@.len()
            &&& index < tab.scopes@[s].types@.len()
        }),
    decreases 2 * scope + if env == 0 {
        1int
    } else {
        0int
    },
{
    if env == 0 {
        if index < tab.scopes@[scope].types@.len() {
        } else {
            lemma_slot_scope_bounds(tab, scope, index, 1);
        }
    } else {
        match tab.scopes@[scope].parent {
            Some(p) => lemma_slot_scope_bounds(tab, p as int, index, env - 1),
            None => {},
        }
    }
}

/// Law: after a successful `set_type` at `(index, env_index)` (the `Ok`
/// shape of its contract, with `s` the scope the walk landed in), resolving
/// the same coordinates again still lands in `s`, and the slot now holds
/// exactly the set value, so `get_type` at those coordinates returns it.
pub proof fn lemma_set_then_get(
    pre: TypeTab,
    post: TypeTab,
    scope: int,
    index: int,
    env: int,
    s: int,
    t: Type,
)
    requires
        pre.wf(),
        post.wf(),
        0 <= scope < pre.scopes@.len(),
        0 <= index,
        pre.spec_slot_scope(scope, index, env) == Some(s),
        post.scopes@.len() == pre.scopes@.len(),
        forall|k: int|
            0 <= k < pre.scopes@.len() && k != s ==> (#[trigger] post.scopes@[k])
                == pre.scopes@[k],
        post.scopes@[s].parent == pre.scopes@[s].parent,
        post.scopes@[s].types@ == pre.scopes@[s].types@.update(index, t),
    ensures
        post.spec_slot_scope(scope, index, env) == Some(s),
        post.scopes@[s].types@[index] == t,
{
    lemma_slot_scope_bounds(pre, scope, index, env);
    assert(forall|k: int|
        0 <= k < pre.scopes@.len() ==> (#[trigger] post.scopes@[k]).parent
            == pre.scopes@[k].parent);
    assert(forall|k: int|
        0 <= k < pre.scopes@.len() ==> (#[trigger] post.scopes@[k]).types@.len()
            == pre.scopes@[k].types@.len());
    lemma_slot_scope_stable(pre, post, scope, index, env);
}

/// Law: an environment index beyond the scope's chain length walks past the
/// root, resolves to no scope, and so makes `get_type` and `set_type` report
/// the invalid-environment-index error rather than panic.
pub proof fn lemma_env_index_past_root(tab: TypeTab, scope: int, index: int, env: int)
    requires
        tab.wf(),
        0 <= scope < tab.scopes@.len(),
        env > tab.chain_len(scope),
    ensures
        tab.spec_slot_scope(scope, index, env) is None,
    decreases 2 * scope + if env == 0 {
        1int
    } else {
        0int
    },
{
    if env == 0 {
    } else {
        match tab.scopes@[scope].parent {
            Some(p) => lemma_env_index_past_root(tab, p as int, index, env - 1),
            None => {},
        }
    }
}

} // verus!
