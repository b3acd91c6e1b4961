//! The scope chain: name-to-value mappings with lexical lookup through parent
//! links. Scopes are shared and mutable, so they live in an arena and are
//! addressed by index; a closure captures such an index, not a copy, and
//! later bindings added to the captured scope stay visible to it. A parent
//! index is always smaller than its child's, so lookup terminates.
use vstd::prelude::*;
use crate::object::{clone_object, obj_v, Object, ObjectV};

verus! {

/// One scope record: its bindings in insertion order and its parent, if any.
#[derive(Debug)]
pub struct Scope {
    pub bindings: Vec<(String, Object)>,
    pub outer: Option<usize>,
}

/// The view of one scope.
#[verifier::ext_equal]
pub struct ScopeV {
    pub bindings: Seq<(Seq<char>, ObjectV)>,
    pub outer: Option<int>,
}

/// The view of one scope record.
pub open spec fn scope_v(s: Scope) -> ScopeV {
    ScopeV {
        bindings: Seq::new(s.bindings@.len(), |i: int| (s.bindings@[i].0@, obj_v(s.bindings@[i].1))),
        outer: match s.outer {
            Some(p) => Some(p as int),
            None => None,
        },
    }
}

/// The views of all scopes in an arena.
pub open spec fn scopes_v(ss: Seq<Scope>) -> Seq<ScopeV> {
    Seq::new(ss.len(), |i: int| scope_v(ss[i]))
}

/// The value bound to `name` by the first matching binding at or after
/// index `i`.
pub open spec fn scope_get_at(
    bs: Seq<(Seq<char>, ObjectV)>,
    name: Seq<char>,
    i: int,
) -> Option<ObjectV>
    decreases bs.len() - i,
{
    if i < 0 || i >= bs.len() {
        None
    } else if bs[i].0 == name {
        Some(bs[i].1)
    } else {
        scope_get_at(bs, name, i + 1)
    }
}

/// The index of the first binding of `name` at or after `i`, or the length
/// if none.
pub open spec fn scope_find_at(bs: Seq<(Seq<char>, ObjectV)>, name: Seq<char>, i: int) -> int
    decreases bs.len() - i,
{
    if i < 0 || i >= bs.len() {
        bs.len() as int
    } else if bs[i].0 == name {
        i
    } else {
        scope_find_at(bs, name, i + 1)
    }
}

/// Binding `name` in a scope: an existing binding of the name is replaced in
/// place, else the binding is appended.
pub open spec fn scope_set_v(
    bs: Seq<(Seq<char>, ObjectV)>,
    name: Seq<char>,
    v: ObjectV,
) -> Seq<(Seq<char>, ObjectV)> {
    let idx = scope_find_at(bs, name, 0);
    if idx < bs.len() {
        bs.update(idx, (name, v))
    } else {
        bs.push((name, v))
    }
}

/// Lexical lookup: search scope `h`, then its parent chain. A parent link
/// that does not point to an earlier scope ends the search.
pub open spec fn env_get_v(scopes: Seq<ScopeV>, h: int, name: Seq<char>) -> Option<ObjectV>
    decreases (if h >= 0 { h + 1 } else { 0 }),
{
    if 0 <= h < scopes.len() {
        match scope_get_at(scopes[h].bindings, name, 0) {
            Some(v) => Some(v),
            None => match scopes[h].outer {
                Some(p) => if 0 <= p < h {
                    env_get_v(scopes, p, name)
                } else {
                    None
                },
                None => None,
            },
        }
    } else {
        None
    }
}

/// Binding `name` in scope `h`: only that scope changes; an out-of-range
/// handle changes nothing.
pub open spec fn env_set_v(
    scopes: Seq<ScopeV>,
    h: int,
    name: Seq<char>,
    v: ObjectV,
) -> Seq<ScopeV> {
    if 0 <= h < scopes.len() {
        scopes.update(
            h,
            ScopeV { bindings: scope_set_v(scopes[h].bindings, name, v), outer: scopes[h].outer },
        )
    } else {
        scopes
    }
}

/// The arena of scope records; scope handles are indices into it.
#[derive(Debug)]
pub struct Environment {
    pub scopes: Vec<Scope>,
}

impl View for Environment {
    type V = Seq<ScopeV>;

    open spec fn view(&self) -> Seq<ScopeV> {
        scopes_v(self.scopes@)
    }
}

impl Environment {
    /// A fresh arena holding one empty root scope, whose handle is 0.
    pub fn new() -> (e: Self)
        ensures
            e@ == seq![ScopeV { bindings: Seq::empty(), outer: None }],
    {
        let mut scopes: Vec<Scope> = Vec::new();
        scopes.push(Scope { bindings: Vec::new(), outer: None });
        let e = Environment { scopes };
        proof {
            assert(e@ =~~= seq![ScopeV { bindings: Seq::empty(), outer: None }]);
        }
        e
    }

    /// Add a fresh empty scope whose parent is `parent`; its handle is the
    /// old number of scopes.
    pub fn create_child(&mut self, parent: usize) -> (h: usize)
        ensures
            h == old(self)@.len(),
            final(self)@ == old(self)@.push(
                ScopeV { bindings: Seq::empty(), outer: Some(parent as int) },
            ),
    {
        let h = self.scopes.len();
        self.scopes.push(Scope { bindings: Vec::new(), outer: Some(parent) });
        proof {
            assert(self@ =~~= old(self)@.push(
                ScopeV { bindings: Seq::empty(), outer: Some(parent as int) },
            ));
        }
        h
    }

    /// Bind `name` to `value` in scope `scope` alone: redefinition replaces,
    /// and outer scopes are never written.
    pub fn set(&mut self, scope: usize, name: String, value: Object)
        ensures
            final(self)@ == env_set_v(old(self)@, scope as int, name@, obj_v(value)),
    {
        let ghost env0 = self@;
        let ghost namev = name@;
        let ghost valv = obj_v(value);
        if scope >= self.scopes.len() {
            return ;
        }
        let mut sc = self.scopes.remove(scope);
        let ghost bs = scope_v(sc).bindings;
        let i = scope_find(&sc, &name);
        if i < sc.bindings.len() {
            sc.bindings.remove(i);
            sc.bindings.insert(i, (name, value));
            proof {
                assert(scope_v(sc).bindings =~~= scope_set_v(bs, namev, valv));
            }
        } else {
            sc.bindings.push((name, value));
            proof {
                assert(scope_v(sc).bindings =~~= scope_set_v(bs, namev, valv));
            }
        }
        self.scopes.insert(scope, sc);
        proof {
            assert(self@ =~~= env_set_v(env0, scope as int, namev, valv));
        }
    }

    /// Lexical lookup of `name` starting at scope `scope`: the found value is
    /// returned as a copy with the same view.
    pub fn get(&self, scope: usize, name: &String) -> (r: Option<Object>)
        ensures
            match (r, env_get_v(self@, scope as int, name@)) {
                (Some(o), Some(vv)) => obj_v(o) == vv,
                (None, None) => true,
                _ => false,
            },
    {
        let mut h = scope;
        loop
            invariant
                env_get_v(self@, scope as int, name@) == env_get_v(self@, h as int, name@),
            decreases h + 1,
        {
            if h >= self.scopes.len() {
                return None;
            }
            match self.scope_get(h, name) {
                Some(o) => {
                    return Some(o);
                },
                None => {},
            }
            let next = match self.scopes[h].outer {
                Some(p) => p,
                None => {
                    return None;
                },
            };
            if next >= h {
                return None;
            }
            h = next;
        }
    }

    /// Look `name` up in the bindings of scope `h` alone.
    fn scope_get(&self, h: usize, name: &String) -> (r: Option<Object>)
        requires
            h < self.scopes@.len(),
        ensures
            match (r, scope_get_at(self@[h as int].bindings, name@, 0)) {
                (Some(o), Some(vv)) => obj_v(o) == vv,
                (None, None) => true,
                _ => false,
            },
    {
        let ghost bs = self@[h as int].bindings;
        let sc = &self.scopes[h];
        let n = sc.bindings.len();
        let mut i: usize = 0;
        while i < n
            invariant
                h < self.scopes@.len(),
                sc == &self.scopes@[h as int],
                n == sc.bindings@.len(),
                bs == self@[h as int].bindings,
                bs == scope_v(*sc).bindings,
                i <= n,
                scope_get_at(bs, name@, 0) == scope_get_at(bs, name@, i as int),
            decreases n - i,
        {
            if sc.bindings[i].0 == *name {
                let o = clone_object(&sc.bindings[i].1);
                return Some(o);
            }
            i = i + 1;
        }
        None
    }
}

/// The index of the first binding of `name` in a scope, or the number of
/// bindings if the name is unbound there.
fn scope_find(sc: &Scope, name: &String) -> (idx: usize)
    ensures
        idx as int == scope_find_at(scope_v(*sc).bindings, name@, 0),
        idx <= sc.bindings@.len(),
{
    let ghost bs = scope_v(*sc).bindings;
    let n = sc.bindings.len();
    let mut i: usize = 0;
    while i < n
        invariant
            n == sc.bindings@.len(),
            bs == scope_v(*sc).bindings,
            i <= n,
            scope_find_at(bs, name@, 0) == scope_find_at(bs, name@, i as int),
        decreases n - i,
    {
        if sc.bindings[i].0 == *name {
            return i;
        }
        i = i + 1;
    }
    n
}

} // verus!
