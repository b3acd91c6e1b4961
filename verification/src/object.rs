//! The runtime value model: the tagged object union, its mathematical view,
//! and the equality rules used for hash keys.
use vstd::prelude::*;
use crate::ast::{Expression, Statement};
use std::rc::Rc;

verus! {

/// The evaluation failures that the interpreter reports instead of faulting.
#[derive(Debug, Clone, Copy, PartialEq, Eq, Structural)]
pub enum EvalError {
    DivisionByZero,
    UnhashableKey,
    ArityMismatch,
    IntegerOverflow,
    RecursionLimit,
}

/// Which native function a builtin value stands for.
#[derive(Debug, Clone, Copy, PartialEq, Eq, Structural)]
pub enum BuiltinKind {
    Len,
    First,
    Last,
    Rest,
    Push,
    Puts,
}

/// A native function handle, callable like a language function.
#[derive(Debug, Clone, Copy, PartialEq, Eq, Structural)]
pub struct Builtin {
    pub func: BuiltinKind,
}

/// A runtime value. `Return` is an internal control-flow signal, never a
/// user-visible value. A `Function` holds its parameter list and body by
/// shared handle, and the scope it captured as an index into the arena of
/// scopes (see the environment).
#[derive(Debug)]
pub enum Object {
    Integer { value: i64 },
    Boolean { value: bool },
    Return { value: Box<Object> },
    Function { parameters: Rc<Vec<Expression>>, body: Rc<Statement>, environment: usize },
    Str { value: String },
    Array { elements: Vec<Object> },
    Builtin(Builtin),
    HashM { pairs: Vec<(Object, Object)> },
    Null,
}

/// The views of a prefix of a sequence of runtime values.
pub open spec fn objs_v_rec(s: Seq<Object>) -> Seq<ObjectV>
    decreases s, 1int,
{
    if s.len() == 0 {
        Seq::empty()
    } else {
        objs_v_rec(s.drop_last()).push(obj_v(s.last()))
    }
}

/// The views of a prefix of a sequence of key-value pairs.
pub open spec fn opairs_v_rec(s: Seq<(Object, Object)>) -> Seq<(ObjectV, ObjectV)>
    decreases s, 1int,
{
    if s.len() == 0 {
        Seq::empty()
    } else {
        opairs_v_rec(s.drop_last()).push((obj_v(s.last().0), obj_v(s.last().1)))
    }
}

/// The mathematical view of a runtime value: integers become unbounded,
/// strings become character sequences, arrays and hashes become sequences.
#[verifier::ext_equal]
pub enum ObjectV {
    Integer(int),
    Boolean(bool),
    Return(Box<ObjectV>),
    Function { parameters: Seq<Expression>, body: Statement, environment: int },
    Str(Seq<char>),
    Array(Seq<ObjectV>),
    BuiltinF(BuiltinKind),
    HashM(Seq<(ObjectV, ObjectV)>),
    Null,
}

/// The view of a runtime value.
pub open spec fn obj_v(o: Object) -> ObjectV
    decreases o, 0int,
{
    match o {
        Object::Integer { value } => ObjectV::Integer(value as int),
        Object::Boolean { value } => ObjectV::Boolean(value),
        Object::Return { value } => ObjectV::Return(Box::new(obj_v(*value))),
        Object::Function { parameters, body, environment } => ObjectV::Function {
            parameters: parameters@,
            body: *body,
            environment: environment as int,
        },
        Object::Str { value } => ObjectV::Str(value@),
        Object::Array { elements } => ObjectV::Array(objs_v_rec(elements@)),
        Object::Builtin(b) => ObjectV::BuiltinF(b.func),
        Object::HashM { pairs } => ObjectV::HashM(opairs_v_rec(pairs@)),
        Object::Null => ObjectV::Null,
    }
}

/// The views of a sequence of runtime values.
pub open spec fn objs_v(os: Seq<Object>) -> Seq<ObjectV> {
    Seq::new(os.len(), |i: int| obj_v(os[i]))
}

/// The recursive and the pointwise view of a value sequence agree.
pub broadcast proof fn lemma_objs_v_rec(s: Seq<Object>)
    ensures
        #[trigger] objs_v_rec(s) == objs_v(s),
    decreases s.len(),
{
    if s.len() == 0 {
        assert(objs_v_rec(s) =~= objs_v(s));
    } else {
        lemma_objs_v_rec(s.drop_last());
        assert(objs_v_rec(s) =~= objs_v(s));
    }
}

/// The recursive and the pointwise view of a pair sequence agree.
pub broadcast proof fn lemma_opairs_v_rec(s: Seq<(Object, Object)>)
    ensures
        #[trigger] opairs_v_rec(s) == pairs_v(s),
    decreases s.len(),
{
    if s.len() == 0 {
        assert(opairs_v_rec(s) =~= pairs_v(s));
    } else {
        lemma_opairs_v_rec(s.drop_last());
        assert(opairs_v_rec(s) =~= pairs_v(s));
    }
}

impl Object {
    pub fn new_int(value: i64) -> (o: Self)
        ensures
            obj_v(o) == ObjectV::Integer(value as int),
    {
        Object::Integer { value }
    }

    pub fn new_bool(value: bool) -> (o: Self)
        ensures
            obj_v(o) == ObjectV::Boolean(value),
    {
        Object::Boolean { value }
    }

    pub fn new_string(value: String) -> (o: Self)
        ensures
            obj_v(o) == ObjectV::Str(value@),
    {
        Object::Str { value }
    }
}

/// Relies on Rc::clone: the returned handle holds the same parameter list.
#[verifier::external_body]
pub(crate) fn clone_rc_exprs(v: &Rc<Vec<Expression>>) -> (r: Rc<Vec<Expression>>)
    ensures
        r == *v,
{
    Rc::clone(v)
}

/// Relies on Rc::clone: the returned handle holds the same statement.
#[verifier::external_body]
pub(crate) fn clone_rc_stmt(v: &Rc<Statement>) -> (r: Rc<Statement>)
    ensures
        r == *v,
{
    Rc::clone(v)
}

/// Whether a value may serve as a hash key: only integers, booleans, strings
/// and arrays of such values have equality and hash defined.
pub open spec fn hashable_v(o: ObjectV) -> bool
    decreases o, 0int,
{
    match o {
        ObjectV::Integer(_) => true,
        ObjectV::Boolean(_) => true,
        ObjectV::Str(_) => true,
        ObjectV::Array(es) => seq_hashable_at(es, 0),
        _ => false,
    }
}

/// Whether every element from index `i` on may serve as a hash key.
pub open spec fn seq_hashable_at(es: Seq<ObjectV>, i: int) -> bool
    decreases es, es.len() - i,
{
    if i < 0 || i >= es.len() {
        true
    } else {
        hashable_v(es[i]) && seq_hashable_at(es, i + 1)
    }
}

/// Structural equality as the hash table uses it: defined for integers,
/// booleans, strings and (recursively) arrays. Every other pairing compares
/// as false by design: the evaluator never compares values of the undefined
/// kinds (mixed-kind operators yield `Null`, and a key of an undefined kind
/// is rejected as `UnhashableKey` before any comparison), so no separate
/// not-comparable error channel exists.
pub open spec fn obj_eq_v(a: ObjectV, b: ObjectV) -> bool
    decreases a, 1int,
{
    match (a, b) {
        (ObjectV::Integer(x), ObjectV::Integer(y)) => x == y,
        (ObjectV::Boolean(x), ObjectV::Boolean(y)) => x == y,
        (ObjectV::Str(x), ObjectV::Str(y)) => x == y,
        (ObjectV::Array(x), ObjectV::Array(y)) => x.len() == y.len() && seq_obj_eq_at(x, y, 0),
        _ => false,
    }
}

/// Elementwise equality of two equal-length sequences, from index `i` on.
pub open spec fn seq_obj_eq_at(x: Seq<ObjectV>, y: Seq<ObjectV>, i: int) -> bool
    decreases x, x.len() - i,
{
    if i < 0 || i >= x.len() || i >= y.len() {
        true
    } else {
        obj_eq_v(x[i], y[i]) && seq_obj_eq_at(x, y, i + 1)
    }
}

/// Every element from index `i` on of a hashable sequence is hashable.
proof fn lemma_seq_hashable_elem(es: Seq<ObjectV>, i: int, j: int)
    requires
        seq_hashable_at(es, i),
        i <= j < es.len(),
        0 <= i,
    ensures
        hashable_v(es[j]),
    decreases j - i,
{
    if i < j {
        lemma_seq_hashable_elem(es, i + 1, j);
    }
}

/// On hashable values, the hash table's equality is structural equality.
pub proof fn lemma_obj_eq_v_is_equality(a: ObjectV, b: ObjectV)
    requires
        hashable_v(a),
        hashable_v(b),
    ensures
        obj_eq_v(a, b) == (a == b),
    decreases a, 2int,
{
    match (a, b) {
        (ObjectV::Array(x), ObjectV::Array(y)) => {
            if x.len() == y.len() {
                lemma_seq_obj_eq_at_is_equality(x, y, 0);
                if seq_obj_eq_at(x, y, 0) {
                    assert(x =~= y);
                }
                if a == b {
                    assert(seq_obj_eq_at(x, y, 0));
                }
            }
        },
        _ => {},
    }
}

/// Elementwise: with equal lengths and hashable elements, the tail
/// comparison from `i` on holds exactly when the tails agree pointwise.
proof fn lemma_seq_obj_eq_at_is_equality(x: Seq<ObjectV>, y: Seq<ObjectV>, i: int)
    requires
        x.len() == y.len(),
        0 <= i,
        seq_hashable_at(x, 0),
        seq_hashable_at(y, 0),
    ensures
        seq_obj_eq_at(x, y, i) == (forall|j: int| i <= j < x.len() ==> x[j] == y[j]),
    decreases x, x.len() - i,
{
    if i < x.len() {
        lemma_seq_hashable_elem(x, 0, i);
        lemma_seq_hashable_elem(y, 0, i);
        lemma_obj_eq_v_is_equality(x[i], y[i]);
        lemma_seq_obj_eq_at_is_equality(x, y, i + 1);
    }
}

/// Whether a value may serve as a hash key (executable form).
pub fn is_hashable(o: &Object) -> (r: bool)
    ensures
        r == hashable_v(obj_v(*o)),
    decreases *o, 0int,
{
    match o {
        Object::Integer { .. } => true,
        Object::Boolean { .. } => true,
        Object::Str { .. } => true,
        Object::Array { elements } => {
            let r = vec_all_hashable(elements);
            proof {
                lemma_objs_v_rec(elements@);
            }
            r
        },
        _ => false,
    }
}

fn vec_all_hashable(v: &Vec<Object>) -> (r: bool)
    ensures
        r == seq_hashable_at(objs_v(v@), 0),
    decreases v@, 1int,
{
    let ghost vs = objs_v(v@);
    let n = v.len();
    let mut i: usize = 0;
    while i < n
        invariant
            n == v@.len(),
            vs == objs_v(v@),
            i <= n,
            seq_hashable_at(vs, 0) == seq_hashable_at(vs, i as int),
        decreases n - i,
    {
        if !is_hashable(&v[i]) {
            assert(!seq_hashable_at(vs, i as int));
            return false;
        }
        i = i + 1;
    }
    true
}

/// Structural equality of two values, as `obj_eq_v` states it.
pub fn obj_eq(a: &Object, b: &Object) -> (r: bool)
    ensures
        r == obj_eq_v(obj_v(*a), obj_v(*b)),
    decreases *a, 0int,
{
    match (a, b) {
        (Object::Integer { value: x }, Object::Integer { value: y }) => *x == *y,
        (Object::Boolean { value: x }, Object::Boolean { value: y }) => *x == *y,
        (Object::Str { value: x }, Object::Str { value: y }) => *x == *y,
        (Object::Array { elements: x }, Object::Array { elements: y }) => {
            proof {
                lemma_objs_v_rec(x@);
                lemma_objs_v_rec(y@);
            }
            if x.len() != y.len() {
                false
            } else {
                vec_obj_eq(x, y)
            }
        },
        _ => false,
    }
}

fn vec_obj_eq(x: &Vec<Object>, y: &Vec<Object>) -> (r: bool)
    requires
        x@.len() == y@.len(),
    ensures
        r == seq_obj_eq_at(objs_v(x@), objs_v(y@), 0),
    decreases x@, 1int,
{
    let ghost xs = objs_v(x@);
    let ghost ys = objs_v(y@);
    let n = x.len();
    let mut i: usize = 0;
    while i < n
        invariant
            n == x@.len(),
            x@.len() == y@.len(),
            xs == objs_v(x@),
            ys == objs_v(y@),
            i <= n,
            seq_obj_eq_at(xs, ys, 0) == seq_obj_eq_at(xs, ys, i as int),
        decreases n - i,
    {
        if !obj_eq(&x[i], &y[i]) {
            assert(!seq_obj_eq_at(xs, ys, i as int));
            return false;
        }
        i = i + 1;
    }
    true
}

/// The value mapped to key `k` by the first matching pair, if any.
pub open spec fn hash_get_v(pairs: Seq<(ObjectV, ObjectV)>, k: ObjectV, i: int) -> Option<ObjectV>
    decreases pairs.len() - i,
{
    if i < 0 || i >= pairs.len() {
        None
    } else if obj_eq_v(pairs[i].0, k) {
        Some(pairs[i].1)
    } else {
        hash_get_v(pairs, k, i + 1)
    }
}

/// The index of the first pair whose key equals `k`, or the length if none.
pub open spec fn hash_find_v(pairs: Seq<(ObjectV, ObjectV)>, k: ObjectV, i: int) -> int
    decreases pairs.len() - i,
{
    if i < 0 || i >= pairs.len() {
        pairs.len() as int
    } else if obj_eq_v(pairs[i].0, k) {
        i
    } else {
        hash_find_v(pairs, k, i + 1)
    }
}

/// Inserting `(k, v)`: the first pair with an equal key is replaced, else the
/// pair is appended.
pub open spec fn hash_set_v(
    pairs: Seq<(ObjectV, ObjectV)>,
    k: ObjectV,
    v: ObjectV,
) -> Seq<(ObjectV, ObjectV)> {
    let idx = hash_find_v(pairs, k, 0);
    if idx < pairs.len() {
        pairs.update(idx, (k, v))
    } else {
        pairs.push((k, v))
    }
}

/// The views of a sequence of key-value pairs.
pub open spec fn pairs_v(ps: Seq<(Object, Object)>) -> Seq<(ObjectV, ObjectV)> {
    Seq::new(ps.len(), |i: int| (obj_v(ps[i].0), obj_v(ps[i].1)))
}

/// Look a key up in a hash's pair list (executable form of `hash_get_v`).
pub fn hash_get(pairs: &Vec<(Object, Object)>, k: &Object) -> (r: Option<Object>)
    ensures
        match (r, hash_get_v(pairs_v(pairs@), obj_v(*k), 0)) {
            (Some(o), Some(vv)) => obj_v(o) == vv,
            (None, None) => true,
            _ => false,
        },
{
    let ghost ps = pairs_v(pairs@);
    let ghost kv = obj_v(*k);
    let n = pairs.len();
    let mut i: usize = 0;
    while i < n
        invariant
            n == pairs@.len(),
            ps == pairs_v(pairs@),
            kv == obj_v(*k),
            i <= n,
            hash_get_v(ps, kv, 0) == hash_get_v(ps, kv, i as int),
        decreases n - i,
    {
        if obj_eq(&pairs[i].0, k) {
            let o = pairs[i].1.clone();
            return Some(o);
        }
        i = i + 1;
    }
    None
}

/// Insert a pair into a hash's pair list (executable form of `hash_set_v`).
pub fn hash_insert(pairs: &mut Vec<(Object, Object)>, k: Object, v: Object)
    ensures
        pairs_v(final(pairs)@) == hash_set_v(pairs_v(old(pairs)@), obj_v(k), obj_v(v)),
{
    let ghost ps = pairs_v(old(pairs)@);
    let ghost kv = obj_v(k);
    let ghost vv = obj_v(v);
    let n = pairs.len();
    let mut i: usize = 0;
    while i < n
        invariant
            n == pairs@.len(),
            *pairs == *old(pairs),
            ps == pairs_v(pairs@),
            kv == obj_v(k),
            vv == obj_v(v),
            i <= n,
            hash_find_v(ps, kv, 0) == hash_find_v(ps, kv, i as int),
        decreases n - i,
    {
        if obj_eq(&pairs[i].0, &k) {
            assert(hash_find_v(ps, kv, i as int) == i);
            pairs.remove(i);
            pairs.insert(i, (k, v));
            proof {
                assert(pairs_v(pairs@) =~= hash_set_v(ps, kv, vv));
            }
            return ;
        }
        i = i + 1;
    }
    assert(hash_find_v(ps, kv, 0) == ps.len());
    pairs.push((k, v));
    proof {
        assert(pairs_v(pairs@) =~= hash_set_v(ps, kv, vv));
    }
}

/// Copy a runtime value; the copy has the same view.
pub fn clone_object(o: &Object) -> (r: Object)
    ensures
        obj_v(r) == obj_v(*o),
    decreases *o, 0int,
{
    broadcast use {lemma_objs_v_rec, lemma_opairs_v_rec};

    match o {
        Object::Integer { value } => Object::Integer { value: *value },
        Object::Boolean { value } => Object::Boolean { value: *value },
        Object::Return { value } => Object::Return {
            value: Box::new(clone_object(&*value)),
        },
        Object::Function { parameters, body, environment } => Object::Function {
            parameters: clone_rc_exprs(parameters),
            body: clone_rc_stmt(body),
            environment: *environment,
        },
        Object::Str { value } => Object::Str { value: value.clone() },
        Object::Array { elements } => {
            let es = clone_obj_vec(elements);
            let r = Object::Array { elements: es };
            proof {
                lemma_objs_v_rec(es@);
                lemma_objs_v_rec(elements@);
                assert(obj_v(r) =~= obj_v(*o));
            }
            r
        },
        Object::Builtin(b) => Object::Builtin(Builtin { func: b.func }),
        Object::HashM { pairs } => {
            let ps = clone_pair_vec(pairs);
            let r = Object::HashM { pairs: ps };
            proof {
                lemma_opairs_v_rec(ps@);
                lemma_opairs_v_rec(pairs@);
                assert(obj_v(r) =~= obj_v(*o));
            }
            r
        },
        Object::Null => Object::Null,
    }
}

pub(crate) fn clone_obj_vec(v: &Vec<Object>) -> (r: Vec<Object>)
    ensures
        objs_v(r@) == objs_v(v@),
    decreases v@, 1int,
{
    let mut out: Vec<Object> = Vec::new();
    let n = v.len();
    let mut i: usize = 0;
    while i < n
        invariant
            n == v@.len(),
            i <= n,
            out@.len() == i,
            forall|j: int| 0 <= j < i ==> obj_v(#[trigger] out@[j]) == obj_v(v@[j]),
        decreases n - i,
    {
        let c = clone_object(&v[i]);
        out.push(c);
        i = i + 1;
    }
    proof {
        assert(objs_v(out@) =~= objs_v(v@));
    }
    out
}

fn clone_pair_vec(v: &Vec<(Object, Object)>) -> (r: Vec<(Object, Object)>)
    ensures
        pairs_v(r@) == pairs_v(v@),
    decreases v@, 1int,
{
    let mut out: Vec<(Object, Object)> = Vec::new();
    let n = v.len();
    let mut i: usize = 0;
    while i < n
        invariant
            n == v@.len(),
            i <= n,
            out@.len() == i,
            forall|j: int| 0 <= j < i ==> obj_v(#[trigger] out@[j].0) == obj_v(v@[j].0)
                && obj_v(out@[j].1) == obj_v(v@[j].1),
        decreases n - i,
    {
        let c0 = clone_object(&v[i].0);
        let c1 = clone_object(&v[i].1);
        out.push((c0, c1));
        i = i + 1;
    }
    proof {
        assert(pairs_v(out@) =~= pairs_v(v@));
    }
    out
}

impl Clone for Object {
    /// The copy has the same view as the original.
    fn clone(&self) -> (r: Self)
        ensures
            obj_v(r) == obj_v(*self),
    {
        clone_object(self)
    }
}

} // verus!
