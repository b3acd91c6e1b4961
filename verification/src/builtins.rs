//! The fixed table of native functions (`len`, `first`, `last`, `rest`,
//! `push`, `puts`) and what applying each of them yields. `puts` is modelled
//! by appending the values to be written to an output log; nothing here
//! performs I/O.
use vstd::prelude::*;
use crate::environment::{Environment, Scope, ScopeV};
use crate::object::{
    clone_object, lemma_objs_v_rec, obj_v, objs_v, Builtin, BuiltinKind, EvalError, Object,
    ObjectV,
};

verus! {

/// The root scope: the six native functions bound under their names.
pub open spec fn builtins_scope_v() -> ScopeV {
    ScopeV {
        bindings: seq![
            ("len"@, ObjectV::BuiltinF(BuiltinKind::Len)),
            ("first"@, ObjectV::BuiltinF(BuiltinKind::First)),
            ("last"@, ObjectV::BuiltinF(BuiltinKind::Last)),
            ("rest"@, ObjectV::BuiltinF(BuiltinKind::Rest)),
            ("push"@, ObjectV::BuiltinF(BuiltinKind::Push)),
            ("puts"@, ObjectV::BuiltinF(BuiltinKind::Puts)),
        ],
        outer: None,
    }
}

/// The initial scope arena: one root scope holding the builtins.
pub struct Builtins {
    pub builtins: Environment,
}

impl Builtins {
    pub fn new() -> (b: Self)
        ensures
            b.builtins@ == seq![builtins_scope_v()],
    {
        let mut bindings: Vec<(String, Object)> = Vec::new();
        bindings.push(("len".to_owned(), Object::Builtin(Builtin { func: BuiltinKind::Len })));
        bindings.push(("first".to_owned(), Object::Builtin(Builtin { func: BuiltinKind::First })));
        bindings.push(("last".to_owned(), Object::Builtin(Builtin { func: BuiltinKind::Last })));
        bindings.push(("rest".to_owned(), Object::Builtin(Builtin { func: BuiltinKind::Rest })));
        bindings.push(("push".to_owned(), Object::Builtin(Builtin { func: BuiltinKind::Push })));
        bindings.push(("puts".to_owned(), Object::Builtin(Builtin { func: BuiltinKind::Puts })));
        let mut scopes: Vec<Scope> = Vec::new();
        scopes.push(Scope { bindings, outer: None });
        let b = Builtins { builtins: Environment { scopes } };
        proof {
            assert(b.builtins@ =~~= seq![builtins_scope_v()]);
        }
        b
    }
}

/// What `len` returns: the character count of a string, the element count of
/// an array, `Null` on any other kind.
pub open spec fn builtin_len_v(args: Seq<ObjectV>) -> Result<ObjectV, EvalError> {
    if args.len() < 1 {
        Err(EvalError::ArityMismatch)
    } else {
        match args[0] {
            ObjectV::Str(s) => Ok(ObjectV::Integer((s.len() as i64) as int)),
            ObjectV::Array(es) => Ok(ObjectV::Integer((es.len() as i64) as int)),
            _ => Ok(ObjectV::Null),
        }
    }
}

/// What `first` returns: the first element of a non-empty array, else `Null`.
pub open spec fn builtin_first_v(args: Seq<ObjectV>) -> Result<ObjectV, EvalError> {
    if args.len() < 1 {
        Err(EvalError::ArityMismatch)
    } else {
        match args[0] {
            ObjectV::Array(es) => if es.len() > 0 {
                Ok(es[0])
            } else {
                Ok(ObjectV::Null)
            },
            _ => Ok(ObjectV::Null),
        }
    }
}

/// What `last` returns: the last element of a non-empty array, else `Null`.
pub open spec fn builtin_last_v(args: Seq<ObjectV>) -> Result<ObjectV, EvalError> {
    if args.len() < 1 {
        Err(EvalError::ArityMismatch)
    } else {
        match args[0] {
            ObjectV::Array(es) => if es.len() > 0 {
                Ok(es[es.len() - 1])
            } else {
                Ok(ObjectV::Null)
            },
            _ => Ok(ObjectV::Null),
        }
    }
}

/// What `rest` returns: a new array without the first element, `Null` for an
/// empty array or a non-array.
pub open spec fn builtin_rest_v(args: Seq<ObjectV>) -> Result<ObjectV, EvalError> {
    if args.len() < 1 {
        Err(EvalError::ArityMismatch)
    } else {
        match args[0] {
            ObjectV::Array(es) => if es.len() > 0 {
                Ok(ObjectV::Array(es.drop_first()))
            } else {
                Ok(ObjectV::Null)
            },
            _ => Ok(ObjectV::Null),
        }
    }
}

/// What `push` returns: a new array with the value appended; the argument is
/// left unchanged. With an argument count other than two it returns `Null`,
/// and a non-array first argument comes back unchanged.
pub open spec fn builtin_push_v(args: Seq<ObjectV>) -> Result<ObjectV, EvalError> {
    if args.len() < 1 {
        Err(EvalError::ArityMismatch)
    } else if args.len() != 2 {
        Ok(ObjectV::Null)
    } else {
        match args[0] {
            ObjectV::Array(es) => Ok(ObjectV::Array(es.push(args[1]))),
            _ => Ok(args[0]),
        }
    }
}

/// What applying a native function yields, and what it appends to the output
/// log (`puts` logs its arguments and returns `Null`; nothing else writes).
pub open spec fn builtin_apply_v(
    kind: BuiltinKind,
    args: Seq<ObjectV>,
    output: Seq<ObjectV>,
) -> (Result<ObjectV, EvalError>, Seq<ObjectV>) {
    match kind {
        BuiltinKind::Len => (builtin_len_v(args), output),
        BuiltinKind::First => (builtin_first_v(args), output),
        BuiltinKind::Last => (builtin_last_v(args), output),
        BuiltinKind::Rest => (builtin_rest_v(args), output),
        BuiltinKind::Push => (builtin_push_v(args), output),
        BuiltinKind::Puts => (Ok(ObjectV::Null), output + args),
    }
}

/// Apply a native function to already-evaluated arguments. `output` is the
/// log of values that `puts` has been asked to write.
pub fn apply_builtin(kind: BuiltinKind, args: &Vec<Object>, output: &mut Vec<Object>) -> (r: Result<
    Object,
    EvalError,
>)
    ensures
        ({
            let (rv, out2) = builtin_apply_v(kind, objs_v(args@), objs_v(old(output)@));
            &&& match (r, rv) {
                (Ok(o), Ok(vv)) => obj_v(o) == vv,
                (Err(e1), Err(e2)) => e1 == e2,
                _ => false,
            }
            &&& objs_v(final(output)@) == out2
        }),
{
    let ghost argsv = objs_v(args@);
    match kind {
        BuiltinKind::Len => {
            if args.len() < 1 {
                return Err(EvalError::ArityMismatch);
            }
            match &args[0] {
                Object::Str { value } => {
                    let n = value.as_str().unicode_len();
                    let r = Object::Integer { value: #[verifier::truncate] (n as i64) };
                    proof {
                        assert(builtin_len_v(argsv) matches Ok(vv) && obj_v(r) == vv);
                    }
                    Ok(r)
                },
                Object::Array { elements } => {
                    let n = elements.len();
                    let r = Object::Integer { value: #[verifier::truncate] (n as i64) };
                    proof {
                        lemma_objs_v_rec(elements@);
                        assert(builtin_len_v(argsv) matches Ok(vv) && obj_v(r) == vv);
                    }
                    Ok(r)
                },
                _ => Ok(Object::Null),
            }
        },
        BuiltinKind::First => {
            if args.len() < 1 {
                return Err(EvalError::ArityMismatch);
            }
            match &args[0] {
                Object::Array { elements } => {
                    proof {
                        lemma_objs_v_rec(elements@);
                    }
                    if elements.len() > 0 {
                        let r = clone_object(&elements[0]);
                        proof {
                            assert(builtin_first_v(argsv) matches Ok(vv) && obj_v(r) == vv);
                        }
                        Ok(r)
                    } else {
                        Ok(Object::Null)
                    }
                },
                _ => Ok(Object::Null),
            }
        },
        BuiltinKind::Last => {
            if args.len() < 1 {
                return Err(EvalError::ArityMismatch);
            }
            match &args[0] {
                Object::Array { elements } => {
                    proof {
                        lemma_objs_v_rec(elements@);
                    }
                    if elements.len() > 0 {
                        let r = clone_object(&elements[elements.len() - 1]);
                        proof {
                            assert(builtin_last_v(argsv) matches Ok(vv) && obj_v(r) == vv);
                        }
                        Ok(r)
                    } else {
                        Ok(Object::Null)
                    }
                },
                _ => Ok(Object::Null),
            }
        },
        BuiltinKind::Rest => {
            if args.len() < 1 {
                return Err(EvalError::ArityMismatch);
            }
            match &args[0] {
                Object::Array { elements } => {
                    proof {
                        lemma_objs_v_rec(elements@);
                    }
                    if elements.len() > 0 {
                    let mut rest_elements: Vec<Object> = Vec::new();
                    let n = elements.len();
                    let mut i: usize = 1;
                    while i < n
                        invariant
                            1 <= i <= n,
                            n == elements@.len(),
                            rest_elements@.len() == i - 1,
                            forall|j: int|
                                0 <= j < i - 1 ==> obj_v(#[trigger] rest_elements@[j]) == obj_v(
                                    elements@[j + 1],
                                ),
                        decreases n - i,
                    {
                        rest_elements.push(clone_object(&elements[i]));
                        i = i + 1;
                    }
                    let r = Object::Array { elements: rest_elements };
                    proof {
                        lemma_objs_v_rec(rest_elements@);
                        assert(obj_v(r)->Array_0 =~= objs_v(elements@).drop_first());
                        assert(builtin_rest_v(argsv) matches Ok(vv) && obj_v(r) == vv);
                    }
                    Ok(r)
                    } else {
                        Ok(Object::Null)
                    }
                },
                _ => Ok(Object::Null),
            }
        },
        BuiltinKind::Push => {
            if args.len() < 1 {
                return Err(EvalError::ArityMismatch);
            }
            let s = clone_object(&args[0]);
            if args.len() != 2 {
                return Ok(Object::Null);
            }
            match s {
                Object::Array { mut elements } => {
                    proof {
                        lemma_objs_v_rec(elements@);
                    }
                    elements.push(clone_object(&args[1]));
                    let r = Object::Array { elements };
                    proof {
                        lemma_objs_v_rec(elements@);
                        assert(obj_v(r)->Array_0 =~= objs_v(args@)[0]->Array_0.push(
                            objs_v(args@)[1],
                        ));
                        assert(builtin_push_v(argsv) matches Ok(vv) && obj_v(r) == vv);
                    }
                    Ok(r)
                },
                other => {
                    proof {
                        assert(builtin_push_v(argsv) matches Ok(vv) && obj_v(other) == vv);
                    }
                    Ok(other)
                },
            }
        },
        BuiltinKind::Puts => {
            let n = args.len();
            let mut i: usize = 0;
            while i < n
                invariant
                    i <= n,
                    n == args@.len(),
                    argsv == objs_v(args@),
                    output@.len() == old(output)@.len() + i,
                    forall|j: int|
                        0 <= j < old(output)@.len() ==> obj_v(#[trigger] output@[j]) == obj_v(
                            old(output)@[j],
                        ),
                    forall|j: int|
                        old(output)@.len() <= j < output@.len() ==> obj_v(#[trigger] output@[j])
                            == argsv[j - old(output)@.len()],
                decreases n - i,
            {
                output.push(clone_object(&args[i]));
                i = i + 1;
            }
            proof {
                assert(objs_v(output@) =~= objs_v(old(output)@) + argsv);
            }
            Ok(Object::Null)
        },
    }
}

} // verus!
