//! The evaluator: a recursive tree walk over the syntax tree against a scope
//! arena, producing runtime values. Its whole behaviour is stated by the
//! big-step specification functions (`eval_expr_v` and companions) over the
//! views of the state; recursion depth is bounded by a fuel parameter, and
//! exhausting it is reported as an error rather than overrunning the stack.
use vstd::prelude::*;
use crate::ast::{Expression, Program, Statement};
use crate::builtins::{apply_builtin, builtin_apply_v};
use crate::environment::{env_get_v, env_set_v, Environment, ScopeV, scope_set_v};
use crate::object::{
    clone_object, clone_rc_exprs, clone_rc_stmt, hashable_v, hash_get_v, hash_insert, hash_set_v,
    is_hashable, lemma_objs_v_rec, lemma_opairs_v_rec, obj_v, objs_v, pairs_v, EvalError, Object,
    ObjectV,
};

verus! {

/// The evaluation state: the scope arena and the log of values that `puts`
/// has been asked to write (the interpreter's one side effect, kept as data).
#[derive(Debug)]
pub struct EvalState {
    pub env: Environment,
    pub output: Vec<Object>,
}

/// The view of the evaluation state.
#[verifier::ext_equal]
pub struct StateV {
    pub scopes: Seq<ScopeV>,
    pub output: Seq<ObjectV>,
}

impl View for EvalState {
    type V = StateV;

    open spec fn view(&self) -> StateV {
        StateV { scopes: self.env@, output: objs_v(self.output@) }
    }
}

/// The view of an evaluation result.
pub open spec fn res_v(r: Result<Object, EvalError>) -> Result<ObjectV, EvalError> {
    match r {
        Ok(o) => Ok(obj_v(o)),
        Err(e) => Err(e),
    }
}

/// Truthiness: only the boolean `true` is truthy; every other value,
/// `false` and `Null` included, is falsy.
pub open spec fn is_truthy_v(v: ObjectV) -> bool {
    v == ObjectV::Boolean(true)
}

/// What unary `!` yields: it negates booleans and maps everything else,
/// `Null` included, to `false`.
pub open spec fn bang_v(v: ObjectV) -> ObjectV {
    match v {
        ObjectV::Boolean(b) => ObjectV::Boolean(!b),
        _ => ObjectV::Boolean(false),
    }
}

/// What unary `-` yields: it negates an integer (overflow on the smallest
/// integer is reported) and maps any other operand to `Null`.
pub open spec fn minus_v(v: ObjectV) -> Result<ObjectV, EvalError> {
    match v {
        ObjectV::Integer(x) => if x == i64::MIN {
            Err(EvalError::IntegerOverflow)
        } else {
            Ok(ObjectV::Integer(-x))
        },
        _ => Ok(ObjectV::Null),
    }
}

/// What a prefix operator yields; an unknown operator yields `Null`.
pub open spec fn prefix_eval_v(op: Seq<char>, v: ObjectV) -> Result<ObjectV, EvalError> {
    if op == "!"@ {
        Ok(bang_v(v))
    } else if op == "-"@ {
        minus_v(v)
    } else {
        Ok(ObjectV::Null)
    }
}

/// Integer division as the machine performs it: truncated toward zero.
pub open spec fn div_trunc_v(x: int, d: int) -> int {
    if x == 0 {
        0
    } else if x > 0 && d > 0 {
        x / d
    } else if x < 0 && d < 0 {
        (x * -1) / (d * -1)
    } else if x < 0 {
        ((x * -1) / d) * -1
    } else {
        (x / (d * -1)) * -1
    }
}

/// What a binary operator yields. Operators are defined only for same-kind
/// operand pairs: integers support arithmetic and comparisons, booleans
/// equality, strings concatenation; every other pairing yields `Null`.
/// Division by zero and arithmetic overflow are reported errors.
pub open spec fn infix_eval_v(op: Seq<char>, l: ObjectV, r: ObjectV) -> Result<
    ObjectV,
    EvalError,
> {
    match (l, r) {
        (ObjectV::Integer(x), ObjectV::Integer(y)) => {
            if op == "+"@ {
                if x + y > i64::MAX || x + y < i64::MIN {
                    Err(EvalError::IntegerOverflow)
                } else {
                    Ok(ObjectV::Integer(x + y))
                }
            } else if op == "-"@ {
                if x - y > i64::MAX || x - y < i64::MIN {
                    Err(EvalError::IntegerOverflow)
                } else {
                    Ok(ObjectV::Integer(x - y))
                }
            } else if op == "*"@ {
                if x * y > i64::MAX || x * y < i64::MIN {
                    Err(EvalError::IntegerOverflow)
                } else {
                    Ok(ObjectV::Integer(x * y))
                }
            } else if op == "/"@ {
                if y == 0 {
                    Err(EvalError::DivisionByZero)
                } else {
                    let q = div_trunc_v(x, y);
                    if q > i64::MAX || q < i64::MIN {
                        Err(EvalError::IntegerOverflow)
                    } else {
                        Ok(ObjectV::Integer(q))
                    }
                }
            } else if op == "<"@ {
                Ok(ObjectV::Boolean(x < y))
            } else if op == ">"@ {
                Ok(ObjectV::Boolean(x > y))
            } else if op == "<="@ {
                Ok(ObjectV::Boolean(x <= y))
            } else if op == ">="@ {
                Ok(ObjectV::Boolean(x >= y))
            } else if op == "=="@ {
                Ok(ObjectV::Boolean(x == y))
            } else if op == "!="@ {
                Ok(ObjectV::Boolean(x != y))
            } else {
                Ok(ObjectV::Null)
            }
        },
        (ObjectV::Boolean(a), ObjectV::Boolean(b)) => {
            if op == "=="@ {
                Ok(ObjectV::Boolean(a == b))
            } else if op == "!="@ {
                Ok(ObjectV::Boolean(a != b))
            } else {
                Ok(ObjectV::Null)
            }
        },
        (ObjectV::Str(a), ObjectV::Str(b)) => {
            if op == "+"@ {
                Ok(ObjectV::Str(a + b))
            } else {
                Ok(ObjectV::Null)
            }
        },
        _ => Ok(ObjectV::Null),
    }
}

/// What indexing yields: an array indexed by an in-range integer gives the
/// element and anything else gives `Null`; a hash looked up with a hashable
/// key gives the mapped value or `Null`, and with an unhashable key reports
/// the error; indexing any other value gives `Null`.
pub open spec fn index_eval_v(l: ObjectV, idx: ObjectV) -> Result<ObjectV, EvalError> {
    match l {
        ObjectV::Array(es) => match idx {
            ObjectV::Integer(i) => if 0 <= i < es.len() {
                Ok(es[i])
            } else {
                Ok(ObjectV::Null)
            },
            _ => Ok(ObjectV::Null),
        },
        ObjectV::HashM(ps) => if !hashable_v(idx) {
            Err(EvalError::UnhashableKey)
        } else {
            match hash_get_v(ps, idx, 0) {
                Some(v) => Ok(v),
                None => Ok(ObjectV::Null),
            }
        },
        _ => Ok(ObjectV::Null),
    }
}

/// The bindings of a fresh call scope: each identifier parameter bound to
/// its positional argument, later duplicates replacing earlier ones.
pub open spec fn bind_params_v(
    params: Seq<Expression>,
    args: Seq<ObjectV>,
    i: int,
    acc: Seq<(Seq<char>, ObjectV)>,
) -> Seq<(Seq<char>, ObjectV)>
    decreases params.len() - i,
{
    if i < 0 || i >= params.len() || i >= args.len() {
        acc
    } else {
        match params[i] {
            Expression::Identifier { value, .. } => bind_params_v(
                params,
                args,
                i + 1,
                scope_set_v(acc, value@, args[i]),
            ),
            _ => bind_params_v(params, args, i + 1, acc),
        }
    }
}

/// What evaluating an expression yields, and the state it leaves behind.
pub open spec fn eval_expr_v(e: Expression, st: StateV, env: int, fuel: nat) -> (Result<
    ObjectV,
    EvalError,
>, StateV)
    decreases fuel, 2int,
{
    if fuel == 0 {
        (Err(EvalError::RecursionLimit), st)
    } else {
        let f1 = (fuel - 1) as nat;
        match e {
            Expression::IntegerLiteral { value, .. } => (Ok(ObjectV::Integer(value as int)), st),
            Expression::Boolean { value, .. } => (Ok(ObjectV::Boolean(value)), st),
            Expression::StringLiteral { value, .. } => (Ok(ObjectV::Str(value@)), st),
            Expression::PrefixExpression { operator, right, .. } => {
                let (rr, st1) = eval_expr_v(*right, st, env, f1);
                match rr {
                    Ok(v) => (prefix_eval_v(operator@, v), st1),
                    Err(er) => (Err(er), st1),
                }
            },
            Expression::InfixExpression { left, operator, right, .. } => {
                let (lr, st1) = eval_expr_v(*left, st, env, f1);
                match lr {
                    Ok(lv) => {
                        let (rr, st2) = eval_expr_v(*right, st1, env, f1);
                        match rr {
                            Ok(rv) => (infix_eval_v(operator@, lv, rv), st2),
                            Err(er) => (Err(er), st2),
                        }
                    },
                    Err(er) => (Err(er), st1),
                }
            },
            Expression::IfExpression { condition, consequence, alternative, .. } => if_eval_v(
                *condition,
                *consequence,
                alternative,
                st,
                env,
                fuel,
            ),
            Expression::Identifier { value, .. } => (
                match env_get_v(st.scopes, env, value@) {
                    Some(v) => Ok(v),
                    None => Ok(ObjectV::Null),
                },
                st,
            ),
            Expression::FunctionLiteral { parameters, body, .. } => (
                Ok(
                    ObjectV::Function {
                        parameters: parameters@,
                        body: *body,
                        environment: env,
                    },
                ),
                st,
            ),
            Expression::CallExpression { function, arguments, .. } => {
                let (fr, st1) = eval_expr_v(*function, st, env, f1);
                match fr {
                    Ok(fv) => {
                        let (ar, st2) = eval_exprs_v(arguments@, st1, env, f1, 0, Seq::empty());
                        match ar {
                            Ok(argvs) => apply_fn_v(fv, argvs, st2, f1),
                            Err(er) => (Err(er), st2),
                        }
                    },
                    Err(er) => (Err(er), st1),
                }
            },
            Expression::ArrayLiteral { elements, .. } => {
                let (ar, st1) = eval_exprs_v(elements@, st, env, f1, 0, Seq::empty());
                match ar {
                    Ok(vs) => (Ok(ObjectV::Array(vs)), st1),
                    Err(er) => (Err(er), st1),
                }
            },
            Expression::IndexExpression { left, index, .. } => {
                let (lr, st1) = eval_expr_v(*left, st, env, f1);
                match lr {
                    Ok(lv) => {
                        let (ir, st2) = eval_expr_v(*index, st1, env, f1);
                        match ir {
                            Ok(iv) => (index_eval_v(lv, iv), st2),
                            Err(er) => (Err(er), st2),
                        }
                    },
                    Err(er) => (Err(er), st1),
                }
            },
            Expression::HashLiteral { pairs, .. } => {
                let (pr, st1) = eval_pairs_v(pairs@, st, env, f1, 0, Seq::empty());
                match pr {
                    Ok(ps) => (Ok(ObjectV::HashM(ps)), st1),
                    Err(er) => (Err(er), st1),
                }
            },
            Expression::Nope => (Ok(ObjectV::Null), st),
        }
    }
}

/// What evaluating an `if` yields: the condition first; a truthy result runs
/// the consequence block, else the alternative if there is one, else `Null`.
pub open spec fn if_eval_v(
    condition: Expression,
    consequence: Statement,
    alternative: Option<Box<Statement>>,
    st: StateV,
    env: int,
    fuel: nat,
) -> (Result<ObjectV, EvalError>, StateV)
    decreases fuel, 1int,
{
    if fuel == 0 {
        (Err(EvalError::RecursionLimit), st)
    } else {
        let f1 = (fuel - 1) as nat;
        let (cr, st1) = eval_expr_v(condition, st, env, f1);
        match cr {
            Ok(cv) => if is_truthy_v(cv) {
                eval_stmt_v(consequence, st1, env, f1)
            } else {
                match alternative {
                    Some(a) => eval_stmt_v(*a, st1, env, f1),
                    None => (Ok(ObjectV::Null), st1),
                }
            },
            Err(er) => (Err(er), st1),
        }
    }
}

/// What evaluating the expressions from index `i` on yields: their values in
/// order after `acc`, or the first error; the state is threaded left to
/// right.
pub open spec fn eval_exprs_v(
    es: Seq<Expression>,
    st: StateV,
    env: int,
    fuel: nat,
    i: int,
    acc: Seq<ObjectV>,
) -> (Result<Seq<ObjectV>, EvalError>, StateV)
    decreases fuel, es.len() - i,
{
    if fuel == 0 {
        (Err(EvalError::RecursionLimit), st)
    } else if i < 0 || i >= es.len() {
        (Ok(acc), st)
    } else {
        let (r, st1) = eval_expr_v(es[i], st, env, (fuel - 1) as nat);
        match r {
            Ok(v) => eval_exprs_v(es, st1, env, fuel, i + 1, acc.push(v)),
            Err(er) => (Err(er), st1),
        }
    }
}

/// What evaluating the key-value pairs of a hash literal from index `i` on
/// yields: keys and values evaluated in literal order, an unhashable key
/// reported after its value was evaluated (as the write order has it), a
/// repeated key replacing the earlier pair.
pub open spec fn eval_pairs_v(
    ps: Seq<(Expression, Expression)>,
    st: StateV,
    env: int,
    fuel: nat,
    i: int,
    acc: Seq<(ObjectV, ObjectV)>,
) -> (Result<Seq<(ObjectV, ObjectV)>, EvalError>, StateV)
    decreases fuel, ps.len() - i,
{
    if fuel == 0 {
        (Err(EvalError::RecursionLimit), st)
    } else if i < 0 || i >= ps.len() {
        (Ok(acc), st)
    } else {
        let (kr, st1) = eval_expr_v(ps[i].0, st, env, (fuel - 1) as nat);
        match kr {
            Ok(kv) => {
                let (vr, st2) = eval_expr_v(ps[i].1, st1, env, (fuel - 1) as nat);
                match vr {
                    Ok(vv) => if !hashable_v(kv) {
                        (Err(EvalError::UnhashableKey), st2)
                    } else {
                        eval_pairs_v(ps, st2, env, fuel, i + 1, hash_set_v(acc, kv, vv))
                    },
                    Err(er) => (Err(er), st2),
                }
            },
            Err(er) => (Err(er), st1),
        }
    }
}

/// What applying a callee to evaluated arguments yields. A builtin runs its
/// native function. A function checks arity, runs its body in a fresh child
/// scope of its captured scope with the parameters bound, and yields the
/// body's value. Applying anything else yields `Null`.
pub open spec fn apply_fn_v(f: ObjectV, args: Seq<ObjectV>, st: StateV, fuel: nat) -> (Result<
    ObjectV,
    EvalError,
>, StateV)
    decreases fuel, 0int,
{
    if fuel == 0 {
        (Err(EvalError::RecursionLimit), st)
    } else {
        match f {
            ObjectV::BuiltinF(kind) => {
                let (r, out2) = builtin_apply_v(kind, args, st.output);
                (r, StateV { scopes: st.scopes, output: out2 })
            },
            ObjectV::Function { parameters, body, environment } => {
                if args.len() != parameters.len() {
                    (Err(EvalError::ArityMismatch), st)
                } else if !(0 <= environment < st.scopes.len()) {
                    (Ok(ObjectV::Null), st)
                } else {
                    let child = ScopeV {
                        bindings: bind_params_v(parameters, args, 0, Seq::empty()),
                        outer: Some(environment),
                    };
                    let st1 = StateV { scopes: st.scopes.push(child), output: st.output };
                    eval_stmt_v(body, st1, st.scopes.len() as int, (fuel - 1) as nat)
                }
            },
            _ => (Ok(ObjectV::Null), st),
        }
    }
}

/// What evaluating one statement yields. A `let` binds into the current
/// scope and yields `Null`; a `return` wraps its value in the internal
/// return signal; a block runs its statements in order.
pub open spec fn eval_stmt_v(s: Statement, st: StateV, env: int, fuel: nat) -> (Result<
    ObjectV,
    EvalError,
>, StateV)
    decreases fuel, 2int,
{
    if fuel == 0 {
        (Err(EvalError::RecursionLimit), st)
    } else {
        let f1 = (fuel - 1) as nat;
        match s {
            Statement::ExpressionStatement { expression, .. } => eval_expr_v(
                expression,
                st,
                env,
                f1,
            ),
            Statement::BlockStatment { statements, .. } => eval_stmts_v(
                statements@,
                st,
                env,
                f1,
                0,
                ObjectV::Null,
            ),
            Statement::ReturnStatement { return_value, .. } => {
                let (r, st1) = eval_expr_v(return_value, st, env, f1);
                match r {
                    Ok(v) => (Ok(ObjectV::Return(Box::new(v))), st1),
                    Err(er) => (Err(er), st1),
                }
            },
            Statement::LetStatement { name, value, .. } => {
                let (r, st1) = eval_expr_v(value, st, env, f1);
                match r {
                    Ok(v) => match name {
                        Expression::Identifier { value: n, .. } => (
                            Ok(ObjectV::Null),
                            StateV { scopes: env_set_v(st1.scopes, env, n@, v), output: st1.output },
                        ),
                        _ => (Ok(ObjectV::Null), st1),
                    },
                    Err(er) => (Err(er), st1),
                }
            },
        }
    }
}

/// What running a statement sequence from index `i` on yields: each
/// statement in order; a `Return` signal stops the sequence at once and the
/// sequence yields the unwrapped inner value, skipping the remaining
/// statements; otherwise the last statement's value (`last` for an empty
/// rest) is the result. Programs and blocks both run this way.
pub open spec fn eval_stmts_v(
    ss: Seq<Statement>,
    st: StateV,
    env: int,
    fuel: nat,
    i: int,
    last: ObjectV,
) -> (Result<ObjectV, EvalError>, StateV)
    decreases fuel, ss.len() - i,
{
    if fuel == 0 {
        (Err(EvalError::RecursionLimit), st)
    } else if i < 0 || i >= ss.len() {
        (Ok(last), st)
    } else {
        let (r, st1) = eval_stmt_v(ss[i], st, env, (fuel - 1) as nat);
        match r {
            Ok(v) => match v {
                ObjectV::Return(inner) => (Ok(*inner), st1),
                _ => eval_stmts_v(ss, st1, env, fuel, i + 1, v),
            },
            Err(er) => (Err(er), st1),
        }
    }
}

/// A node that can be evaluated against a scope, with its behaviour stated
/// by a specification function over the state views.
pub trait Evaluator {
    /// What evaluating this node yields and the state it leaves behind.
    spec fn eval_v(&self, st: StateV, env: int, fuel: nat) -> (Result<ObjectV, EvalError>, StateV);

    /// Evaluate this node against scope `env`, with recursion depth bounded
    /// by `fuel`; the result and the new state are exactly what `eval_v`
    /// states.
    fn evaluate(&self, st: &mut EvalState, env: usize, fuel: u64) -> (r: Result<Object, EvalError>)
        ensures
            ({
                let (rv, st2) = self.eval_v(old(st)@, env as int, fuel as nat);
                res_v(r) == rv && final(st)@ == st2
            }),
    ;
}

impl Evaluator for Expression {
    open spec fn eval_v(&self, st: StateV, env: int, fuel: nat) -> (Result<ObjectV, EvalError>, StateV) {
        eval_expr_v(*self, st, env, fuel)
    }

    fn evaluate(&self, st: &mut EvalState, env: usize, fuel: u64) -> (r: Result<Object, EvalError>) {
        eval_expression(self, st, env, fuel)
    }
}

impl Evaluator for Statement {
    open spec fn eval_v(&self, st: StateV, env: int, fuel: nat) -> (Result<ObjectV, EvalError>, StateV) {
        eval_stmt_v(*self, st, env, fuel)
    }

    fn evaluate(&self, st: &mut EvalState, env: usize, fuel: u64) -> (r: Result<Object, EvalError>) {
        eval_statement(self, st, env, fuel)
    }
}

impl Evaluator for Program {
    open spec fn eval_v(&self, st: StateV, env: int, fuel: nat) -> (Result<ObjectV, EvalError>, StateV) {
        eval_stmts_v(self.statements@, st, env, fuel, 0, ObjectV::Null)
    }

    fn evaluate(&self, st: &mut EvalState, env: usize, fuel: u64) -> (r: Result<Object, EvalError>) {
        eval_block_statements(&self.statements, st, env, fuel)
    }
}

/// Whether a value is truthy (executable form of `is_truthy_v`).
pub fn is_truthy(object: Object) -> (r: bool)
    ensures
        r == is_truthy_v(obj_v(object)),
{
    match object {
        Object::Boolean { value } => value,
        _ => false,
    }
}

/// Unary `!` (executable form of `bang_v`).
pub fn evaluate_bang_operator_expression(right: Object) -> (r: Object)
    ensures
        obj_v(r) == bang_v(obj_v(right)),
{
    match right {
        Object::Boolean { value } => Object::new_bool(!value),
        Object::Null => Object::new_bool(false),
        _ => Object::new_bool(false),
    }
}

/// Unary `-` (executable form of `minus_v`).
pub fn evaluate_minus_prefix_operator_expression(right: Object) -> (r: Result<Object, EvalError>)
    ensures
        ({
            let rv = minus_v(obj_v(right));
            match (r, rv) {
                (Ok(o), Ok(vv)) => obj_v(o) == vv,
                (Err(e1), Err(e2)) => e1 == e2,
                _ => false,
            }
        }),
{
    if let Object::Integer { value } = right {
        if value == i64::MIN {
            Err(EvalError::IntegerOverflow)
        } else {
            Ok(Object::new_int(-value))
        }
    } else {
        Ok(Object::Null)
    }
}

/// Whether a string's text is exactly `lit`.
fn str_is(s: &String, lit: &str) -> (r: bool)
    ensures
        r == (s@ == lit@),
{
    *s == lit.to_owned()
}

/// Dispatch a prefix operator (executable form of `prefix_eval_v`).
pub fn evaluate_prefix_expression(operator: &String, right: Object) -> (r: Result<
    Object,
    EvalError,
>)
    ensures
        ({
            let rv = prefix_eval_v(operator@, obj_v(right));
            match (r, rv) {
                (Ok(o), Ok(vv)) => obj_v(o) == vv,
                (Err(e1), Err(e2)) => e1 == e2,
                _ => false,
            }
        }),
{
    if str_is(operator, "!") {
        Ok(evaluate_bang_operator_expression(right))
    } else if str_is(operator, "-") {
        evaluate_minus_prefix_operator_expression(right)
    } else {
        Ok(Object::Null)
    }
}

/// Apply a binary operator to evaluated operands (executable form of
/// `infix_eval_v`).
pub fn evaluate_infix_expression(operator: &String, left: Object, right: Object) -> (r: Result<
    Object,
    EvalError,
>)
    ensures
        ({
            let rv = infix_eval_v(operator@, obj_v(left), obj_v(right));
            match (r, rv) {
                (Ok(o), Ok(vv)) => obj_v(o) == vv,
                (Err(e1), Err(e2)) => e1 == e2,
                _ => false,
            }
        }),
{
    match (left, right) {
        (Object::Integer { value: x }, Object::Integer { value: y }) => {
            if str_is(operator, "+") {
                match x.checked_add(y) {
                    Some(v) => Ok(Object::new_int(v)),
                    None => Err(EvalError::IntegerOverflow),
                }
            } else if str_is(operator, "-") {
                match x.checked_sub(y) {
                    Some(v) => Ok(Object::new_int(v)),
                    None => Err(EvalError::IntegerOverflow),
                }
            } else if str_is(operator, "*") {
                match x.checked_mul(y) {
                    Some(v) => Ok(Object::new_int(v)),
                    None => Err(EvalError::IntegerOverflow),
                }
            } else if str_is(operator, "/") {
                if y == 0 {
                    Err(EvalError::DivisionByZero)
                } else {
                    match x.checked_div(y) {
                        Some(v) => Ok(Object::new_int(v)),
                        None => Err(EvalError::IntegerOverflow),
                    }
                }
            } else if str_is(operator, "<") {
                Ok(Object::new_bool(x < y))
            } else if str_is(operator, ">") {
                Ok(Object::new_bool(x > y))
            } else if str_is(operator, "<=") {
                Ok(Object::new_bool(x <= y))
            } else if str_is(operator, ">=") {
                Ok(Object::new_bool(x >= y))
            } else if str_is(operator, "==") {
                Ok(Object::new_bool(x == y))
            } else if str_is(operator, "!=") {
                Ok(Object::new_bool(x != y))
            } else {
                Ok(Object::Null)
            }
        },
        (Object::Boolean { value: a }, Object::Boolean { value: b }) => {
            if str_is(operator, "==") {
                Ok(Object::new_bool(a == b))
            } else if str_is(operator, "!=") {
                Ok(Object::new_bool(a != b))
            } else {
                Ok(Object::Null)
            }
        },
        (Object::Str { value: a }, Object::Str { value: b }) => {
            if str_is(operator, "+") {
                let mut s = a;
                s.append(b.as_str());
                Ok(Object::new_string(s))
            } else {
                Ok(Object::Null)
            }
        },
        _ => Ok(Object::Null),
    }
}

/// Resolve an identifier by walking the scope chain; an unbound name
/// evaluates to `Null`.
pub fn eval_identifier(name: &String, st: &EvalState, env: usize) -> (r: Object)
    ensures
        obj_v(r) == (match env_get_v(st@.scopes, env as int, name@) {
            Some(v) => v,
            None => ObjectV::Null,
        }),
{
    match st.env.get(env, name) {
        Some(value) => value,
        None => Object::Null,
    }
}

/// Index into an array or a hash (executable form of `index_eval_v`).
pub fn eval_index_expression(left: Object, index: Object) -> (r: Result<Object, EvalError>)
    ensures
        ({
            let rv = index_eval_v(obj_v(left), obj_v(index));
            match (r, rv) {
                (Ok(o), Ok(vv)) => obj_v(o) == vv,
                (Err(e1), Err(e2)) => e1 == e2,
                _ => false,
            }
        }),
{
    match left {
        Object::Array { elements } => {
            proof {
                lemma_objs_v_rec(elements@);
            }
            if let Object::Integer { value } = index {
                if value >= 0 && (value as u64) < (elements.len() as u64) {
                    let i = value as usize;
                    Ok(clone_object(&elements[i]))
                } else {
                    Ok(Object::Null)
                }
            } else {
                Ok(Object::Null)
            }
        },
        Object::HashM { pairs } => {
            proof {
                lemma_opairs_v_rec(pairs@);
            }
            if !is_hashable(&index) {
                Err(EvalError::UnhashableKey)
            } else {
                match crate::object::hash_get(&pairs, &index) {
                    Some(v) => Ok(v),
                    None => Ok(Object::Null),
                }
            }
        },
        _ => Ok(Object::Null),
    }
}

/// Evaluate a list of expressions left to right in the caller's scope.
pub fn eval_expressions(
    arguments: &Vec<Expression>,
    st: &mut EvalState,
    env: usize,
    fuel: u64,
) -> (r: Result<Vec<Object>, EvalError>)
    ensures
        ({
            let (rv, st2) = eval_exprs_v(
                arguments@,
                old(st)@,
                env as int,
                fuel as nat,
                0,
                Seq::empty(),
            );
            &&& final(st)@ == st2
            &&& match (r, rv) {
                (Ok(os), Ok(vs)) => objs_v(os@) == vs,
                (Err(e1), Err(e2)) => e1 == e2,
                _ => false,
            }
        }),
    decreases fuel, arguments@.len() + 1,
{
    let expressions: Vec<Object> = Vec::new();
    proof {
        assert(objs_v(expressions@) =~= Seq::<ObjectV>::empty());
    }
    eval_exprs_from(arguments, st, env, fuel, 0, expressions)
}

/// Evaluate the expressions from index `i` on, extending `acc` (executable
/// form of `eval_exprs_v`).
fn eval_exprs_from(
    arguments: &Vec<Expression>,
    st: &mut EvalState,
    env: usize,
    fuel: u64,
    i: usize,
    acc: Vec<Object>,
) -> (r: Result<Vec<Object>, EvalError>)
    requires
        i <= arguments@.len(),
    ensures
        ({
            let (rv, st2) = eval_exprs_v(
                arguments@,
                old(st)@,
                env as int,
                fuel as nat,
                i as int,
                objs_v(acc@),
            );
            &&& final(st)@ == st2
            &&& match (r, rv) {
                (Ok(os), Ok(vs)) => objs_v(os@) == vs,
                (Err(e1), Err(e2)) => e1 == e2,
                _ => false,
            }
        }),
    decreases fuel, arguments@.len() - i,
{
    if fuel == 0 {
        return Err(EvalError::RecursionLimit);
    }
    if i >= arguments.len() {
        return Ok(acc);
    }
    let res = match eval_expression(&arguments[i], st, env, fuel - 1) {
        Ok(v) => v,
        Err(er) => {
            return Err(er);
        },
    };
    let ghost pre = acc@;
    let mut acc2 = acc;
    acc2.push(res);
    proof {
        assert(objs_v(acc2@) =~= objs_v(pre).push(obj_v(res)));
    }
    eval_exprs_from(arguments, st, env, fuel, i + 1, acc2)
}

/// Apply an evaluated callee to evaluated arguments (executable form of
/// `apply_fn_v`).
pub fn apply_function(
    function: Object,
    args: Vec<Object>,
    st: &mut EvalState,
    fuel: u64,
) -> (r: Result<Object, EvalError>)
    ensures
        ({
            let (rv, st2) = apply_fn_v(obj_v(function), objs_v(args@), old(st)@, fuel as nat);
            &&& final(st)@ == st2
            &&& match (r, rv) {
                (Ok(o), Ok(vv)) => obj_v(o) == vv,
                (Err(e1), Err(e2)) => e1 == e2,
                _ => false,
            }
        }),
    decreases fuel, 0int,
{
    if fuel == 0 {
        return Err(EvalError::RecursionLimit);
    }
    match function {
        Object::Builtin(b) => {
            let ghost (rv, st2) = apply_fn_v(obj_v(function), objs_v(args@), old(st)@, fuel as nat);
            let r = apply_builtin(b.func, &args, &mut st.output);
            proof {
                assert(st@ =~= st2);
            }
            r
        },
        Object::Function { parameters, body, environment } => {
            let ghost paramsv = parameters@;
            let ghost argsv = objs_v(args@);
            let params_vec: &Vec<Expression> = &*parameters;
            if args.len() != params_vec.len() {
                return Err(EvalError::ArityMismatch);
            }
            if environment >= st.env.scopes.len() {
                return Ok(Object::Null);
            }
            let child = st.env.create_child(environment);
            let n = params_vec.len();
            let mut i: usize = 0;
            while i < n
                invariant
                    n == paramsv.len(),
                    paramsv == params_vec@,
                    argsv.len() == paramsv.len(),
                    args@.len() == paramsv.len(),
                    argsv == objs_v(args@),
                    i <= n,
                    child == old(st)@.scopes.len(),
                    st@.scopes.len() == child + 1,
                    st@.output == old(st)@.output,
                    st@.scopes == old(st)@.scopes.push(
                        ScopeV {
                            bindings: st@.scopes[child as int].bindings,
                            outer: Some(environment as int),
                        },
                    ),
                    bind_params_v(paramsv, argsv, 0, Seq::empty()) == bind_params_v(
                        paramsv,
                        argsv,
                        i as int,
                        st@.scopes[child as int].bindings,
                    ),
                decreases n - i,
            {
                match &params_vec[i] {
                    Expression::Identifier { value: nm, .. } => {
                        let arg = clone_object(&args[i]);
                        st.env.set(child, nm.clone(), arg);
                        proof {
                            assert(st@.scopes =~~= old(st)@.scopes.push(
                                ScopeV {
                                    bindings: st@.scopes[child as int].bindings,
                                    outer: Some(environment as int),
                                },
                            ));
                        }
                    },
                    _ => {},
                }
                i = i + 1;
            }
            proof {
                let st1 = StateV {
                    scopes: old(st)@.scopes.push(
                        ScopeV {
                            bindings: bind_params_v(paramsv, argsv, 0, Seq::empty()),
                            outer: Some(environment as int),
                        },
                    ),
                    output: old(st)@.output,
                };
                assert(st@ =~~= st1);
            }
            eval_statement(&*body, st, child, fuel - 1)
        },
        _ => Ok(Object::Null),
    }
}

/// Run the statements of a block or of a whole program in order, stopping at
/// once on a `Return` signal and yielding its unwrapped value.
pub fn eval_block_statements(
    statements: &Vec<Statement>,
    st: &mut EvalState,
    env: usize,
    fuel: u64,
) -> (r: Result<Object, EvalError>)
    ensures
        ({
            let (rv, st2) = eval_stmts_v(
                statements@,
                old(st)@,
                env as int,
                fuel as nat,
                0,
                ObjectV::Null,
            );
            &&& final(st)@ == st2
            &&& match (r, rv) {
                (Ok(o), Ok(vv)) => obj_v(o) == vv,
                (Err(e1), Err(e2)) => e1 == e2,
                _ => false,
            }
        }),
    decreases fuel, statements@.len() + 1,
{
    eval_stmts_from(statements, st, env, fuel, 0, Object::Null)
}

/// Run the statements from index `i` on, with `last` the value of the
/// statements already run (executable form of `eval_stmts_v`).
fn eval_stmts_from(
    statements: &Vec<Statement>,
    st: &mut EvalState,
    env: usize,
    fuel: u64,
    i: usize,
    last: Object,
) -> (r: Result<Object, EvalError>)
    requires
        i <= statements@.len(),
        !(obj_v(last) is Return),
    ensures
        ({
            let (rv, st2) = eval_stmts_v(
                statements@,
                old(st)@,
                env as int,
                fuel as nat,
                i as int,
                obj_v(last),
            );
            &&& final(st)@ == st2
            &&& match (r, rv) {
                (Ok(o), Ok(vv)) => obj_v(o) == vv,
                (Err(e1), Err(e2)) => e1 == e2,
                _ => false,
            }
        }),
    decreases fuel, statements@.len() - i,
{
    if fuel == 0 {
        return Err(EvalError::RecursionLimit);
    }
    if i >= statements.len() {
        return Ok(last);
    }
    let res = match eval_statement(&statements[i], st, env, fuel - 1) {
        Ok(v) => v,
        Err(er) => {
            return Err(er);
        },
    };
    if let Object::Return { value } = res {
        return Ok(*value);
    }
    eval_stmts_from(statements, st, env, fuel, i + 1, res)
}

/// Evaluate an `if` expression (executable form of `if_eval_v`).
pub fn eval_if_expression(
    condition: &Expression,
    consequence: &Statement,
    alternative: &Option<Box<Statement>>,
    st: &mut EvalState,
    env: usize,
    fuel: u64,
) -> (r: Result<Object, EvalError>)
    ensures
        ({
            let (rv, st2) = if_eval_v(
                *condition,
                *consequence,
                *alternative,
                old(st)@,
                env as int,
                fuel as nat,
            );
            &&& final(st)@ == st2
            &&& match (r, rv) {
                (Ok(o), Ok(vv)) => obj_v(o) == vv,
                (Err(e1), Err(e2)) => e1 == e2,
                _ => false,
            }
        }),
    decreases fuel, 1int,
{
    if fuel == 0 {
        return Err(EvalError::RecursionLimit);
    }
    let cond = match eval_expression(condition, st, env, fuel - 1) {
        Ok(v) => v,
        Err(er) => {
            return Err(er);
        },
    };
    if is_truthy(cond) {
        eval_statement(consequence, st, env, fuel - 1)
    } else {
        match alternative {
            Some(a) => eval_statement(&*a, st, env, fuel - 1),
            None => Ok(Object::Null),
        }
    }
}

/// Evaluate the key-value pairs of a hash literal in literal order.
fn eval_hash_pairs(
    pairs: &Vec<(Expression, Expression)>,
    st: &mut EvalState,
    env: usize,
    fuel: u64,
) -> (r: Result<Vec<(Object, Object)>, EvalError>)
    ensures
        ({
            let (rv, st2) = eval_pairs_v(
                pairs@,
                old(st)@,
                env as int,
                fuel as nat,
                0,
                Seq::empty(),
            );
            &&& final(st)@ == st2
            &&& match (r, rv) {
                (Ok(os), Ok(vs)) => pairs_v(os@) == vs,
                (Err(e1), Err(e2)) => e1 == e2,
                _ => false,
            }
        }),
    decreases fuel, pairs@.len() + 1,
{
    let hash_pairs: Vec<(Object, Object)> = Vec::new();
    proof {
        assert(pairs_v(hash_pairs@) =~= Seq::<(ObjectV, ObjectV)>::empty());
    }
    eval_pairs_from(pairs, st, env, fuel, 0, hash_pairs)
}

/// Evaluate the key-value pairs from index `i` on, inserting into `acc`
/// (executable form of `eval_pairs_v`).
fn eval_pairs_from(
    pairs: &Vec<(Expression, Expression)>,
    st: &mut EvalState,
    env: usize,
    fuel: u64,
    i: usize,
    acc: Vec<(Object, Object)>,
) -> (r: Result<Vec<(Object, Object)>, EvalError>)
    requires
        i <= pairs@.len(),
    ensures
        ({
            let (rv, st2) = eval_pairs_v(
                pairs@,
                old(st)@,
                env as int,
                fuel as nat,
                i as int,
                pairs_v(acc@),
            );
            &&& final(st)@ == st2
            &&& match (r, rv) {
                (Ok(os), Ok(vs)) => pairs_v(os@) == vs,
                (Err(e1), Err(e2)) => e1 == e2,
                _ => false,
            }
        }),
    decreases fuel, pairs@.len() - i,
{
    if fuel == 0 {
        return Err(EvalError::RecursionLimit);
    }
    if i >= pairs.len() {
        return Ok(acc);
    }
    let key = match eval_expression(&pairs[i].0, st, env, fuel - 1) {
        Ok(v) => v,
        Err(er) => {
            return Err(er);
        },
    };
    let value = match eval_expression(&pairs[i].1, st, env, fuel - 1) {
        Ok(v) => v,
        Err(er) => {
            return Err(er);
        },
    };
    if !is_hashable(&key) {
        return Err(EvalError::UnhashableKey);
    }
    let mut acc2 = acc;
    hash_insert(&mut acc2, key, value);
    eval_pairs_from(pairs, st, env, fuel, i + 1, acc2)
}

/// Evaluate one expression (executable form of `eval_expr_v`).
#[verifier::rlimit(100)]
pub fn eval_expression(e: &Expression, st: &mut EvalState, env: usize, fuel: u64) -> (r: Result<
    Object,
    EvalError,
>)
    ensures
        ({
            let (rv, st2) = eval_expr_v(*e, old(st)@, env as int, fuel as nat);
            res_v(r) == rv && final(st)@ == st2
        }),
    decreases fuel, 2int,
{
    if fuel == 0 {
        return Err(EvalError::RecursionLimit);
    }
    match e {
        Expression::IntegerLiteral { value, .. } => Ok(Object::new_int(*value)),
        Expression::Boolean { value, .. } => Ok(Object::new_bool(*value)),
        Expression::StringLiteral { value, .. } => Ok(Object::new_string(value.clone())),
        Expression::PrefixExpression { operator, right, .. } => {
            let rv = match eval_expression(&*right, st, env, fuel - 1) {
                Ok(v) => v,
                Err(er) => {
                    return Err(er);
                },
            };
            evaluate_prefix_expression(operator, rv)
        },
        Expression::InfixExpression { left, operator, right, .. } => {
            let lv = match eval_expression(&*left, st, env, fuel - 1) {
                Ok(v) => v,
                Err(er) => {
                    return Err(er);
                },
            };
            let rv = match eval_expression(&*right, st, env, fuel - 1) {
                Ok(v) => v,
                Err(er) => {
                    return Err(er);
                },
            };
            evaluate_infix_expression(operator, lv, rv)
        },
        Expression::IfExpression { condition, consequence, alternative, .. } => eval_if_expression(
            &*condition,
            &*consequence,
            alternative,
            st,
            env,
            fuel,
        ),
        Expression::Identifier { value, .. } => Ok(eval_identifier(value, st, env)),
        Expression::FunctionLiteral { parameters, body, .. } => Ok(
            Object::Function {
                parameters: clone_rc_exprs(parameters),
                body: clone_rc_stmt(body),
                environment: env,
            },
        ),
        Expression::CallExpression { function, arguments, .. } => {
            let func = match eval_expression(&*function, st, env, fuel - 1) {
                Ok(v) => v,
                Err(er) => {
                    return Err(er);
                },
            };
            let args = match eval_expressions(arguments, st, env, fuel - 1) {
                Ok(vs) => vs,
                Err(er) => {
                    return Err(er);
                },
            };
            apply_function(func, args, st, fuel - 1)
        },
        Expression::ArrayLiteral { elements, .. } => {
            let es = match eval_expressions(elements, st, env, fuel - 1) {
                Ok(vs) => vs,
                Err(er) => {
                    return Err(er);
                },
            };
            let r = Object::Array { elements: es };
            proof {
                lemma_objs_v_rec(es@);
            }
            Ok(r)
        },
        Expression::IndexExpression { left, index, .. } => {
            let lv = match eval_expression(&*left, st, env, fuel - 1) {
                Ok(v) => v,
                Err(er) => {
                    return Err(er);
                },
            };
            let iv = match eval_expression(&*index, st, env, fuel - 1) {
                Ok(v) => v,
                Err(er) => {
                    return Err(er);
                },
            };
            eval_index_expression(lv, iv)
        },
        Expression::HashLiteral { pairs, .. } => {
            let ps = match eval_hash_pairs(pairs, st, env, fuel - 1) {
                Ok(vs) => vs,
                Err(er) => {
                    return Err(er);
                },
            };
            let r = Object::HashM { pairs: ps };
            proof {
                lemma_opairs_v_rec(ps@);
            }
            Ok(r)
        },
        Expression::Nope => Ok(Object::Null),
    }
}

/// Evaluate one statement (executable form of `eval_stmt_v`).
#[verifier::rlimit(100)]
pub fn eval_statement(s: &Statement, st: &mut EvalState, env: usize, fuel: u64) -> (r: Result<
    Object,
    EvalError,
>)
    ensures
        ({
            let (rv, st2) = eval_stmt_v(*s, old(st)@, env as int, fuel as nat);
            res_v(r) == rv && final(st)@ == st2
        }),
    decreases fuel, 2int,
{
    if fuel == 0 {
        return Err(EvalError::RecursionLimit);
    }
    match s {
        Statement::ExpressionStatement { expression, .. } => eval_expression(
            expression,
            st,
            env,
            fuel - 1,
        ),
        Statement::BlockStatment { statements, .. } => eval_block_statements(
            statements,
            st,
            env,
            fuel - 1,
        ),
        Statement::ReturnStatement { return_value, .. } => {
            let v = match eval_expression(return_value, st, env, fuel - 1) {
                Ok(v) => v,
                Err(er) => {
                    return Err(er);
                },
            };
            Ok(Object::Return { value: Box::new(v) })
        },
        Statement::LetStatement { name, value, .. } => {
            let v = match eval_expression(value, st, env, fuel - 1) {
                Ok(v) => v,
                Err(er) => {
                    return Err(er);
                },
            };
            match name {
                Expression::Identifier { value: n, .. } => {
                    st.env.set(env, n.clone(), v);
                    Ok(Object::Null)
                },
                _ => Ok(Object::Null),
            }
        },
    }
}

/// A `return` statement ends its statement sequence at once: the sequence
/// yields the returned (unwrapped) value in the state the `return` left
/// behind, and the statements after it never run. A function body and the
/// program's top level are run as such sequences, so a `return` standing
/// directly in one of them hands its value to that level. Note that every
/// statement sequence — nested blocks included — unwraps the signal this
/// way, so a `return` inside an inner block ends only that inner sequence;
/// the enclosing sequence continues with the unwrapped value as an ordinary
/// value.
pub proof fn lemma_return_unwinds(
    ss: Seq<Statement>,
    st: StateV,
    env: int,
    fuel: nat,
    i: int,
    last: ObjectV,
    v: ObjectV,
    st1: StateV,
)
    requires
        fuel > 0,
        0 <= i < ss.len(),
        eval_stmt_v(ss[i], st, env, (fuel - 1) as nat) == (
            Ok::<ObjectV, EvalError>(ObjectV::Return(Box::new(v))),
            st1,
        ),
    ensures
        eval_stmts_v(ss, st, env, fuel, i, last) == (Ok::<ObjectV, EvalError>(v), st1),
{
}

} // verus!
