//! The evaluator: its semantics as spec functions, and the executable walk proved
//! to follow them.
//!
//! Every nested evaluation (of a sub-term, or of a function body at a call) uses
//! one unit of a nesting-depth budget; a run that would nest deeper than its budget
//! stops with [`EvalError::DepthExceeded`]. This bound is what makes evaluation a
//! total function: without it a program such as `let f = fn() => f(); f()` would
//! never return.
use vstd::prelude::*;
use crate::ast::{Ast, BinaryOp, Call, File, Term, names_of, views_of};
use crate::render::{decimal, printable, push_int, push_rendering, rendering};
use crate::value::{Scope, Val, Value, clone_val};

verus! {

broadcast use vstd::std_specs::vec::group_vec_axioms;

/// The nesting depth that [`evaluate`] and [`run`] allow.
pub const MAX_DEPTH: u32 = 1000;

/// Why an evaluation failed.
#[derive(Debug, Clone, Copy, PartialEq, Eq, Structural)]
pub enum EvalError {
    /// A variable that is not in scope.
    UnboundVariable,
    /// An operator or a condition applied to a value of the wrong kind.
    TypeMismatch,
    /// `Print` of a value that has no rendering (nothing, or a function).
    InvalidPrint,
    /// A call of something that is not a function.
    NotCallable,
    /// A call whose argument count differs from the function's parameter count.
    ArityMismatch,
    /// A program document that does not describe a syntax tree.
    MalformedInput,
    /// Evaluation nested deeper than its budget.
    DepthExceeded,
}

/// What evaluating a term yields: the result, and the text printed on the way
/// (printed text stays printed when a later step fails).
pub type Outcome = (Result<Value, EvalError>, Seq<char>);

/// The model of an executable result.
pub open spec fn result_view(r: Result<Val, EvalError>) -> Result<Value, EvalError> {
    match r {
        Ok(v) => Ok(v@),
        Err(e) => Err(e),
    }
}

/// `Add` on two values: integers add with 32-bit wrap-around; a string joined with
/// a string or an integer gives the two texts, left one first.
pub open spec fn add_values(a: Value, b: Value) -> Result<Value, EvalError> {
    match (a, b) {
        (Value::Int(x), Value::Int(y)) => Ok(Value::Int(x.wrapping_add(y))),
        (Value::Str(x), Value::Str(y)) => Ok(Value::Str(x + y)),
        (Value::Str(x), Value::Int(y)) => Ok(Value::Str(x + decimal(y as int))),
        (Value::Int(x), Value::Str(y)) => Ok(Value::Str(decimal(x as int) + y)),
        _ => Err(EvalError::TypeMismatch),
    }
}

/// A binary operator applied to the values of its two sides.
pub open spec fn binary_result(op: BinaryOp, a: Value, b: Value) -> Result<Value, EvalError> {
    match op {
        BinaryOp::Add => add_values(a, b),
        BinaryOp::Sub => match (a, b) {
            (Value::Int(x), Value::Int(y)) => Ok(Value::Int(x.wrapping_sub(y))),
            _ => Err(EvalError::TypeMismatch),
        },
        BinaryOp::Lt => match (a, b) {
            (Value::Int(x), Value::Int(y)) => Ok(Value::Bool(x < y)),
            _ => Err(EvalError::TypeMismatch),
        },
    }
}

/// `env` with each name of `names` bound to the value at the same position of
/// `vals`, in order.
pub open spec fn bind_all(
    env: Map<Seq<char>, Value>,
    names: Seq<Seq<char>>,
    vals: Seq<Value>,
) -> Map<Seq<char>, Value>
    decreases names.len(),
{
    if names.len() == 0 || vals.len() == 0 {
        env
    } else {
        bind_all(env, names.drop_last(), vals.drop_last()).insert(names.last(), vals.last())
    }
}

/// The scope in which a closure's body runs: its captured scope, with its own
/// name (if a binding gave it one) bound to itself, then its parameters bound to
/// the arguments.
pub open spec fn call_env(f: Value, args: Seq<Value>) -> Map<Seq<char>, Value> {
    match f {
        Value::Closure { params, env, name, .. } => {
            let base = match name {
                Some(n) => env.insert(n, f),
                None => env,
            };
            bind_all(base, params, args)
        },
        _ => Map::empty(),
    }
}

/// The value a `Let` binds: a closure made from a function literal is given the
/// bound name, so that its body can call itself.
pub open spec fn named(bound: Value, value_term: Ast, name: Seq<char>) -> Value {
    match bound {
        Value::Closure { params, body, env, .. } => if value_term is Function {
            Value::Closure { params, body, env, name: Some(name) }
        } else {
            bound
        },
        _ => bound,
    }
}

/// Evaluation of `t` in `env` with a nesting budget of `depth`.
pub open spec fn eval_spec(t: Ast, env: Map<Seq<char>, Value>, depth: nat) -> Outcome
    decreases depth, 0nat, 0nat,
{
    if depth == 0 {
        (Err(EvalError::DepthExceeded), Seq::empty())
    } else {
        let d = (depth - 1) as nat;
        match t {
            Ast::Int(n) => (Ok(Value::Int(n)), Seq::empty()),
            Ast::Str(s) => (Ok(Value::Str(s)), Seq::empty()),
            Ast::Bool(b) => (Ok(Value::Bool(b)), Seq::empty()),
            Ast::Print(e) => {
                let o = eval_spec(*e, env, d);
                match o.0 {
                    Err(x) => (Err(x), o.1),
                    Ok(v) => if printable(v) {
                        (Ok(Value::Void), o.1 + rendering(v))
                    } else {
                        (Err(EvalError::InvalidPrint), o.1)
                    },
                }
            },
            Ast::Binary(l, op, r) => {
                let ol = eval_spec(*l, env, d);
                match ol.0 {
                    Err(x) => (Err(x), ol.1),
                    Ok(a) => {
                        let or = eval_spec(*r, env, d);
                        match or.0 {
                            Err(x) => (Err(x), ol.1 + or.1),
                            Ok(b) => (binary_result(op, a, b), ol.1 + or.1),
                        }
                    },
                }
            },
            Ast::If(c, th, el) => {
                let oc = eval_spec(*c, env, d);
                match oc.0 {
                    Err(x) => (Err(x), oc.1),
                    Ok(Value::Bool(b)) => {
                        let ob = eval_spec(if b { *th } else { *el }, env, d);
                        (ob.0, oc.1 + ob.1)
                    },
                    Ok(_) => (Err(EvalError::TypeMismatch), oc.1),
                }
            },
            Ast::Let(n, v, next) => {
                let ov = eval_spec(*v, env, d);
                match ov.0 {
                    Err(x) => (Err(x), ov.1),
                    Ok(x) => {
                        let on = eval_spec(*next, env.insert(n, named(x, *v, n)), d);
                        (on.0, ov.1 + on.1)
                    },
                }
            },
            Ast::Var(n) => if env.contains_key(n) {
                (Ok(env[n]), Seq::empty())
            } else {
                (Err(EvalError::UnboundVariable), Seq::empty())
            },
            Ast::Function(ps, body) => (
                Ok(Value::Closure { params: ps, body: *body, env, name: None }),
                Seq::empty(),
            ),
            Ast::Call(callee, args) => {
                let of = eval_spec(*callee, env, d);
                match of.0 {
                    Err(x) => (Err(x), of.1),
                    Ok(f) => if !(f is Closure) {
                        (Err(EvalError::NotCallable), of.1)
                    } else {
                        let oa = eval_args(args, env, d, args.len());
                        match oa.0 {
                            Err(x) => (Err(x), of.1 + oa.1),
                            Ok(vs) => if vs.len() != f->params.len() {
                                (Err(EvalError::ArityMismatch), of.1 + oa.1)
                            } else {
                                let ob = eval_spec(f->body, call_env(f, vs), d);
                                (ob.0, of.1 + oa.1 + ob.1)
                            },
                        }
                    },
                }
            },
        }
    }
}

/// Evaluation of the first `n` terms of `args`, left to right, stopping at the
/// first failure.
pub open spec fn eval_args(args: Seq<Ast>, env: Map<Seq<char>, Value>, depth: nat, n: nat) -> (
    Result<Seq<Value>, EvalError>,
    Seq<char>,
)
    decreases depth, 1nat, n,
{
    if n == 0 || n > args.len() {
        (Ok(Seq::empty()), Seq::empty())
    } else {
        let o = eval_args(args, env, depth, (n - 1) as nat);
        match o.0 {
            Err(x) => (Err(x), o.1),
            Ok(vs) => {
                let ov = eval_spec(args[n - 1], env, depth);
                match ov.0 {
                    Err(x) => (Err(x), o.1 + ov.1),
                    Ok(v) => (Ok(vs.push(v)), o.1 + ov.1),
                }
            },
        }
    }
}

/// `views_of` has one model for each term, in order.
proof fn lemma_views_of(ts: Seq<Term>, n: nat)
    requires
        n <= ts.len(),
    ensures
        views_of(ts, n).len() == n,
        forall|k: int| 0 <= k < n ==> #[trigger] views_of(ts, n)[k] == ts[k]@,
    decreases n,
{
    if n > 0 {
        lemma_views_of(ts, (n - 1) as nat);
    }
}

/// Once evaluating the arguments has failed, evaluating more of them changes nothing.
proof fn lemma_args_failure_stays(args: Seq<Ast>, env: Map<Seq<char>, Value>, depth: nat, n: nat, m: nat)
    requires
        n <= m <= args.len(),
        eval_args(args, env, depth, n).0 is Err,
    ensures
        eval_args(args, env, depth, m) == eval_args(args, env, depth, n),
    decreases m,
{
    if m > n {
        lemma_args_failure_stays(args, env, depth, n, (m - 1) as nat);
    }
}

/// Evaluating the arguments, when it succeeds, yields one value per argument.
pub proof fn lemma_args_len(args: Seq<Ast>, env: Map<Seq<char>, Value>, depth: nat, n: nat)
    requires
        n <= args.len(),
        eval_args(args, env, depth, n).0 is Ok,
    ensures
        eval_args(args, env, depth, n).0->Ok_0.len() == n,
    decreases n,
{
    if n > 0 {
        lemma_args_len(args, env, depth, (n - 1) as nat);
    }
}

/// The models of a list of values.
pub open spec fn views_of_vals(vs: Seq<Val>) -> Seq<Value> {
    vs.map_values(|v: Val| v@)
}

/// Evaluates `t` in `scope`, allowing `depth` levels of nesting, and appends what
/// it prints to `out`.
pub fn eval(t: &Term, scope: &Scope, depth: u32, out: &mut String) -> (r: Result<Val, EvalError>)
    ensures
        result_view(r) == eval_spec(t@, scope@, depth as nat).0,
        final(out)@ == old(out)@ + eval_spec(t@, scope@, depth as nat).1,
    decreases depth, 1nat,
{
    if depth == 0 {
        proof {
            assert(old(out)@ =~= old(out)@ + Seq::<char>::empty());
        }
        return Err(EvalError::DepthExceeded);
    }
    let d: u32 = depth - 1;
    let ghost start = old(out)@;
    match t {
        Term::Int(n) => {
            proof { assert(start =~= start + Seq::<char>::empty()); }
            Ok(Val::Int(n.value))
        },
        Term::Str(s) => {
            proof { assert(start =~= start + Seq::<char>::empty()); }
            Ok(Val::Str(s.value.clone()))
        },
        Term::Bool(b) => {
            proof { assert(start =~= start + Seq::<char>::empty()); }
            Ok(Val::Bool(b.value))
        },
        Term::Print(p) => {
            let v = match eval(&p.value, scope, d, out) {
                Ok(v) => v,
                Err(e) => return Err(e),
            };
            match v {
                Val::Void => Err(EvalError::InvalidPrint),
                Val::Closure { .. } => Err(EvalError::InvalidPrint),
                _ => {
                    push_rendering(out, &v);
                    proof {
                        let o = eval_spec(p.value@, scope@, d as nat);
                        assert(final(out)@ =~= start + (o.1 + rendering(v@)));
                    }
                    Ok(Val::Void)
                },
            }
        },
        Term::Binary(b) => {
            let a = match eval(&b.lhs, scope, d, out) {
                Ok(a) => a,
                Err(e) => return Err(e),
            };
            let ghost mid = out@;
            let c = match eval(&b.rhs, scope, d, out) {
                Ok(c) => c,
                Err(e) => {
                    proof {
                        assert(out@ =~= start + (eval_spec(b.lhs@, scope@, d as nat).1 + eval_spec(b.rhs@, scope@, d as nat).1));
                    }
                    return Err(e);
                },
            };
            proof {
                assert(out@ =~= start + (eval_spec(b.lhs@, scope@, d as nat).1 + eval_spec(b.rhs@, scope@, d as nat).1));
            }
            binary(b.op, a, c)
        },
        Term::If(i) => {
            let c = match eval(&i.condition, scope, d, out) {
                Ok(c) => c,
                Err(e) => return Err(e),
            };
            let ghost oc = eval_spec(i.condition@, scope@, d as nat);
            match c {
                Val::Bool(true) => {
                    let r = eval(&i.then_branch, scope, d, out);
                    proof {
                        assert(out@ =~= start + (oc.1 + eval_spec(i.then_branch@, scope@, d as nat).1));
                    }
                    r
                },
                Val::Bool(false) => {
                    let r = eval(&i.otherwise, scope, d, out);
                    proof {
                        assert(out@ =~= start + (oc.1 + eval_spec(i.otherwise@, scope@, d as nat).1));
                    }
                    r
                },
                _ => Err(EvalError::TypeMismatch),
            }
        },
        Term::Let(l) => {
            let v = match eval(&l.value, scope, d, out) {
                Ok(v) => v,
                Err(e) => return Err(e),
            };
            let v = match (v, &*l.value) {
                (Val::Closure { body, params, env, .. }, Term::Function(_)) => Val::Closure {
                    body,
                    params,
                    env,
                    name: Some(l.name.text.clone()),
                },
                (v, _) => v,
            };
            let inner = scope.snapshot().bind(l.name.text.clone(), v);
            let r = eval(&l.next, &inner, d, out);
            proof {
                let ov = eval_spec(l.value@, scope@, d as nat);
                assert(out@ =~= start + (ov.1 + eval_spec(l.next@, inner@, d as nat).1));
            }
            r
        },
        Term::Var(v) => {
            proof { assert(start =~= start + Seq::<char>::empty()); }
            match scope.lookup(&v.text) {
                Some(x) => Ok(x),
                None => Err(EvalError::UnboundVariable),
            }
        },
        Term::Function(f) => {
            proof { assert(start =~= start + Seq::<char>::empty()); }
            Ok(
                Val::Closure {
                    body: crate::ast::clone_term(&f.value),
                    params: crate::ast::clone_params(&f.parameters),
                    env: scope.snapshot(),
                    name: None,
                },
            )
        },
        Term::Call(c) => eval_call(t, c, scope, depth, out),
    }
}

/// Applies a binary operator to two evaluated operands.
fn binary(op: BinaryOp, a: Val, b: Val) -> (r: Result<Val, EvalError>)
    ensures
        result_view(r) == binary_result(op, a@, b@),
{
    match op {
        BinaryOp::Add => match (a, b) {
            (Val::Int(x), Val::Int(y)) => Ok(Val::Int(x.wrapping_add(y))),
            (Val::Str(x), Val::Str(y)) => {
                let mut s = x;
                s.append(y.as_str());
                Ok(Val::Str(s))
            },
            (Val::Str(x), Val::Int(y)) => {
                let mut s = x;
                push_int(&mut s, y);
                Ok(Val::Str(s))
            },
            (Val::Int(x), Val::Str(y)) => {
                let mut s = String::new();
                push_int(&mut s, x);
                s.append(y.as_str());
                proof {
                    assert(s@ =~= decimal(x as int) + y@);
                }
                Ok(Val::Str(s))
            },
            _ => Err(EvalError::TypeMismatch),
        },
        BinaryOp::Sub => match (a, b) {
            (Val::Int(x), Val::Int(y)) => Ok(Val::Int(x.wrapping_sub(y))),
            _ => Err(EvalError::TypeMismatch),
        },
        BinaryOp::Lt => match (a, b) {
            (Val::Int(x), Val::Int(y)) => Ok(Val::Bool(x < y)),
            _ => Err(EvalError::TypeMismatch),
        },
    }
}

/// Evaluates a call `t`, whose node is `c`: the callee, then the arguments left to
/// right in the caller's scope, then the body in the closure's scope.
fn eval_call(t: &Term, c: &Call, scope: &Scope, depth: u32, out: &mut String) -> (r: Result<
    Val,
    EvalError,
>)
    requires
        depth > 0,
        *t == Term::Call(*c),
    ensures
        result_view(r) == eval_spec(t@, scope@, depth as nat).0,
        final(out)@ == old(out)@ + eval_spec(t@, scope@, depth as nat).1,
    decreases depth, 0nat,
{
    let d: u32 = depth - 1;
    let ghost start = old(out)@;
    let ghost args = views_of(c.arguments@, c.arguments@.len());
    proof {
        lemma_views_of(c.arguments@, c.arguments@.len());
    }
    let f = match eval(&c.callee, scope, d, out) {
        Ok(f) => f,
        Err(e) => return Err(e),
    };
    let ghost of = eval_spec(c.callee@, scope@, d as nat);
    let ghost fv = f@;
    let me = clone_val(&f);
    match f {
        Val::Closure { body, params, env, name } => {
            let mut vals: Vec<Val> = Vec::new();
            let mut i: usize = 0;
            proof {
                assert(views_of_vals(vals@) =~= Seq::<Value>::empty());
            }
            while i < c.arguments.len()
                invariant
                    d as nat == depth - 1,
                    depth > 0,
                    start == old(out)@,
                    *t == Term::Call(*c),
                    of == eval_spec(c.callee@, scope@, d as nat),
                    of.0 == Ok::<Value, EvalError>(fv),
                    fv is Closure,
                    args == views_of(c.arguments@, c.arguments@.len()),
                    args.len() == c.arguments@.len(),
                    forall|k: int| 0 <= k < args.len() ==> #[trigger] args[k] == c.arguments@[k]@,
                    i <= c.arguments@.len(),
                    eval_args(args, scope@, d as nat, i as nat).0 == Ok::<Seq<Value>, EvalError>(views_of_vals(vals@)),
                    out@ == start + of.1 + eval_args(args, scope@, d as nat, i as nat).1,
                decreases c.arguments@.len() - i,
            {
                let ghost before = out@;
                let ghost prev = eval_args(args, scope@, d as nat, i as nat);
                match eval(&c.arguments[i], scope, d, out) {
                    Ok(v) => {
                        let ghost vals0 = vals@;
                        vals.push(v);
                        proof {
                            assert(views_of_vals(vals@) =~= views_of_vals(vals0).push(v@));
                            assert(out@ =~= start + of.1 + eval_args(args, scope@, d as nat, (i + 1) as nat).1);
                        }
                    },
                    Err(e) => {
                        proof {
                            lemma_args_failure_stays(args, scope@, d as nat, (i + 1) as nat, args.len());
                            let oa = eval_args(args, scope@, d as nat, args.len());
                            assert(oa.0 is Err);
                            assert(eval_spec(t@, scope@, depth as nat).1 == of.1 + oa.1);
                            assert(out@ =~= start + (of.1 + oa.1));
                        }
                        return Err(e);
                    },
                }
                i += 1;
            }
            let ghost vs = views_of_vals(vals@);
            proof {
                assert(vs.len() == vals@.len());
            }
            if vals.len() != params.len() {
                proof {
                    assert(out@ =~= start + (of.1 + eval_args(args, scope@, d as nat, args.len()).1));
                }
                return Err(EvalError::ArityMismatch);
            }
            let ghost names = names_of(params@);
            let ghost base = match fv {
                Value::Closure { env, name, .. } => match name {
                    Some(n) => env.insert(n, fv),
                    None => env,
                },
                _ => Map::empty(),
            };
            let mut inner = match name {
                Some(n) => env.bind(n, me),
                None => env,
            };
            let mut j: usize = 0;
            while j < params.len()
                invariant
                    j <= params@.len(),
                    params@.len() == vals@.len(),
                    vs == views_of_vals(vals@),
                    names == names_of(params@),
                    inner@ == bind_all(base, names.take(j as int), vs.take(j as int)),
                decreases params@.len() - j,
            {
                let x = clone_val(&vals[j]);
                inner = inner.bind(params[j].text.clone(), x);
                proof {
                    assert(names.take(j + 1).drop_last() =~= names.take(j as int));
                    assert(vs.take(j + 1).drop_last() =~= vs.take(j as int));
                }
                j += 1;
            }
            proof {
                assert(names.take(j as int) =~= names);
                assert(vs.take(j as int) =~= vs);
                assert(inner@ == call_env(fv, vs));
            }
            let r = eval(&body, &inner, d, out);
            proof {
                assert(out@ =~= start + (of.1 + eval_args(args, scope@, d as nat, args.len()).1) + eval_spec(body@, inner@, d as nat).1);
            }
            r
        },
        _ => {
            proof {
                assert(out@ =~= start + of.1);
            }
            Err(EvalError::NotCallable)
        },
    }
}

/// Evaluates `term` in an empty scope within [`MAX_DEPTH`] levels of nesting.
/// Returns the result and everything printed, also when the evaluation failed.
pub fn evaluate(term: &Term) -> (r: (Result<Val, EvalError>, String))
    ensures
        result_view(r.0) == eval_spec(term@, Map::empty(), MAX_DEPTH as nat).0,
        r.1@ == eval_spec(term@, Map::empty(), MAX_DEPTH as nat).1,
{
    let mut out = String::new();
    let scope = Scope::new();
    let r = eval(term, &scope, MAX_DEPTH, &mut out);
    proof {
        assert(out@ =~= eval_spec(term@, Map::empty(), MAX_DEPTH as nat).1);
    }
    (r, out)
}

/// Runs a program: evaluates its root expression as [`evaluate`] does.
pub fn run(file: &File) -> (r: (Result<Val, EvalError>, String))
    ensures
        result_view(r.0) == eval_spec(file.expression@, Map::empty(), MAX_DEPTH as nat).0,
        r.1@ == eval_spec(file.expression@, Map::empty(), MAX_DEPTH as nat).1,
{
    evaluate(&file.expression)
}

} // verus!
