//! Properties of the language, proved from its semantics.
use vstd::prelude::*;
use crate::ast::{Ast, BinaryOp};
use crate::eval::{EvalError, add_values, call_env, eval_args, eval_spec, lemma_args_len, named};
use crate::render::{decimal, rendering};
use crate::value::Value;

verus! {

/// Whether a term is an integer, string or boolean literal.
pub open spec fn is_literal(t: Ast) -> bool {
    t is Int || t is Str || t is Bool
}

/// The value a literal denotes.
pub open spec fn literal_value(t: Ast) -> Value {
    match t {
        Ast::Int(n) => Value::Int(n),
        Ast::Str(s) => Value::Str(s),
        Ast::Bool(b) => Value::Bool(b),
        _ => Value::Void,
    }
}

/// Printing a literal prints exactly its rendering and yields nothing.
pub proof fn print_literal_renders(t: Ast, env: Map<Seq<char>, Value>, depth: nat)
    requires
        is_literal(t),
        depth >= 2,
    ensures
        eval_spec(Ast::Print(Box::new(t)), env, depth) == (
            Ok::<Value, EvalError>(Value::Void),
            rendering(literal_value(t)),
        ),
{
    reveal_with_fuel(eval_spec, 2);
    assert(Seq::<char>::empty() + rendering(literal_value(t)) =~= rendering(literal_value(t)));
}

/// Adding two integers gives the same result in either order.
pub proof fn add_ints_commutes(x: i32, y: i32)
    ensures
        add_values(Value::Int(x), Value::Int(y)) == add_values(Value::Int(y), Value::Int(x)),
{
}

/// Whatever two terms evaluate to integers, `Add` on them gives the same result in
/// either order.
pub proof fn add_terms_commutes(l: Ast, r: Ast, env: Map<Seq<char>, Value>, depth: nat)
    requires
        depth > 0,
        eval_spec(l, env, (depth - 1) as nat).0 is Ok,
        eval_spec(l, env, (depth - 1) as nat).0->Ok_0 is Int,
        eval_spec(r, env, (depth - 1) as nat).0 is Ok,
        eval_spec(r, env, (depth - 1) as nat).0->Ok_0 is Int,
    ensures
        eval_spec(Ast::Binary(Box::new(l), BinaryOp::Add, Box::new(r)), env, depth).0
            == eval_spec(Ast::Binary(Box::new(r), BinaryOp::Add, Box::new(l)), env, depth).0,
{
    let x = eval_spec(l, env, (depth - 1) as nat).0->Ok_0->Int_0;
    let y = eval_spec(r, env, (depth - 1) as nat).0->Ok_0->Int_0;
    add_ints_commutes(x, y);
}

/// Adding a string and an integer keeps their order: the left operand's text comes
/// first.
pub proof fn add_string_int_keeps_order(s: Seq<char>, n: i32)
    ensures
        add_values(Value::Str(s), Value::Int(n)) == Ok::<Value, EvalError>(
            Value::Str(s + decimal(n as int)),
        ),
        add_values(Value::Int(n), Value::Str(s)) == Ok::<Value, EvalError>(
            Value::Str(decimal(n as int) + s),
        ),
{
}

/// Rebinding a name makes later references see the new value, while a closure
/// created before the rebinding still sees the earlier one when it is called.
pub proof fn rebinding_hides_only_later_references(
    env: Map<Seq<char>, Value>,
    x: Seq<char>,
    f: Seq<char>,
    a: Ast,
    b: Ast,
    depth: nat,
)
    requires
        is_literal(a),
        is_literal(b),
        x != f,
        depth >= 5,
    ensures
        eval_spec(
            Ast::Let(x, Box::new(a), Box::new(Ast::Let(x, Box::new(b), Box::new(Ast::Var(x))))),
            env,
            depth,
        ) == (Ok::<Value, EvalError>(literal_value(b)), Seq::<char>::empty()),
        eval_spec(
            Ast::Let(
                x,
                Box::new(a),
                Box::new(
                    Ast::Let(
                        f,
                        Box::new(Ast::Function(Seq::empty(), Box::new(Ast::Var(x)))),
                        Box::new(
                            Ast::Let(
                                x,
                                Box::new(b),
                                Box::new(Ast::Call(Box::new(Ast::Var(f)), Seq::empty())),
                            ),
                        ),
                    ),
                ),
            ),
            env,
            depth,
        ) == (Ok::<Value, EvalError>(literal_value(a)), Seq::<char>::empty()),
{
    let e: Seq<char> = Seq::empty();
    assert(e + e =~= e);
    let d1 = (depth - 1) as nat;
    let d2 = (depth - 2) as nat;
    let d3 = (depth - 3) as nat;
    let d4 = (depth - 4) as nat;
    let va = literal_value(a);
    let vb = literal_value(b);
    let env1 = env.insert(x, va);
    assert(eval_spec(a, env, d1) == (Ok::<Value, EvalError>(va), e));
    assert(named(va, a, x) == va);
    // Direct shadowing.
    let inner = Ast::Let(x, Box::new(b), Box::new(Ast::Var(x)));
    assert(eval_spec(b, env1, d2) == (Ok::<Value, EvalError>(vb), e));
    assert(named(vb, b, x) == vb);
    assert(env1.insert(x, vb).contains_key(x) && env1.insert(x, vb)[x] == vb);
    assert(eval_spec(Ast::Var(x), env1.insert(x, vb), d2) == (Ok::<Value, EvalError>(vb), e));
    assert(eval_spec(inner, env1, d1) == (Ok::<Value, EvalError>(vb), e));
    // A closure made before the rebinding.
    let fun = Ast::Function(Seq::empty(), Box::new(Ast::Var(x)));
    let clo = Value::Closure { params: Seq::empty(), body: Ast::Var(x), env: env1, name: None };
    let clo2 = Value::Closure { params: Seq::empty(), body: Ast::Var(x), env: env1, name: Some(f) };
    assert(eval_spec(fun, env1, d2) == (Ok::<Value, EvalError>(clo), e));
    assert(named(clo, fun, f) == clo2);
    let env2 = env1.insert(f, clo2);
    let call = Ast::Call(Box::new(Ast::Var(f)), Seq::empty());
    let l2 = Ast::Let(x, Box::new(b), Box::new(call));
    let env3 = env2.insert(x, vb);
    assert(eval_spec(b, env2, d3) == (Ok::<Value, EvalError>(vb), e));
    assert(env3[f] == clo2);
    assert(eval_spec(Ast::Var(f), env3, d4) == (Ok::<Value, EvalError>(clo2), e));
    assert(eval_args(Seq::empty(), env3, d4, 0) == (Ok::<Seq<Value>, EvalError>(Seq::empty()), e));
    let body_env = call_env(clo2, Seq::empty());
    assert(body_env == env1.insert(f, clo2));
    assert(body_env[x] == va);
    assert(eval_spec(Ast::Var(x), body_env, d4) == (Ok::<Value, EvalError>(va), e));
    assert(e + e + e =~= e);
    assert(eval_spec(call, env3, d3) == (Ok::<Value, EvalError>(va), e));
    assert(eval_spec(l2, env2, d2) == (Ok::<Value, EvalError>(va), e));
    let l1 = Ast::Let(f, Box::new(fun), Box::new(l2));
    assert(eval_spec(l1, env1, d1) == (Ok::<Value, EvalError>(va), e));
}

/// A conditional whose condition evaluates to anything but a boolean fails with a
/// type mismatch.
pub proof fn non_bool_condition_fails(
    c: Ast,
    then_branch: Ast,
    otherwise: Ast,
    env: Map<Seq<char>, Value>,
    depth: nat,
)
    requires
        depth > 0,
        eval_spec(c, env, (depth - 1) as nat).0 is Ok,
        !(eval_spec(c, env, (depth - 1) as nat).0->Ok_0 is Bool),
    ensures
        eval_spec(Ast::If(Box::new(c), Box::new(then_branch), Box::new(otherwise)), env, depth).0
            == Err::<Value, EvalError>(EvalError::TypeMismatch),
{
}

/// A call whose argument count differs from the closure's parameter count fails
/// with an arity mismatch.
pub proof fn wrong_argument_count_fails(
    callee: Ast,
    args: Seq<Ast>,
    env: Map<Seq<char>, Value>,
    depth: nat,
)
    requires
        depth > 0,
        eval_spec(callee, env, (depth - 1) as nat).0 is Ok,
        eval_spec(callee, env, (depth - 1) as nat).0->Ok_0 is Closure,
        eval_args(args, env, (depth - 1) as nat, args.len()).0 is Ok,
        args.len() != eval_spec(callee, env, (depth - 1) as nat).0->Ok_0->params.len(),
    ensures
        eval_spec(Ast::Call(Box::new(callee), args), env, depth).0 == Err::<Value, EvalError>(
            EvalError::ArityMismatch,
        ),
{
    lemma_args_len(args, env, (depth - 1) as nat, args.len());
}

} // verus!
