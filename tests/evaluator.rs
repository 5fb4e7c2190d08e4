use treewalk::ast::{
    Binary, BinaryOp, Bool, Call, File, Function, If, Int, Let, Parameter, Print, Str, Term, Var,
};
use treewalk::eval::{evaluate, run, EvalError};
use treewalk::value::Val;

fn lit_int(n: i32) -> Term {
    Term::Int(Int { value: n })
}

fn lit_str(s: &str) -> Term {
    Term::Str(Str { value: s.to_string() })
}

fn lit_bool(b: bool) -> Term {
    Term::Bool(Bool { value: b })
}

fn print(t: Term) -> Term {
    Term::Print(Print { value: Box::new(t) })
}

fn bin(l: Term, op: BinaryOp, r: Term) -> Term {
    Term::Binary(Binary { lhs: Box::new(l), op, rhs: Box::new(r) })
}

fn cond(c: Term, t: Term, e: Term) -> Term {
    Term::If(If { condition: Box::new(c), then_branch: Box::new(t), otherwise: Box::new(e) })
}

fn let_in(name: &str, value: Term, next: Term) -> Term {
    Term::Let(Let {
        name: Parameter { text: name.to_string() },
        value: Box::new(value),
        next: Box::new(next),
    })
}

fn var(name: &str) -> Term {
    Term::Var(Var { text: name.to_string() })
}

fn func(params: &[&str], body: Term) -> Term {
    Term::Function(Function {
        parameters: params.iter().map(|p| Parameter { text: p.to_string() }).collect(),
        value: Box::new(body),
    })
}

fn call(callee: Term, args: Vec<Term>) -> Term {
    Term::Call(Call { callee: Box::new(callee), arguments: args })
}

fn fib_program(n: i32) -> Term {
    let body = cond(
        bin(var("n"), BinaryOp::Lt, lit_int(2)),
        var("n"),
        bin(
            call(var("fib"), vec![bin(var("n"), BinaryOp::Sub, lit_int(1))]),
            BinaryOp::Add,
            call(var("fib"), vec![bin(var("n"), BinaryOp::Sub, lit_int(2))]),
        ),
    );
    let_in("fib", func(&["n"], body), call(var("fib"), vec![lit_int(n)]))
}

fn expect_int(t: Term, n: i32) {
    match evaluate(&t).0 {
        Ok(Val::Int(m)) => assert_eq!(m, n),
        _ => panic!("expected the integer {}", n),
    }
}

fn expect_str(t: Term, s: &str) {
    match evaluate(&t).0 {
        Ok(Val::Str(m)) => assert_eq!(m, s),
        _ => panic!("expected the string {:?}", s),
    }
}

fn expect_err(t: Term, e: EvalError) {
    match evaluate(&t).0 {
        Err(x) => assert_eq!(x, e),
        Ok(_) => panic!("expected {:?}", e),
    }
}

#[test]
fn print_int_literal() {
    let (r, out) = evaluate(&print(lit_int(3)));
    assert!(matches!(r, Ok(Val::Void)));
    assert_eq!(out, "3");
}

#[test]
fn print_bool_literals() {
    assert_eq!(evaluate(&print(lit_bool(true))).1, "true");
    assert_eq!(evaluate(&print(lit_bool(false))).1, "false");
}

#[test]
fn print_string_literal_raw() {
    assert_eq!(evaluate(&print(lit_str("a \"b\"\n"))).1, "a \"b\"\n");
}

#[test]
fn print_negative_and_extreme_ints() {
    assert_eq!(evaluate(&print(lit_int(-42))).1, "-42");
    assert_eq!(evaluate(&print(lit_int(0))).1, "0");
    assert_eq!(evaluate(&print(lit_int(i32::MIN))).1, "-2147483648");
    assert_eq!(evaluate(&print(lit_int(i32::MAX))).1, "2147483647");
}

#[test]
fn print_one_plus_two() {
    let (r, out) = evaluate(&print(bin(lit_int(1), BinaryOp::Add, lit_int(2))));
    assert!(matches!(r, Ok(Val::Void)));
    assert_eq!(out, "3");
}

#[test]
fn print_bound_variable() {
    let (r, out) = evaluate(&let_in("x", lit_int(10), print(var("x"))));
    assert!(matches!(r, Ok(Val::Void)));
    assert_eq!(out, "10");
}

#[test]
fn prints_concatenate_without_separator() {
    let t = let_in("_", print(lit_int(1)), print(lit_str("a")));
    assert_eq!(evaluate(&t).1, "1a");
}

#[test]
fn add_ints_commutes_on_values() {
    expect_int(bin(lit_int(7), BinaryOp::Add, lit_int(-3)), 4);
    expect_int(bin(lit_int(-3), BinaryOp::Add, lit_int(7)), 4);
}

#[test]
fn add_wraps_around() {
    expect_int(bin(lit_int(i32::MAX), BinaryOp::Add, lit_int(1)), i32::MIN);
    expect_int(bin(lit_int(i32::MIN), BinaryOp::Sub, lit_int(1)), i32::MAX);
}

#[test]
fn add_string_and_int_keeps_order() {
    expect_str(bin(lit_str("a"), BinaryOp::Add, lit_int(1)), "a1");
    expect_str(bin(lit_int(1), BinaryOp::Add, lit_str("a")), "1a");
    expect_str(bin(lit_int(-5), BinaryOp::Add, lit_str("x")), "-5x");
    expect_str(bin(lit_str("ab"), BinaryOp::Add, lit_str("cd")), "abcd");
}

#[test]
fn add_bool_is_type_mismatch() {
    expect_err(bin(lit_bool(true), BinaryOp::Add, lit_int(1)), EvalError::TypeMismatch);
    expect_err(bin(lit_str("a"), BinaryOp::Add, lit_bool(false)), EvalError::TypeMismatch);
}

#[test]
fn subtract_and_less_than() {
    expect_int(bin(lit_int(10), BinaryOp::Sub, lit_int(4)), 6);
    assert!(matches!(evaluate(&bin(lit_int(1), BinaryOp::Lt, lit_int(2))).0, Ok(Val::Bool(true))));
    assert!(matches!(evaluate(&bin(lit_int(2), BinaryOp::Lt, lit_int(2))).0, Ok(Val::Bool(false))));
    expect_err(bin(lit_str("a"), BinaryOp::Sub, lit_int(1)), EvalError::TypeMismatch);
    expect_err(bin(lit_int(1), BinaryOp::Lt, lit_str("a")), EvalError::TypeMismatch);
}

#[test]
fn both_sides_evaluated_left_first() {
    let t = bin(print(lit_str("L")), BinaryOp::Lt, print(lit_str("R")));
    let (r, out) = evaluate(&t);
    assert_eq!(out, "LR");
    assert!(matches!(r, Err(EvalError::TypeMismatch)));
}

#[test]
fn conditional_branches_on_condition() {
    expect_int(cond(lit_bool(true), lit_int(1), lit_int(2)), 1);
    expect_int(cond(lit_bool(false), lit_int(1), lit_int(2)), 2);
    let (_, out) = evaluate(&cond(lit_bool(false), print(lit_str("then")), print(lit_str("else"))));
    assert_eq!(out, "else");
}

#[test]
fn conditional_non_bool_is_type_mismatch() {
    expect_err(cond(lit_int(1), lit_int(1), lit_int(2)), EvalError::TypeMismatch);
    expect_err(cond(lit_str("true"), lit_int(1), lit_int(2)), EvalError::TypeMismatch);
}

#[test]
fn rebinding_shadows_later_references() {
    expect_int(let_in("x", lit_int(1), let_in("x", lit_int(2), var("x"))), 2);
}

#[test]
fn closure_keeps_value_from_before_rebinding() {
    let t = let_in(
        "x",
        lit_int(1),
        let_in("f", func(&[], var("x")), let_in("x", lit_int(2), call(var("f"), vec![]))),
    );
    expect_int(t, 1);
}

#[test]
fn fibonacci_small_values() {
    expect_int(fib_program(0), 0);
    expect_int(fib_program(1), 1);
    expect_int(fib_program(10), 55);
}

#[test]
fn arguments_evaluated_in_caller_scope() {
    let t = let_in(
        "f",
        func(&["y"], bin(var("y"), BinaryOp::Add, lit_int(1))),
        let_in("z", lit_int(41), call(var("f"), vec![var("z")])),
    );
    expect_int(t, 42);
}

#[test]
fn unbound_variable() {
    expect_err(var("nope"), EvalError::UnboundVariable);
    let t = let_in("f", func(&[], var("later")), let_in("later", lit_int(1), call(var("f"), vec![])));
    expect_err(t, EvalError::UnboundVariable);
}

#[test]
fn print_void_is_invalid() {
    expect_err(print(print(lit_int(1))), EvalError::InvalidPrint);
    let (_, out) = evaluate(&print(print(lit_int(1))));
    assert_eq!(out, "1");
}

#[test]
fn print_closure_is_invalid() {
    expect_err(print(func(&[], lit_int(1))), EvalError::InvalidPrint);
}

#[test]
fn calling_non_function() {
    expect_err(call(lit_int(3), vec![]), EvalError::NotCallable);
}

#[test]
fn wrong_argument_count() {
    expect_err(call(func(&["a", "b"], var("a")), vec![lit_int(1)]), EvalError::ArityMismatch);
    expect_err(call(func(&[], lit_int(0)), vec![lit_int(1)]), EvalError::ArityMismatch);
}

#[test]
fn runaway_recursion_hits_depth_limit() {
    let t = let_in("f", func(&[], call(var("f"), vec![])), call(var("f"), vec![]));
    expect_err(t, EvalError::DepthExceeded);
}

#[test]
fn run_evaluates_program_expression() {
    let file = File { name: "fib".to_string(), expression: print(fib_program(10)) };
    let (r, out) = run(&file);
    assert!(matches!(r, Ok(Val::Void)));
    assert_eq!(out, "55");
}
