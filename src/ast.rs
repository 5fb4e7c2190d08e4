//! The syntax tree of a program: immutable, tree-shaped, each node owning its children.
use vstd::prelude::*;

verus! {

broadcast use vstd::std_specs::vec::group_vec_axioms;

/// A name as it appears in a binding or in a function's parameter list.
pub struct Parameter {
    pub text: String,
}

/// An integer literal.
pub struct Int {
    pub value: i32,
}

/// A string literal.
pub struct Str {
    pub value: String,
}

/// A boolean literal.
pub struct Bool {
    pub value: bool,
}

/// Writes the rendering of its operand to the output.
pub struct Print {
    pub value: Box<Term>,
}

/// A binary operation; both sides are always evaluated, left first.
pub struct Binary {
    pub lhs: Box<Term>,
    pub op: BinaryOp,
    pub rhs: Box<Term>,
}

/// A conditional: `condition` must evaluate to a boolean.
pub struct If {
    pub condition: Box<Term>,
    pub then_branch: Box<Term>,
    pub otherwise: Box<Term>,
}

/// `let name = value; next`.
pub struct Let {
    pub name: Parameter,
    pub value: Box<Term>,
    pub next: Box<Term>,
}

/// A function literal, evaluating to a closure.
pub struct Function {
    pub parameters: Vec<Parameter>,
    pub value: Box<Term>,
}

/// A call of `callee` on `arguments`.
pub struct Call {
    pub callee: Box<Term>,
    pub arguments: Vec<Term>,
}

/// A reference to a variable in scope.
pub struct Var {
    pub text: String,
}

#[derive(Debug, Clone, Copy, PartialEq, Eq, Structural)]
pub enum BinaryOp {
    Add,
    Sub,
    Lt,
}

/// A node of the syntax tree.
pub enum Term {
    Int(Int),
    Str(Str),
    Print(Print),
    Binary(Binary),
    Bool(Bool),
    If(If),
    Let(Let),
    Var(Var),
    Function(Function),
    Call(Call),
}

/// A whole program: its name (not used by evaluation) and its root expression.
pub struct File {
    pub name: String,
    pub expression: Term,
}

/// The mathematical model of a syntax tree: names are character sequences.
pub enum Ast {
    Int(i32),
    Str(Seq<char>),
    Bool(bool),
    Print(Box<Ast>),
    Binary(Box<Ast>, BinaryOp, Box<Ast>),
    If(Box<Ast>, Box<Ast>, Box<Ast>),
    Let(Seq<char>, Box<Ast>, Box<Ast>),
    Var(Seq<char>),
    Function(Seq<Seq<char>>, Box<Ast>),
    Call(Box<Ast>, Seq<Ast>),
}

/// The names of a parameter list.
pub open spec fn names_of(ps: Seq<Parameter>) -> Seq<Seq<char>> {
    ps.map_values(|p: Parameter| p.text@)
}

/// The models of the first `n` terms of `ts`.
pub open spec fn views_of(ts: Seq<Term>, n: nat) -> Seq<Ast>
    decreases ts, n,
{
    if n == 0 || n > ts.len() {
        Seq::empty()
    } else {
        views_of(ts, (n - 1) as nat).push(ts[n - 1].view_at())
    }
}

impl Term {
    /// The model of this term.
    pub open spec fn view_at(&self) -> Ast
        decreases self, 0nat,
    {
        match self {
            Term::Int(n) => Ast::Int(n.value),
            Term::Str(s) => Ast::Str(s.value@),
            Term::Bool(b) => Ast::Bool(b.value),
            Term::Print(p) => Ast::Print(Box::new(p.value.view_at())),
            Term::Binary(b) => Ast::Binary(Box::new(b.lhs.view_at()), b.op, Box::new(b.rhs.view_at())),
            Term::If(i) => Ast::If(
                Box::new(i.condition.view_at()),
                Box::new(i.then_branch.view_at()),
                Box::new(i.otherwise.view_at()),
            ),
            Term::Let(l) => Ast::Let(l.name.text@, Box::new(l.value.view_at()), Box::new(l.next.view_at())),
            Term::Var(v) => Ast::Var(v.text@),
            Term::Function(f) => Ast::Function(names_of(f.parameters@), Box::new(f.value.view_at())),
            Term::Call(c) => Ast::Call(
                Box::new(c.callee.view_at()),
                views_of(c.arguments@, c.arguments@.len()),
            ),
        }
    }
}

impl View for Term {
    type V = Ast;

    open spec fn view(&self) -> Ast {
        self.view_at()
    }
}

/// Copies a list of parameters.
pub fn clone_params(ps: &Vec<Parameter>) -> (r: Vec<Parameter>)
    ensures
        names_of(r@) == names_of(ps@),
{
    let mut r: Vec<Parameter> = Vec::new();
    let mut i: usize = 0;
    while i < ps.len()
        invariant
            i <= ps@.len(),
            r@ == ps@.subrange(0, i as int),
        decreases ps@.len() - i,
    {
        r.push(Parameter { text: ps[i].text.clone() });
        i += 1;
    }
    assert(r@ =~= ps@);
    r
}

/// Copies a syntax tree.
pub fn clone_term(t: &Term) -> (r: Term)
    ensures
        r@ == t@,
    decreases t,
{
    match t {
        Term::Int(n) => Term::Int(Int { value: n.value }),
        Term::Str(s) => Term::Str(Str { value: s.value.clone() }),
        Term::Bool(b) => Term::Bool(Bool { value: b.value }),
        Term::Print(p) => Term::Print(Print { value: Box::new(clone_term(&p.value)) }),
        Term::Binary(b) => Term::Binary(
            Binary {
                lhs: Box::new(clone_term(&b.lhs)),
                op: b.op,
                rhs: Box::new(clone_term(&b.rhs)),
            },
        ),
        Term::If(i) => Term::If(
            If {
                condition: Box::new(clone_term(&i.condition)),
                then_branch: Box::new(clone_term(&i.then_branch)),
                otherwise: Box::new(clone_term(&i.otherwise)),
            },
        ),
        Term::Let(l) => Term::Let(
            Let {
                name: Parameter { text: l.name.text.clone() },
                value: Box::new(clone_term(&l.value)),
                next: Box::new(clone_term(&l.next)),
            },
        ),
        Term::Var(v) => Term::Var(Var { text: v.text.clone() }),
        Term::Function(f) => Term::Function(
            Function { parameters: clone_params(&f.parameters), value: Box::new(clone_term(&f.value)) },
        ),
        Term::Call(c) => {
            let callee = clone_term(&c.callee);
            let mut args: Vec<Term> = Vec::new();
            let mut i: usize = 0;
            while i < c.arguments.len()
                invariant
                    *t == Term::Call(*c),
                    i <= c.arguments@.len(),
                    args@.len() == i,
                    views_of(args@, i as nat) == views_of(c.arguments@, i as nat),
                decreases c.arguments@.len() - i,
            {
                proof {
                    assert(decreases_to!(*t => t->Call_0));
                    assert(decreases_to!(t->Call_0 => t->Call_0.arguments));
                    assert(decreases_to!(c.arguments => c.arguments[i as int]));
                }
                let a = clone_term(&c.arguments[i]);
                let ghost before = args@;
                args.push(a);
                proof {
                    lemma_views_of_prefix(before, args@, i as nat);
                }
                i += 1;
            }
            Term::Call(Call { callee: Box::new(callee), arguments: args })
        },
    }
}

/// `views_of` reads only the first `n` terms.
proof fn lemma_views_of_prefix(a: Seq<Term>, b: Seq<Term>, n: nat)
    requires
        n <= a.len(),
        n <= b.len(),
        forall|k: int| 0 <= k < n ==> a[k] == b[k],
    ensures
        views_of(a, n) == views_of(b, n),
    decreases n,
{
    if n > 0 {
        lemma_views_of_prefix(a, b, (n - 1) as nat);
    }
}

} // verus!
