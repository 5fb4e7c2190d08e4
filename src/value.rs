//! Runtime values and the environment that maps names to them.
use vstd::prelude::*;
use crate::ast::{Ast, Parameter, Term, clone_params, clone_term, names_of};

verus! {

/// The mathematical model of a runtime value.
pub enum Value {
    Void,
    Int(i32),
    Bool(bool),
    Str(Seq<char>),
    /// A function together with the scope it was created in. `name`, when present,
    /// is the name a binding gave it, through which its body may call it again.
    Closure {
        params: Seq<Seq<char>>,
        body: Ast,
        env: Map<Seq<char>, Value>,
        name: Option<Seq<char>>,
    },
}

/// A runtime value.
pub enum Val {
    Void,
    Int(i32),
    Bool(bool),
    Str(String),
    Closure { body: Term, params: Vec<Parameter>, env: Scope, name: Option<String> },
}

/// An environment: a chain of bindings, the most recent first. A later binding of
/// a name hides every earlier one, so the chain stands for a map from names to
/// values. Scopes are values: binding a name yields a new scope and leaves the
/// old one as it was.
pub enum Scope {
    Empty,
    Bind(String, Box<Val>, Box<Scope>),
}

impl Val {
    pub open spec fn view_at(&self) -> Value
        decreases self,
    {
        match self {
            Val::Void => Value::Void,
            Val::Int(n) => Value::Int(*n),
            Val::Bool(b) => Value::Bool(*b),
            Val::Str(s) => Value::Str(s@),
            Val::Closure { body, params, env, name } => Value::Closure {
                params: names_of(params@),
                body: body@,
                env: env.view_at(),
                name: match name {
                    Some(n) => Some(n@),
                    None => None,
                },
            },
        }
    }
}

impl Scope {
    pub open spec fn view_at(&self) -> Map<Seq<char>, Value>
        decreases self,
    {
        match self {
            Scope::Empty => Map::empty(),
            Scope::Bind(n, v, rest) => rest.view_at().insert(n@, v.view_at()),
        }
    }
}

impl View for Val {
    type V = Value;

    open spec fn view(&self) -> Value {
        self.view_at()
    }
}

impl View for Scope {
    type V = Map<Seq<char>, Value>;

    open spec fn view(&self) -> Map<Seq<char>, Value> {
        self.view_at()
    }
}

/// Copies a value.
pub fn clone_val(v: &Val) -> (r: Val)
    ensures
        r@ == v@,
    decreases v,
{
    match v {
        Val::Void => Val::Void,
        Val::Int(n) => Val::Int(*n),
        Val::Bool(b) => Val::Bool(*b),
        Val::Str(s) => Val::Str(s.clone()),
        Val::Closure { body, params, env, name } => Val::Closure {
            body: clone_term(body),
            params: clone_params(params),
            env: env.snapshot(),
            name: match name {
                Some(n) => Some(n.clone()),
                None => None,
            },
        },
    }
}

impl Scope {
    /// The scope with no bindings.
    pub fn new() -> (r: Scope)
        ensures
            r@ == Map::<Seq<char>, Value>::empty(),
    {
        Scope::Empty
    }

    /// An independent copy of this scope.
    pub fn snapshot(&self) -> (r: Scope)
        ensures
            r@ == self@,
        decreases self,
    {
        match self {
            Scope::Empty => Scope::Empty,
            Scope::Bind(n, v, rest) => Scope::Bind(
                n.clone(),
                Box::new(clone_val(v)),
                Box::new(rest.snapshot()),
            ),
        }
    }

    /// This scope with `name` bound to `value`, hiding any earlier binding of `name`.
    pub fn bind(self, name: String, value: Val) -> (r: Scope)
        ensures
            r@ == self@.insert(name@, value@),
    {
        Scope::Bind(name, Box::new(value), Box::new(self))
    }

    /// A copy of the value bound to `name`, if there is one.
    pub fn lookup(&self, name: &String) -> (r: Option<Val>)
        ensures
            r.is_some() == self@.contains_key(name@),
            r.is_some() ==> r.unwrap()@ == self@[name@],
        decreases self,
    {
        match self {
            Scope::Empty => None,
            Scope::Bind(n, v, rest) => {
                if *n == *name {
                    Some(clone_val(v))
                } else {
                    rest.lookup(name)
                }
            },
        }
    }
}

} // verus!
