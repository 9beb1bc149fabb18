//! Values and environments.

use vstd::prelude::*;
use std::rc::Rc;
use crate::ast::{Expr, Term};

verus! {

/// A double-precision number, carried by its bit pattern. The library hands
/// numbers on and never looks inside one: the host does the arithmetic.
#[derive(Debug, Clone, Copy, PartialEq, Eq, Structural)]
pub struct Number {
    pub bits: u64,
}

/// What an expression evaluates to.
#[derive(Debug, PartialEq)]
pub enum EvalResult {
    Value(Number),
    Boolean(bool),
    /// A function with the environment in which its abstraction was evaluated.
    Closure { var: String, body: Rc<Expr>, context: Env },
}

/// A mapping from names to values that is never changed: binding a name gives
/// a new environment and leaves the old one, and every closure that holds it,
/// as it was.
#[derive(Debug, PartialEq)]
pub enum Env {
    Empty,
    Bound(Rc<Binding>),
}

/// A name with its value, on top of the environment that it extends.
#[derive(Debug, PartialEq)]
pub struct Binding {
    pub name: String,
    pub value: EvalResult,
    pub rest: Env,
}

/// The mathematical model of a value. A closure holds the term of its body
/// and the mapping that it captured.
pub enum Value {
    Number(Number),
    Boolean(bool),
    Closure { var: Seq<char>, body: Term, context: Map<Seq<char>, Value> },
}

impl EvalResult {
    /// The value that this result stands for.
    pub open spec fn model(&self) -> Value
        decreases self,
    {
        match self {
            EvalResult::Value(number) => Value::Number(*number),
            EvalResult::Boolean(b) => Value::Boolean(*b),
            EvalResult::Closure { var, body, context } => Value::Closure {
                var: var@,
                body: body.term(),
                context: context.model(),
            },
        }
    }
}

impl Env {
    /// The mapping that this environment stands for.
    pub open spec fn model(&self) -> Map<Seq<char>, Value>
        decreases self,
    {
        match self {
            Env::Empty => Map::empty(),
            Env::Bound(binding) => binding.rest.model().insert(
                binding.name@,
                binding.value.model(),
            ),
        }
    }
}

impl View for EvalResult {
    type V = Value;

    open spec fn view(&self) -> Value {
        self.model()
    }
}

impl View for Env {
    type V = Map<Seq<char>, Value>;

    open spec fn view(&self) -> Map<Seq<char>, Value> {
        self.model()
    }
}

impl Clone for Env {
    fn clone(&self) -> (r: Self)
        ensures
            r == *self,
    {
        match self {
            Env::Empty => Env::Empty,
            Env::Bound(binding) => Env::Bound(binding.clone()),
        }
    }
}

impl Clone for EvalResult {
    fn clone(&self) -> (r: Self)
        ensures
            r == *self,
    {
        match self {
            EvalResult::Value(number) => EvalResult::Value(*number),
            EvalResult::Boolean(b) => EvalResult::Boolean(*b),
            EvalResult::Closure { var, body, context } => EvalResult::Closure {
                var: var.clone(),
                body: body.clone(),
                context: context.clone(),
            },
        }
    }
}

impl Number {
    pub fn from_bits(bits: u64) -> (r: Self)
        ensures
            r.bits == bits,
    {
        Number { bits }
    }

    pub fn to_bits(&self) -> (r: u64)
        ensures
            r == self.bits,
    {
        self.bits
    }
}

impl Env {
    /// The environment that binds nothing.
    pub fn new() -> (r: Self)
        ensures
            r@ == Map::<Seq<char>, Value>::empty(),
    {
        Env::Empty
    }

    /// This environment with `name` bound to `value`; a binding that the name
    /// had is hidden.
    pub fn extend(&self, name: String, value: EvalResult) -> (r: Self)
        ensures
            r@ == self@.insert(name@, value@),
    {
        Env::Bound(Rc::new(Binding { name, value, rest: self.clone() }))
    }

    /// The value that `name` is bound to, if it is bound.
    pub fn get(&self, name: &str) -> (r: Option<EvalResult>)
        ensures
            match r {
                Some(value) => self@.contains_key(name@) && self@[name@] == value@,
                None => !self@.contains_key(name@),
            },
        decreases self,
    {
        match self {
            Env::Empty => None,
            Env::Bound(binding) => {
                if *binding.name.as_str() == *name {
                    Some(binding.value.clone())
                } else {
                    binding.rest.get(name)
                }
            },
        }
    }
}

impl EvalResult {
    /// The text that stands for the value where it is printed: `true` or
    /// `false` for a boolean, `Closure` for a closure, and none for a number,
    /// which the host prints as the double that it is.
    pub fn text(&self) -> (r: Option<&'static str>)
        ensures
            match r {
                Some(text) => text_of(self@) == Some(text@),
                None => text_of(self@) is None,
            },
    {
        match self {
            EvalResult::Value(_) => None,
            EvalResult::Boolean(true) => Some("true"),
            EvalResult::Boolean(false) => Some("false"),
            EvalResult::Closure { .. } => Some("Closure"),
        }
    }

    /// The name of the kind of value: `Number`, `Boolean` or `Closure`.
    pub fn kind(&self) -> (r: &'static str)
        ensures
            r@ == kind_of(self@),
    {
        proof {
            reveal_strlit("Number");
            reveal_strlit("Boolean");
            reveal_strlit("Closure");
            assert("Number"@ =~= kind_of(Value::Number(Number { bits: 0 })));
            assert("Boolean"@ =~= kind_of(Value::Boolean(true)));
        }
        match self {
            EvalResult::Value(_) => "Number",
            EvalResult::Boolean(_) => "Boolean",
            EvalResult::Closure { .. } => {
                assert("Closure"@ =~= seq!['C', 'l', 'o', 's', 'u', 'r', 'e']);
                "Closure"
            },
        }
    }
}

/// The text of a value that is no number: a number is printed by the host.
pub open spec fn text_of(value: Value) -> Option<Seq<char>> {
    match value {
        Value::Number(_) => None,
        Value::Boolean(b) => Some(
            if b {
                "true"@
            } else {
                "false"@
            },
        ),
        Value::Closure { .. } => Some("Closure"@),
    }
}

/// The name of the kind of a value.
pub open spec fn kind_of(value: Value) -> Seq<char> {
    match value {
        Value::Number(_) => seq!['N', 'u', 'm', 'b', 'e', 'r'],
        Value::Boolean(_) => seq!['B', 'o', 'o', 'l', 'e', 'a', 'n'],
        Value::Closure { .. } => seq!['C', 'l', 'o', 's', 'u', 'r', 'e'],
    }
}

} // verus!
