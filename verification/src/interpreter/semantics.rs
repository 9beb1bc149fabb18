//! What evaluation means.
//!
//! The value of a term is defined by recursion on the term, as a function of
//! the term, the environment and the host's arithmetic. The recursion is
//! bounded by a number of nested evaluations, its fuel, since a term need not
//! have a value.

use vstd::prelude::*;
use crate::ast::{ArithmeticOp, ComparisonOp, Term};
use crate::interpreter::error::Failure;
use crate::interpreter::machine::{
    boolean_kind, closure_kind, number_kind, offender, pending, step_spec, type_error,
    ControlModel, Event, Request, State,
};
use crate::interpreter::value::{Number, Value};

verus! {

/// The arithmetic of a host: the number of each numeral, and the result of
/// each operation and comparison on two numbers.
pub struct Host {
    pub literal: spec_fn(Seq<char>) -> Number,
    pub arithmetic: spec_fn(ArithmeticOp, Number, Number) -> Number,
    pub comparison: spec_fn(ComparisonOp, Number, Number) -> bool,
}

/// The result of an arithmetic operation on two values: both must be numbers.
pub open spec fn operate(host: Host, operation: ArithmeticOp, lhs: Value, rhs: Value) -> Result<
    Value,
    Failure,
> {
    if lhs is Number && rhs is Number {
        Ok(Value::Number((host.arithmetic)(operation, lhs->Number_0, rhs->Number_0)))
    } else {
        Err(type_error(number_kind(), offender(lhs, rhs)))
    }
}

/// The result of a comparison of two values: both must be numbers.
pub open spec fn compare(host: Host, operation: ComparisonOp, lhs: Value, rhs: Value) -> Result<
    Value,
    Failure,
> {
    if lhs is Number && rhs is Number {
        Ok(Value::Boolean((host.comparison)(operation, lhs->Number_0, rhs->Number_0)))
    } else {
        Err(type_error(number_kind(), offender(lhs, rhs)))
    }
}

/// The result of evaluating `term` in `env`, if `fuel` nested evaluations are
/// enough to find it.
///
/// An abstraction is a closure that holds `env`. Of an application the
/// argument is evaluated before the function, which must be a closure: its
/// body is evaluated in the environment that it holds, with the parameter
/// bound to the argument. Of an operation and of a comparison the left
/// operand is evaluated before the right, and both must be numbers. The
/// condition of a conditional must be a boolean, and one branch is evaluated.
/// A variable has the value that `env` gives it, and fails where it gives
/// none. The first failure is the result.
pub open spec fn eval_spec(host: Host, term: Term, env: Map<Seq<char>, Value>, fuel: nat) -> Option<
    Result<Value, Failure>,
>
    decreases fuel,
{
    if fuel == 0 {
        None
    } else {
        let fuel = (fuel - 1) as nat;
        match term {
            Term::Abs { var, body } => Some(Ok(Value::Closure { var, body: *body, context: env })),
            Term::App { function, parameter } => match eval_spec(host, *parameter, env, fuel) {
                Some(Ok(argument)) => match eval_spec(host, *function, env, fuel) {
                    Some(Ok(Value::Closure { var, body, context })) => eval_spec(
                        host,
                        body,
                        context.insert(var, argument),
                        fuel,
                    ),
                    Some(Ok(other)) => Some(Err(type_error(closure_kind(), other))),
                    other => other,
                },
                other => other,
            },
            Term::Arithmetic { operation, lhs, rhs } => match eval_spec(host, *lhs, env, fuel) {
                Some(Ok(left)) => match eval_spec(host, *rhs, env, fuel) {
                    Some(Ok(right)) => Some(operate(host, operation, left, right)),
                    other => other,
                },
                other => other,
            },
            Term::Comparison { operation, lhs, rhs } => match eval_spec(host, *lhs, env, fuel) {
                Some(Ok(left)) => match eval_spec(host, *rhs, env, fuel) {
                    Some(Ok(right)) => Some(compare(host, operation, left, right)),
                    other => other,
                },
                other => other,
            },
            Term::Conditional { condition, true_branch, false_branch } => match eval_spec(
                host,
                *condition,
                env,
                fuel,
            ) {
                Some(Ok(Value::Boolean(b))) => eval_spec(
                    host,
                    if b {
                        *true_branch
                    } else {
                        *false_branch
                    },
                    env,
                    fuel,
                ),
                Some(Ok(other)) => Some(Err(type_error(boolean_kind(), other))),
                other => other,
            },
            Term::Var { name } => Some(
                if env.contains_key(name) {
                    Ok(env[name])
                } else {
                    Err(Failure::NameError { name })
                },
            ),
            Term::NumericLiteral { value } => Some(Ok(Value::Number((host.literal)(value)))),
            Term::BooleanLiteral { value } => Some(Ok(Value::Boolean(value))),
        }
    }
}

/// The event with which the host answers a request.
pub open spec fn answer(host: Host, request: Request) -> Event {
    match request {
        Request::Literal { numeral } => Event::Number((host.literal)(numeral)),
        Request::Arithmetic { operation, lhs, rhs } => Event::Number(
            (host.arithmetic)(operation, lhs, rhs),
        ),
        Request::Comparison { operation, lhs, rhs } => Event::Boolean(
            (host.comparison)(operation, lhs, rhs),
        ),
        _ => Event::Resume,
    }
}

/// One turn of the host's loop: the host answers what the machine asks for,
/// and the machine takes a step.
pub open spec fn drive(host: Host, at: State) -> State {
    step_spec(at, answer(host, pending(at)))
}

/// `n` turns of the host's loop.
pub open spec fn run(host: Host, at: State, n: nat) -> State
    decreases n,
{
    if n == 0 {
        at
    } else {
        run(host, drive(host, at), (n - 1) as nat)
    }
}

/// The machine has finished with `result`.
pub open spec fn finished(at: State, result: Result<Value, Failure>) -> bool {
    at.control == (ControlModel::Halted { result })
}

} // verus!
