//! The evaluation machine.
//!
//! Evaluation is a sequence of steps. A step looks at the state, decides
//! what comes next, and says what it needs from the host: nothing, the number
//! that a numeral denotes, the result of an arithmetic operation or of a
//! comparison on two numbers. The host runs the loop: it does what the step
//! asked for and hands the answer to the next step, until a step says that
//! evaluation has finished, with a value or with an error.
//!
//! The state holds what is being worked on, and a stack of frames, each of
//! which is the rest of an expression whose part is being evaluated.

use vstd::prelude::*;
use std::rc::Rc;
use crate::ast::{ArithmeticOp, ComparisonOp, Expr, Term};
use crate::interpreter::error::{Failure, InterpreterError};
use crate::interpreter::value::{kind_of, Env, EvalResult, Number, Value};
use crate::numeral::Numeral;

verus! {

/// The rest of an expression whose part is being evaluated.
#[derive(Debug)]
#[allow(inconsistent_fields)]
pub enum Frame {
    /// An application whose argument is being evaluated; its function and
    /// the environment for it wait.
    Argument { function: Rc<Expr>, env: Env },
    /// An application whose function is being evaluated; the value of its
    /// argument waits.
    Function { parameter: EvalResult },
    /// An arithmetic operation whose left operand is being evaluated.
    ArithmeticLeft { operation: ArithmeticOp, rhs: Rc<Expr>, env: Env },
    /// An arithmetic operation whose right operand is being evaluated.
    ArithmeticRight { operation: ArithmeticOp, lhs: EvalResult },
    /// A comparison whose left operand is being evaluated.
    ComparisonLeft { operation: ComparisonOp, rhs: Rc<Expr>, env: Env },
    /// A comparison whose right operand is being evaluated.
    ComparisonRight { operation: ComparisonOp, lhs: EvalResult },
    /// A conditional whose condition is being evaluated.
    Condition { true_branch: Rc<Expr>, false_branch: Rc<Expr>, env: Env },
}

/// What the machine is working on.
#[derive(Debug)]
#[allow(inconsistent_fields)]
pub enum Control {
    /// An expression to evaluate in an environment.
    Evaluate { expr: Rc<Expr>, env: Env },
    /// A value to hand to the frame on top of the stack.
    Return { value: EvalResult },
    /// The host owes the number that the numeral denotes.
    Literal { numeral: Numeral },
    /// The host owes the result of the operation on the two numbers.
    Arithmetic { operation: ArithmeticOp, lhs: Number, rhs: Number },
    /// The host owes the result of the comparison of the two numbers.
    Comparison { operation: ComparisonOp, lhs: Number, rhs: Number },
    /// Evaluation has finished with this result.
    Halted { result: Result<EvalResult, InterpreterError> },
}

/// The state of an evaluation.
#[derive(Debug)]
pub struct Machine {
    control: Control,
    stack: Vec<Frame>,
}

/// What the host hands to a step.
#[derive(Debug, Clone, Copy, PartialEq, Eq, Structural)]
pub enum Event {
    /// Nothing: nothing was asked for.
    Resume,
    /// The number that was asked for.
    Number(Number),
    /// The boolean that was asked for.
    Boolean(bool),
}

/// What a machine asks of the host before its next step.
#[derive(Debug, PartialEq)]
#[allow(inconsistent_fields)]
pub enum Action {
    /// Nothing: the next step takes `Event::Resume`.
    Continue,
    /// The number that the numeral denotes.
    Literal { numeral: Numeral },
    /// The result of the operation on the two numbers.
    Arithmetic { operation: ArithmeticOp, lhs: Number, rhs: Number },
    /// The result of the comparison of the two numbers.
    Comparison { operation: ComparisonOp, lhs: Number, rhs: Number },
    /// Nothing more: evaluation has finished with this result.
    Finished { result: Result<EvalResult, InterpreterError> },
}

/// The model of a frame.
#[allow(inconsistent_fields)]
pub enum FrameModel {
    Argument { function: Term, env: Map<Seq<char>, Value> },
    Function { parameter: Value },
    ArithmeticLeft { operation: ArithmeticOp, rhs: Term, env: Map<Seq<char>, Value> },
    ArithmeticRight { operation: ArithmeticOp, lhs: Value },
    ComparisonLeft { operation: ComparisonOp, rhs: Term, env: Map<Seq<char>, Value> },
    ComparisonRight { operation: ComparisonOp, lhs: Value },
    Condition { true_branch: Term, false_branch: Term, env: Map<Seq<char>, Value> },
}

/// The model of what the machine is working on.
#[allow(inconsistent_fields)]
pub enum ControlModel {
    Evaluate { term: Term, env: Map<Seq<char>, Value> },
    Return { value: Value },
    Literal { numeral: Seq<char> },
    Arithmetic { operation: ArithmeticOp, lhs: Number, rhs: Number },
    Comparison { operation: ComparisonOp, lhs: Number, rhs: Number },
    Halted { result: Result<Value, Failure> },
}

/// The model of a machine. The top of the stack is its last frame.
pub struct State {
    pub control: ControlModel,
    pub stack: Seq<FrameModel>,
}

/// The model of an action.
#[allow(inconsistent_fields)]
pub enum Request {
    Continue,
    Literal { numeral: Seq<char> },
    Arithmetic { operation: ArithmeticOp, lhs: Number, rhs: Number },
    Comparison { operation: ComparisonOp, lhs: Number, rhs: Number },
    Finished { result: Result<Value, Failure> },
}

/// The model of a result.
pub open spec fn outcome(result: Result<EvalResult, InterpreterError>) -> Result<Value, Failure> {
    match result {
        Ok(value) => Ok(value@),
        Err(error) => Err(error@),
    }
}

impl View for Frame {
    type V = FrameModel;

    open spec fn view(&self) -> FrameModel {
        match self {
            Frame::Argument { function, env } => FrameModel::Argument {
                function: function.term(),
                env: env@,
            },
            Frame::Function { parameter } => FrameModel::Function { parameter: parameter@ },
            Frame::ArithmeticLeft { operation, rhs, env } => FrameModel::ArithmeticLeft {
                operation: *operation,
                rhs: rhs.term(),
                env: env@,
            },
            Frame::ArithmeticRight { operation, lhs } => FrameModel::ArithmeticRight {
                operation: *operation,
                lhs: lhs@,
            },
            Frame::ComparisonLeft { operation, rhs, env } => FrameModel::ComparisonLeft {
                operation: *operation,
                rhs: rhs.term(),
                env: env@,
            },
            Frame::ComparisonRight { operation, lhs } => FrameModel::ComparisonRight {
                operation: *operation,
                lhs: lhs@,
            },
            Frame::Condition { true_branch, false_branch, env } => FrameModel::Condition {
                true_branch: true_branch.term(),
                false_branch: false_branch.term(),
                env: env@,
            },
        }
    }
}

impl View for Control {
    type V = ControlModel;

    open spec fn view(&self) -> ControlModel {
        match self {
            Control::Evaluate { expr, env } => ControlModel::Evaluate {
                term: expr.term(),
                env: env@,
            },
            Control::Return { value } => ControlModel::Return { value: value@ },
            Control::Literal { numeral } => ControlModel::Literal { numeral: numeral@ },
            Control::Arithmetic { operation, lhs, rhs } => ControlModel::Arithmetic {
                operation: *operation,
                lhs: *lhs,
                rhs: *rhs,
            },
            Control::Comparison { operation, lhs, rhs } => ControlModel::Comparison {
                operation: *operation,
                lhs: *lhs,
                rhs: *rhs,
            },
            Control::Halted { result } => ControlModel::Halted { result: outcome(*result) },
        }
    }
}

impl View for Machine {
    type V = State;

    closed spec fn view(&self) -> State {
        State { control: self.control@, stack: self.stack@.map_values(|frame: Frame| frame@) }
    }
}

impl View for Action {
    type V = Request;

    open spec fn view(&self) -> Request {
        match self {
            Action::Continue => Request::Continue,
            Action::Literal { numeral } => Request::Literal { numeral: numeral@ },
            Action::Arithmetic { operation, lhs, rhs } => Request::Arithmetic {
                operation: *operation,
                lhs: *lhs,
                rhs: *rhs,
            },
            Action::Comparison { operation, lhs, rhs } => Request::Comparison {
                operation: *operation,
                lhs: *lhs,
                rhs: *rhs,
            },
            Action::Finished { result } => Request::Finished { result: outcome(*result) },
        }
    }
}

/// The state in which evaluation of `term` begins: nothing is bound, and
/// nothing waits.
pub open spec fn initial(term: Term) -> State {
    State { control: ControlModel::Evaluate { term, env: Map::empty() }, stack: Seq::empty() }
}

/// What a machine in this state asks of the host: the number or the boolean
/// that it waits for, nothing while it is at work, nothing more once it has
/// finished.
pub open spec fn pending(state: State) -> Request {
    match state.control {
        ControlModel::Evaluate { .. } => Request::Continue,
        ControlModel::Return { .. } => Request::Continue,
        ControlModel::Literal { numeral } => Request::Literal { numeral },
        ControlModel::Arithmetic { operation, lhs, rhs } => Request::Arithmetic {
            operation,
            lhs,
            rhs,
        },
        ControlModel::Comparison { operation, lhs, rhs } => Request::Comparison {
            operation,
            lhs,
            rhs,
        },
        ControlModel::Halted { result } => Request::Finished { result },
    }
}

/// The state in which evaluation has failed.
pub open spec fn fail(stack: Seq<FrameModel>, failure: Failure) -> State {
    State { control: ControlModel::Halted { result: Err(failure) }, stack }
}

/// The state that is about to evaluate `term` in `env`, with `stack` waiting.
pub open spec fn evaluating(term: Term, env: Map<Seq<char>, Value>, stack: Seq<FrameModel>) -> State {
    State { control: ControlModel::Evaluate { term, env }, stack }
}

/// The state that is about to hand `value` to `stack`.
pub open spec fn returning(value: Value, stack: Seq<FrameModel>) -> State {
    State { control: ControlModel::Return { value }, stack }
}

/// The step that begins the evaluation of `term` in `env`.
///
/// A literal and an abstraction are values: a numeral is handed to the host,
/// an abstraction captures `env`. A variable is looked up, and fails where
/// nothing binds it. Of an application the argument comes first, of an
/// operation the left operand, of a conditional the condition; what is left
/// of the expression waits in a frame.
pub open spec fn evaluate_spec(
    term: Term,
    env: Map<Seq<char>, Value>,
    stack: Seq<FrameModel>,
) -> State {
    match term {
        Term::Abs { var, body } => returning(
            Value::Closure { var, body: *body, context: env },
            stack,
        ),
        Term::App { function, parameter } => evaluating(
            *parameter,
            env,
            stack.push(FrameModel::Argument { function: *function, env }),
        ),
        Term::Arithmetic { operation, lhs, rhs } => evaluating(
            *lhs,
            env,
            stack.push(FrameModel::ArithmeticLeft { operation, rhs: *rhs, env }),
        ),
        Term::Comparison { operation, lhs, rhs } => evaluating(
            *lhs,
            env,
            stack.push(FrameModel::ComparisonLeft { operation, rhs: *rhs, env }),
        ),
        Term::Conditional { condition, true_branch, false_branch } => evaluating(
            *condition,
            env,
            stack.push(
                FrameModel::Condition {
                    true_branch: *true_branch,
                    false_branch: *false_branch,
                    env,
                },
            ),
        ),
        Term::Var { name } => if env.contains_key(name) {
            returning(env[name], stack)
        } else {
            fail(stack, Failure::NameError { name })
        },
        Term::NumericLiteral { value } => State {
            control: ControlModel::Literal { numeral: value },
            stack,
        },
        Term::BooleanLiteral { value } => returning(Value::Boolean(value), stack),
    }
}

/// The error of a value of the wrong kind.
pub open spec fn type_error(wanted: Seq<char>, given: Value) -> Failure {
    Failure::TypeError { wanted_type: wanted, given_type: kind_of(given) }
}

pub open spec fn number_kind() -> Seq<char> {
    seq!['N', 'u', 'm', 'b', 'e', 'r']
}

pub open spec fn boolean_kind() -> Seq<char> {
    seq!['B', 'o', 'o', 'l', 'e', 'a', 'n']
}

pub open spec fn closure_kind() -> Seq<char> {
    seq!['C', 'l', 'o', 's', 'u', 'r', 'e']
}

/// The operand that is no number: the left one if it is none, else the right.
pub open spec fn offender(lhs: Value, rhs: Value) -> Value {
    if lhs is Number {
        rhs
    } else {
        lhs
    }
}

/// The step that hands `value` to `frame`, which was on top of `stack`.
///
/// The value of an argument waits while the function is evaluated, and the
/// function must then be a closure: its body is evaluated in the environment
/// that it captured, with its parameter bound to the argument. The value of a
/// left operand waits while the right one is evaluated; then both must be
/// numbers, and the host is asked for the result. The value of a condition
/// must be a boolean and picks the branch; the other branch is dropped.
pub open spec fn return_spec(frame: FrameModel, value: Value, stack: Seq<FrameModel>) -> State {
    match frame {
        FrameModel::Argument { function, env } => evaluating(
            function,
            env,
            stack.push(FrameModel::Function { parameter: value }),
        ),
        FrameModel::Function { parameter } => match value {
            Value::Closure { var, body, context } => evaluating(
                body,
                context.insert(var, parameter),
                stack,
            ),
            _ => fail(stack, type_error(closure_kind(), value)),
        },
        FrameModel::ArithmeticLeft { operation, rhs, env } => evaluating(
            rhs,
            env,
            stack.push(FrameModel::ArithmeticRight { operation, lhs: value }),
        ),
        FrameModel::ArithmeticRight { operation, lhs } => if lhs is Number && value is Number {
            State {
                control: ControlModel::Arithmetic {
                    operation,
                    lhs: lhs->Number_0,
                    rhs: value->Number_0,
                },
                stack,
            }
        } else {
            fail(stack, type_error(number_kind(), offender(lhs, value)))
        },
        FrameModel::ComparisonLeft { operation, rhs, env } => evaluating(
            rhs,
            env,
            stack.push(FrameModel::ComparisonRight { operation, lhs: value }),
        ),
        FrameModel::ComparisonRight { operation, lhs } => if lhs is Number && value is Number {
            State {
                control: ControlModel::Comparison {
                    operation,
                    lhs: lhs->Number_0,
                    rhs: value->Number_0,
                },
                stack,
            }
        } else {
            fail(stack, type_error(number_kind(), offender(lhs, value)))
        },
        FrameModel::Condition { true_branch, false_branch, env } => match value {
            Value::Boolean(b) => evaluating(if b { true_branch } else { false_branch }, env, stack),
            _ => fail(stack, type_error(boolean_kind(), value)),
        },
    }
}

/// One step of the machine.
///
/// A machine at work goes on, whatever the event. A machine that waits for a
/// number or for a boolean takes it as the value to hand on, and stays as it
/// is on any other event. A machine that has finished stays as it is.
pub open spec fn step_spec(state: State, event: Event) -> State {
    match state.control {
        ControlModel::Evaluate { term, env } => evaluate_spec(term, env, state.stack),
        ControlModel::Return { value } => if state.stack.len() == 0 {
            State { control: ControlModel::Halted { result: Ok(value) }, stack: state.stack }
        } else {
            return_spec(state.stack.last(), value, state.stack.drop_last())
        },
        ControlModel::Literal { .. } | ControlModel::Arithmetic { .. } => match event {
            Event::Number(number) => returning(Value::Number(number), state.stack),
            _ => state,
        },
        ControlModel::Comparison { .. } => match event {
            Event::Boolean(b) => returning(Value::Boolean(b), state.stack),
            _ => state,
        },
        ControlModel::Halted { .. } => state,
    }
}

/// One step from `state`, and then up to `more` further steps for as long as
/// nothing is asked of the host.
pub open spec fn advance_spec(state: State, event: Event, more: nat) -> State
    decreases more,
{
    let next = step_spec(state, event);
    if pending(next) is Continue && more > 0 {
        advance_spec(next, Event::Resume, (more - 1) as nat)
    } else {
        next
    }
}

proof fn lemma_kinds()
    ensures
        "Number"@ == number_kind(),
        "Boolean"@ == boolean_kind(),
        "Closure"@ == closure_kind(),
{
    reveal_strlit("Number");
    reveal_strlit("Boolean");
    reveal_strlit("Closure");
    assert("Number"@ =~= number_kind());
    assert("Boolean"@ =~= boolean_kind());
    assert("Closure"@ =~= closure_kind());
}

/// The models of a stack of frames.
pub open spec fn frames(stack: Seq<Frame>) -> Seq<FrameModel> {
    stack.map_values(|frame: Frame| frame@)
}

/// The machine that is about to evaluate `expr` in `env`.
fn enter(expr: Rc<Expr>, env: Env, stack: Vec<Frame>) -> (r: Machine)
    ensures
        r@ == evaluating(expr.term(), env@, frames(stack@)),
{
    Machine { control: Control::Evaluate { expr, env }, stack }
}

/// The machine that is about to hand on `value`.
fn hand(value: EvalResult, stack: Vec<Frame>) -> (r: Machine)
    ensures
        r@ == returning(value@, frames(stack@)),
{
    Machine { control: Control::Return { value }, stack }
}

/// The machine that has stopped on an error.
fn stop(stack: Vec<Frame>, error: InterpreterError) -> (r: Machine)
    ensures
        r@ == fail(frames(stack@), error@),
{
    Machine { control: Control::Halted { result: Err(error) }, stack }
}

/// The error of a value of the wrong kind.
fn wrong_kind(wanted: &str, given: &EvalResult) -> (r: InterpreterError)
    ensures
        r@ == type_error(wanted@, given@),
{
    InterpreterError::new_type_error(wanted, given.kind())
}

fn push_frame(stack: Vec<Frame>, frame: Frame) -> (r: Vec<Frame>)
    ensures
        frames(r@) == frames(stack@).push(frame@),
{
    let ghost before = frames(stack@);
    let mut stack = stack;
    stack.push(frame);
    assert(frames(stack@) =~= before.push(frame@));
    stack
}

/// The step that begins the evaluation of `expr` in `env`.
fn evaluate(expr: Rc<Expr>, env: Env, stack: Vec<Frame>) -> (r: Machine)
    ensures
        r@ == evaluate_spec(expr.term(), env@, frames(stack@)),
{
    match &*expr {
        Expr::Abs { var, body } => {
            let value = EvalResult::Closure { var: var.clone(), body: body.clone(), context: env };
            hand(value, stack)
        },
        Expr::App { function, parameter } => {
            let frame = Frame::Argument { function: function.clone(), env: env.clone() };
            enter(parameter.clone(), env, push_frame(stack, frame))
        },
        Expr::Arithmetic { operation, lhs, rhs } => {
            let frame = Frame::ArithmeticLeft {
                operation: *operation,
                rhs: rhs.clone(),
                env: env.clone(),
            };
            enter(lhs.clone(), env, push_frame(stack, frame))
        },
        Expr::Comparison { operation, lhs, rhs } => {
            let frame = Frame::ComparisonLeft {
                operation: *operation,
                rhs: rhs.clone(),
                env: env.clone(),
            };
            enter(lhs.clone(), env, push_frame(stack, frame))
        },
        Expr::Conditional { condition, true_branch, false_branch } => {
            let frame = Frame::Condition {
                true_branch: true_branch.clone(),
                false_branch: false_branch.clone(),
                env: env.clone(),
            };
            enter(condition.clone(), env, push_frame(stack, frame))
        },
        Expr::Var { name } => match env.get(name.as_str()) {
            Some(value) => hand(value, stack),
            None => stop(stack, InterpreterError::new_name_error(name.as_str())),
        },
        Expr::NumericLiteral { value } => Machine {
            control: Control::Literal { numeral: value.clone() },
            stack,
        },
        Expr::BooleanLiteral { value } => hand(EvalResult::Boolean(*value), stack),
    }
}

/// The step that hands `value` to `frame`, which was on top of `stack`.
fn give(frame: Frame, value: EvalResult, stack: Vec<Frame>) -> (r: Machine)
    ensures
        r@ == return_spec(frame@, value@, frames(stack@)),
{
    proof {
        lemma_kinds();
    }
    match frame {
        Frame::Argument { function, env } => enter(
            function,
            env,
            push_frame(stack, Frame::Function { parameter: value }),
        ),
        Frame::Function { parameter } => match value {
            EvalResult::Closure { var, body, context } => enter(
                body,
                context.extend(var, parameter),
                stack,
            ),
            other => stop(stack, wrong_kind("Closure", &other)),
        },
        Frame::ArithmeticLeft { operation, rhs, env } => enter(
            rhs,
            env,
            push_frame(stack, Frame::ArithmeticRight { operation, lhs: value }),
        ),
        Frame::ArithmeticRight { operation, lhs } => match (lhs, value) {
            (EvalResult::Value(lhs), EvalResult::Value(rhs)) => Machine {
                control: Control::Arithmetic { operation, lhs, rhs },
                stack,
            },
            (EvalResult::Value(_), other) => stop(stack, wrong_kind("Number", &other)),
            (other, _) => stop(stack, wrong_kind("Number", &other)),
        },
        Frame::ComparisonLeft { operation, rhs, env } => enter(
            rhs,
            env,
            push_frame(stack, Frame::ComparisonRight { operation, lhs: value }),
        ),
        Frame::ComparisonRight { operation, lhs } => match (lhs, value) {
            (EvalResult::Value(lhs), EvalResult::Value(rhs)) => Machine {
                control: Control::Comparison { operation, lhs, rhs },
                stack,
            },
            (EvalResult::Value(_), other) => stop(stack, wrong_kind("Number", &other)),
            (other, _) => stop(stack, wrong_kind("Number", &other)),
        },
        Frame::Condition { true_branch, false_branch, env } => match value {
            EvalResult::Boolean(b) => enter(if b { true_branch } else { false_branch }, env, stack),
            other => stop(stack, wrong_kind("Boolean", &other)),
        },
    }
}

impl Machine {
    /// The machine that is about to evaluate `expr` where nothing is bound.
    pub fn new(expr: Rc<Expr>) -> (r: Self)
        ensures
            r@ == initial(expr.term()),
    {
        let machine = Machine {
            control: Control::Evaluate { expr, env: Env::new() },
            stack: Vec::new(),
        };
        assert(machine@.stack =~= Seq::empty());
        machine
    }

    /// Whether evaluation has finished.
    pub fn is_halted(&self) -> (r: bool)
        ensures
            r == (self@.control is Halted),
    {
        match &self.control {
            Control::Halted { .. } => true,
            _ => false,
        }
    }

    /// What the machine asks of the host before its next step.
    pub fn pending(&self) -> (r: Action)
        ensures
            r@ == pending(self@),
    {
        match &self.control {
            Control::Evaluate { .. } => Action::Continue,
            Control::Return { .. } => Action::Continue,
            Control::Literal { numeral } => Action::Literal { numeral: numeral.clone() },
            Control::Arithmetic { operation, lhs, rhs } => Action::Arithmetic {
                operation: *operation,
                lhs: *lhs,
                rhs: *rhs,
            },
            Control::Comparison { operation, lhs, rhs } => Action::Comparison {
                operation: *operation,
                lhs: *lhs,
                rhs: *rhs,
            },
            Control::Halted { result } => Action::Finished {
                result: match result {
                    Ok(value) => Ok(value.clone()),
                    Err(error) => Err(error.clone()),
                },
            },
        }
    }

    /// One step: the next state, with what it asks of the host.
    pub fn step(self, event: Event) -> (r: (Machine, Action))
        ensures
            r.0@ == step_spec(self@, event),
            r.1@ == pending(r.0@),
    {
        let next = self.go(event);
        let action = next.pending();
        (next, action)
    }

    /// One step, and then up to `more` further steps for as long as nothing is
    /// asked of the host: the state reached, with what it asks of the host.
    pub fn advance(self, event: Event, more: u64) -> (r: (Machine, Action))
        ensures
            r.0@ == advance_spec(self@, event, more as nat),
            r.1@ == pending(r.0@),
    {
        let ghost start = self@;
        let mut machine = self.go(event);
        let mut left = more;
        while left > 0 && machine.is_working()
            invariant
                advance_spec(start, event, more as nat) == (if pending(machine@) is Continue && left
                    > 0 {
                    advance_spec(machine@, Event::Resume, (left - 1) as nat)
                } else {
                    machine@
                }),
            decreases left,
        {
            machine = machine.go(Event::Resume);
            left = left - 1;
        }
        let action = machine.pending();
        (machine, action)
    }

    /// Whether the machine is at work: it asks for nothing and has not finished.
    fn is_working(&self) -> (r: bool)
        ensures
            r == (pending(self@) is Continue),
    {
        match &self.control {
            Control::Evaluate { .. } => true,
            Control::Return { .. } => true,
            _ => false,
        }
    }

    /// The state after one step.
    fn go(self, event: Event) -> (r: Machine)
        ensures
            r@ == step_spec(self@, event),
    {
        let Machine { control, stack } = self;
        let mut stack = stack;
        match control {
            Control::Evaluate { expr, env } => evaluate(expr, env, stack),
            Control::Return { value } => {
                let ghost before = frames(stack@);
                match stack.pop() {
                    Some(frame) => {
                        assert(frames(stack@) =~= before.drop_last());
                        give(frame, value, stack)
                    },
                    None => Machine { control: Control::Halted { result: Ok(value) }, stack },
                }
            },
            Control::Literal { numeral } => match event {
                Event::Number(number) => hand(EvalResult::Value(number), stack),
                _ => Machine { control: Control::Literal { numeral }, stack },
            },
            Control::Arithmetic { operation, lhs, rhs } => match event {
                Event::Number(number) => hand(EvalResult::Value(number), stack),
                _ => Machine { control: Control::Arithmetic { operation, lhs, rhs }, stack },
            },
            Control::Comparison { operation, lhs, rhs } => match event {
                Event::Boolean(b) => hand(EvalResult::Boolean(b), stack),
                _ => Machine { control: Control::Comparison { operation, lhs, rhs }, stack },
            },
            Control::Halted { result } => Machine { control: Control::Halted { result }, stack },
        }
    }
}

} // verus!
