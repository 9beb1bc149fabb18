use lambda_calculus::ast::{ArithmeticOp, ComparisonOp, Expr};
use lambda_calculus::interpreter::error::InterpreterError;
use lambda_calculus::interpreter::machine::{Action, Event, Machine};
use lambda_calculus::interpreter::value::{Env, EvalResult, Number};
use lambda_calculus::interpreter::{load, Error};
use lambda_calculus::lexer::error::LexerError;
use lambda_calculus::lexer::Token;
use lambda_calculus::numeral::Numeral;
use lambda_calculus::parser::error::SyntaxError;
use std::rc::Rc;

fn number(x: f64) -> Number {
    Number::from_bits(x.to_bits())
}

fn float(n: Number) -> f64 {
    f64::from_bits(n.to_bits())
}

fn num(text: &str) -> Expr {
    Expr::numeric_literal(Numeral::new(text).unwrap())
}

fn answer(action: Action) -> Result<Event, Result<EvalResult, InterpreterError>> {
    match action {
        Action::Continue => Ok(Event::Resume),
        Action::Literal { numeral } => Ok(Event::Number(number(
            numeral.as_str().parse::<f64>().unwrap(),
        ))),
        Action::Arithmetic { operation, lhs, rhs } => {
            let (x, y) = (float(lhs), float(rhs));
            Ok(Event::Number(number(match operation {
                ArithmeticOp::Add => x + y,
                ArithmeticOp::Sub => x - y,
                ArithmeticOp::Mul => x * y,
                ArithmeticOp::Div => x / y,
            })))
        }
        Action::Comparison { operation, lhs, rhs } => {
            let (x, y) = (float(lhs), float(rhs));
            Ok(Event::Boolean(match operation {
                ComparisonOp::Gt => x > y,
                ComparisonOp::Gte => x >= y,
                ComparisonOp::Lt => x < y,
                ComparisonOp::Lte => x <= y,
                ComparisonOp::Eq => x == y,
                ComparisonOp::Neq => x != y,
            }))
        }
        Action::Finished { result } => Err(result),
    }
}

fn run(machine: Machine) -> Result<EvalResult, InterpreterError> {
    let mut machine = machine;
    let mut event = Event::Resume;
    loop {
        let (next, action) = machine.advance(event, 1000);
        machine = next;
        match answer(action) {
            Ok(answered) => event = answered,
            Err(result) => {
                assert!(machine.is_halted());
                return result;
            }
        }
    }
}

fn execute(program: &str) -> Result<EvalResult, Error> {
    match load(program) {
        Ok(machine) => run(machine).map_err(Error::Interpreter),
        Err(error) => Err(error),
    }
}

fn value(x: f64) -> Result<EvalResult, Error> {
    Ok(EvalResult::Value(number(x)))
}

fn boolean(b: bool) -> Result<EvalResult, Error> {
    Ok(EvalResult::Boolean(b))
}

fn type_error(wanted: &str, given: &str) -> Result<EvalResult, Error> {
    Err(Error::Interpreter(InterpreterError::new_type_error(
        wanted, given,
    )))
}

#[test]
fn precedence() {
    assert_eq!(execute("2+3*4"), value(14.));
    assert_eq!(execute("2*3+4"), value(10.));
    assert_eq!(execute("(2+3)*4"), value(20.));
    assert_eq!(execute("8-3-2"), value(3.));
    assert_eq!(execute("7/2"), value(3.5));
    assert_eq!(execute("3.14"), value(3.14));
    assert_eq!(execute("1.5e3"), value(1500.));
}

#[test]
fn curried_addition() {
    assert_eq!(execute(r"(\x.\y.x+y) 1 2"), value(3.));
}

#[test]
fn closures_keep_what_they_captured() {
    assert_eq!(execute(r"(\k.k 2) ((\x.\y.x) 1)"), value(1.));
    assert_eq!(execute(r"(\k.k 3) ((\x.\y.x) 1)"), value(1.));
    assert_eq!(execute(r"(\k.(k 2)+(k 3)) ((\x.\y.x) 1)"), value(2.));
    assert_eq!(execute(r"(\x.(\f.(\x.f 0) 2) (\y.x)) 1"), value(1.));
}

#[test]
fn binding_leaves_the_old_environment_as_it_was() {
    let empty = Env::new();
    let one = empty.extend("x".to_string(), EvalResult::Value(number(1.)));
    let two = one.extend("x".to_string(), EvalResult::Value(number(2.)));
    let three = one.extend("y".to_string(), EvalResult::Boolean(true));
    assert_eq!(empty.get("x"), None);
    assert_eq!(one.get("x"), Some(EvalResult::Value(number(1.))));
    assert_eq!(two.get("x"), Some(EvalResult::Value(number(2.))));
    assert_eq!(three.get("x"), Some(EvalResult::Value(number(1.))));
    assert_eq!(three.get("y"), Some(EvalResult::Boolean(true)));
    assert_eq!(one.get("y"), None);
    assert_eq!(one.clone(), one);
}

#[test]
fn unbound_variable() {
    assert_eq!(
        execute("z"),
        Err(Error::Interpreter(InterpreterError::new_name_error("z")))
    );
    assert_eq!(
        execute(r"(\x.y) 1"),
        Err(Error::Interpreter(InterpreterError::NameError {
            name: "y".to_string()
        }))
    );
}

#[test]
fn type_mismatch() {
    assert_eq!(execute("true+1"), type_error("Number", "Boolean"));
    assert_eq!(execute("1+true"), type_error("Number", "Boolean"));
    assert_eq!(execute(r"(\x.x)+true"), type_error("Number", "Closure"));
    assert_eq!(execute(r"1<(\x.x)"), type_error("Number", "Closure"));
    assert_eq!(execute("true<1"), type_error("Number", "Boolean"));
    assert_eq!(execute("1 2"), type_error("Closure", "Number"));
    assert_eq!(execute("true 2"), type_error("Closure", "Boolean"));
    assert_eq!(execute("1 ? 2 : 3"), type_error("Boolean", "Number"));
    assert_eq!(execute(r"(\x.x) ? 2 : 3"), type_error("Boolean", "Closure"));
}

#[test]
fn division_by_zero_is_no_error() {
    assert_eq!(execute("1/0"), value(f64::INFINITY));
    assert_eq!(execute("0-1/0"), value(f64::NEG_INFINITY));
    match execute("0/0") {
        Ok(EvalResult::Value(n)) => assert!(float(n).is_nan()),
        other => panic!("no number: {:?}", other),
    }
}

#[test]
fn comparisons() {
    assert_eq!(execute("2>1"), boolean(true));
    assert_eq!(execute("1>1"), boolean(false));
    assert_eq!(execute("1>=1"), boolean(true));
    assert_eq!(execute("1<2"), boolean(true));
    assert_eq!(execute("2<=1"), boolean(false));
    assert_eq!(execute("2=2"), boolean(true));
    assert_eq!(execute("2!=2"), boolean(false));
    assert_eq!(execute("0/0 > 1"), boolean(false));
    assert_eq!(execute("(0/0) = (0/0)"), boolean(false));
}

#[test]
fn the_argument_is_evaluated_before_the_function() {
    assert_eq!(
        execute("a b"),
        Err(Error::Interpreter(InterpreterError::new_name_error("b")))
    );
    assert_eq!(
        execute("1 b"),
        Err(Error::Interpreter(InterpreterError::new_name_error("b")))
    );
}

#[test]
fn the_left_operand_is_evaluated_before_the_right() {
    assert_eq!(
        execute("a + b"),
        Err(Error::Interpreter(InterpreterError::new_name_error("a")))
    );
    assert_eq!(
        execute("true + b"),
        Err(Error::Interpreter(InterpreterError::new_name_error("b")))
    );
    assert_eq!(
        execute("a < b"),
        Err(Error::Interpreter(InterpreterError::new_name_error("a")))
    );
}

#[test]
fn only_one_branch_is_evaluated() {
    assert_eq!(execute("true ? 1 : z"), value(1.));
    assert_eq!(execute("false ? z : 2"), value(2.));
    assert_eq!(
        execute("z ? 1 : 2"),
        Err(Error::Interpreter(InterpreterError::new_name_error("z")))
    );
}

#[test]
fn recursion_by_self_application() {
    let fib = r"(\f.(\x.f (\v.x x v)) (\x.f (\v.x x v))) (\f.\x. x<2 ? 1 : (f(x-1)) + (f(x-2)))";
    assert_eq!(execute(&format!("({}) 5", fib)), value(8.));
    assert_eq!(execute(&format!("({}) 10", fib)), value(89.));
}

#[test]
fn application_takes_all_that_follows() {
    assert_eq!(execute(r"(\x.x) 1 + 2"), value(3.));
    assert_eq!(execute(r"(\x.x*2) 1 + 2"), value(6.));
    assert_eq!(execute(r"((\x.x*2) 1) + 2"), value(4.));
    assert_eq!(execute("(0/0 = 0)/0"), type_error("Number", "Boolean"));
    assert_eq!(execute("0/0 = 0/0"), type_error("Number", "Boolean"));
}

#[test]
fn an_abstraction_evaluates_to_a_closure() {
    match execute(r"(\x.\y.x) 1") {
        Ok(EvalResult::Closure { var, body, context }) => {
            assert_eq!(var, "y");
            assert_eq!(*body, Expr::var("x"));
            assert_eq!(context.get("x"), Some(EvalResult::Value(number(1.))));
            assert_eq!(context.get("y"), None);
        }
        other => panic!("no closure: {:?}", other),
    }
}

#[test]
fn the_first_error_ends_the_work() {
    assert_eq!(
        execute(""),
        Err(Error::Lexer(LexerError::EmptyProgramError))
    );
    assert_eq!(
        execute("1 + #"),
        Err(Error::Lexer(LexerError::IllegalCharacterError('#')))
    );
    assert_eq!(
        execute("1 +"),
        Err(Error::Syntax(SyntaxError::end_of_input()))
    );
    assert_eq!(
        execute("1x + z"),
        Err(Error::Syntax(SyntaxError::new(Token::identifier("1x"))))
    );
}

#[test]
fn the_machine_asks_the_host_for_numbers() {
    let machine = load("1+2").unwrap();
    assert!(!machine.is_halted());
    assert_eq!(machine.pending(), Action::Continue);
    let (machine, action) = machine.step(Event::Resume);
    assert_eq!(action, Action::Continue);
    let (machine, action) = machine.step(Event::Resume);
    let one = Action::Literal {
        numeral: Numeral::new("1").unwrap(),
    };
    assert_eq!(action, one);
    assert_eq!(machine.pending(), one);
    let (machine, action) = machine.advance(Event::Number(number(1.)), 10);
    assert_eq!(
        action,
        Action::Literal {
            numeral: Numeral::new("2").unwrap()
        }
    );
    let (machine, action) = machine.advance(Event::Number(number(2.)), 10);
    assert_eq!(
        action,
        Action::Arithmetic {
            operation: ArithmeticOp::Add,
            lhs: number(1.),
            rhs: number(2.)
        }
    );
    let (machine, action) = machine.advance(Event::Number(number(3.)), 0);
    assert_eq!(action, Action::Continue);
    let (machine, action) = machine.advance(Event::Resume, 0);
    let three = Action::Finished {
        result: Ok(EvalResult::Value(number(3.))),
    };
    assert_eq!(action, three);
    assert!(machine.is_halted());
    assert_eq!(machine.pending(), three);
}

#[test]
fn the_machine_asks_the_host_for_comparisons() {
    let machine = Machine::new(Rc::new(Expr::comparison(
        ComparisonOp::Lte,
        num("1"),
        num("2"),
    )));
    let (machine, _) = machine.advance(Event::Resume, 10);
    let (machine, _) = machine.advance(Event::Number(number(1.)), 10);
    let (machine, action) = machine.advance(Event::Number(number(2.)), 10);
    assert_eq!(
        action,
        Action::Comparison {
            operation: ComparisonOp::Lte,
            lhs: number(1.),
            rhs: number(2.)
        }
    );
    let (_, action) = machine.advance(Event::Boolean(true), 10);
    assert_eq!(
        action,
        Action::Finished {
            result: Ok(EvalResult::Boolean(true))
        }
    );
}

#[test]
fn the_machine_asks_again_until_it_is_answered() {
    let machine = load("1<2").unwrap();
    let (machine, action) = machine.advance(Event::Resume, 10);
    let one = Action::Literal {
        numeral: Numeral::new("1").unwrap(),
    };
    assert_eq!(action, one);
    let (machine, action) = machine.step(Event::Resume);
    assert_eq!(action, one);
    let (machine, action) = machine.advance(Event::Boolean(true), 10);
    assert_eq!(action, one);
    let (machine, _) = machine.advance(Event::Number(number(1.)), 10);
    let (machine, action) = machine.advance(Event::Number(number(2.)), 10);
    let compare = Action::Comparison {
        operation: ComparisonOp::Lt,
        lhs: number(1.),
        rhs: number(2.),
    };
    assert_eq!(action, compare);
    let (machine, action) = machine.step(Event::Number(number(0.)));
    assert_eq!(action, compare);
    let (machine, action) = machine.step(Event::Resume);
    assert_eq!(action, compare);
    let (machine, action) = machine.advance(Event::Boolean(true), 10);
    let done = Action::Finished {
        result: Ok(EvalResult::Boolean(true)),
    };
    assert_eq!(action, done);
    let (machine, action) = machine.step(Event::Resume);
    assert_eq!(action, done);
    let (machine, action) = machine.advance(Event::Number(number(5.)), 10);
    assert_eq!(action, done);
    assert!(machine.is_halted());
}

#[test]
fn a_failed_machine_keeps_its_error() {
    let machine = load("z").unwrap();
    let (machine, action) = machine.advance(Event::Resume, 10);
    let failed = Action::Finished {
        result: Err(InterpreterError::new_name_error("z")),
    };
    assert_eq!(action, failed);
    let (machine, action) = machine.step(Event::Resume);
    assert_eq!(action, failed);
    assert!(machine.is_halted());
}

#[test]
fn advancing_stops_after_the_steps_allowed() {
    let omega = load(r"(\x.x x) (\x.x x)").unwrap();
    let (machine, action) = omega.advance(Event::Resume, 10_000);
    assert_eq!(action, Action::Continue);
    assert!(!machine.is_halted());
}

#[test]
fn values_have_texts() {
    assert_eq!(EvalResult::Value(number(1.)).text(), None);
    assert_eq!(EvalResult::Boolean(true).text(), Some("true"));
    assert_eq!(EvalResult::Boolean(false).text(), Some("false"));
    assert_eq!(execute(r"\x.x").unwrap().text(), Some("Closure"));
}

#[test]
fn kinds_have_names() {
    assert_eq!(EvalResult::Value(number(0.)).kind(), "Number");
    assert_eq!(EvalResult::Boolean(false).kind(), "Boolean");
    let closure = execute(r"\x.x").unwrap();
    assert_eq!(closure.kind(), "Closure");
    assert_eq!(closure.clone(), closure);
}
