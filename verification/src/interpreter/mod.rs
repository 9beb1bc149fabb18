//! Evaluation.

pub mod error;
pub mod laws;
pub mod machine;
pub mod semantics;
pub mod value;

use vstd::prelude::*;
use std::rc::Rc;
use crate::ast::Term;
use crate::interpreter::error::{Failure, InterpreterError};
use crate::interpreter::machine::{initial, Machine, State};
use crate::lexer::error::LexerError;
use crate::lexer::{lex_spec, lexer, TokenView};
use crate::parser::error::SyntaxError;
use crate::parser::grammar::parse_spec;
use crate::parser::parse;

verus! {

/// Why a text has no value: the tokenizer, the parser or evaluation refused it.
#[derive(Debug, PartialEq)]
pub enum Error {
    Lexer(LexerError),
    Syntax(SyntaxError),
    Interpreter(InterpreterError),
}

/// The mathematical model of an `Error`.
pub enum ErrorModel {
    Lexer(LexerError),
    Syntax(Option<TokenView>),
    Interpreter(Failure),
}

impl View for Error {
    type V = ErrorModel;

    open spec fn view(&self) -> ErrorModel {
        match self {
            Error::Lexer(error) => ErrorModel::Lexer(*error),
            Error::Syntax(error) => ErrorModel::Syntax(error@),
            Error::Interpreter(error) => ErrorModel::Interpreter(error@),
        }
    }
}

impl Error {
    /// The message of the error, for a reader.
    pub fn message(&self) -> (r: String)
        ensures
            r@ == (match self@ {
                ErrorModel::Lexer(error) => crate::lexer::error::message_spec(error),
                ErrorModel::Syntax(error) => crate::parser::error::message_spec(error),
                ErrorModel::Interpreter(error) => crate::interpreter::error::message_spec(error),
            }),
    {
        match self {
            Error::Lexer(error) => error.message(),
            Error::Syntax(error) => error.message(),
            Error::Interpreter(error) => error.message(),
        }
    }
}

/// The term of a text: its tokens, parsed. The first error ends the work.
pub open spec fn read_spec(text: Seq<char>) -> Result<Term, ErrorModel> {
    match lex_spec(text) {
        Ok(tokens) => match parse_spec(tokens) {
            Ok(term) => Ok(term),
            Err(error) => Err(ErrorModel::Syntax(error)),
        },
        Err(error) => Err(ErrorModel::Lexer(error)),
    }
}

/// The model of what `load` returns.
pub open spec fn loaded(r: Result<Machine, Error>) -> Result<State, ErrorModel> {
    match r {
        Ok(machine) => Ok(machine@),
        Err(error) => Err(error@),
    }
}

/// The state in which the evaluation of a text begins, or the error of the
/// tokenizer or of the parser.
pub open spec fn load_spec(text: Seq<char>) -> Result<State, ErrorModel> {
    match read_spec(text) {
        Ok(term) => Ok(initial(term)),
        Err(error) => Err(error),
    }
}

/// Reads a program: the machine that is about to evaluate the expression
/// that the text denotes, or the error of the tokenizer or of the parser.
pub fn load(program: &str) -> (r: Result<Machine, Error>)
    ensures
        loaded(r) == load_spec(program@),
{
    let tokens = match lexer(program) {
        Ok(tokens) => tokens,
        Err(error) => {
            return Err(Error::Lexer(error));
        },
    };
    match parse(tokens.as_slice()) {
        Ok(expr) => Ok(Machine::new(Rc::new(expr))),
        Err(error) => Err(Error::Syntax(error)),
    }
}

} // verus!
