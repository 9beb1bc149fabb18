//! A small untyped lambda calculus with numbers, comparisons, booleans and a
//! ternary conditional.
//!
//! A program is a text. The tokenizer (`lexer`) splits it into tokens, the
//! parser (`parser`) finds the expression (`ast`) that the tokens denote, and
//! the evaluation machine (`interpreter`) finds the value of the expression,
//! step by step.
//!
//! The library never computes with floating-point numbers. A number literal
//! is kept as its numeral (`numeral`), a number as the bits of a double. The
//! program that uses the library, the host, runs the machine: it turns
//! numerals into numbers and does the arithmetic that the machine asks for.
//!
//! Every function states what it computes over a mathematical model of its
//! data: a text is a sequence of characters, a token and an expression have
//! models whose names are such sequences, an environment is a map.

pub mod ast;
pub mod interpreter;
pub mod lexer;
pub mod numeral;
pub mod parser;
pub mod text;
