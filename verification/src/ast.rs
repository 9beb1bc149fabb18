//! Expression trees.

use vstd::prelude::*;
use std::rc::Rc;
use crate::numeral::Numeral;

verus! {

#[derive(Debug, Clone, Copy, PartialEq, Eq, Structural)]
pub enum ArithmeticOp {
    Add,
    Sub,
    Mul,
    Div,
}

#[derive(Debug, Clone, Copy, PartialEq, Eq, Structural)]
pub enum ComparisonOp {
    Gt,
    Gte,
    Lt,
    Lte,
    Eq,
    Neq,
}

/// The mathematical model of an expression: the tree, with names and numerals
/// as sequences of characters.
#[allow(inconsistent_fields)]
pub enum Term {
    Abs { var: Seq<char>, body: Box<Term> },
    App { function: Box<Term>, parameter: Box<Term> },
    Arithmetic { operation: ArithmeticOp, lhs: Box<Term>, rhs: Box<Term> },
    Comparison { operation: ComparisonOp, lhs: Box<Term>, rhs: Box<Term> },
    Conditional { condition: Box<Term>, true_branch: Box<Term>, false_branch: Box<Term> },
    Var { name: Seq<char> },
    NumericLiteral { value: Seq<char> },
    BooleanLiteral { value: bool },
}

/// An expression. Sub-trees are shared by reference counting, so that a
/// closure can hold the body of its abstraction without copying it.
#[derive(Debug, Clone, PartialEq)]
#[allow(inconsistent_fields)]
pub enum Expr {
    Abs { var: String, body: Rc<Expr> },
    App { function: Rc<Expr>, parameter: Rc<Expr> },
    Arithmetic { operation: ArithmeticOp, lhs: Rc<Expr>, rhs: Rc<Expr> },
    Comparison { operation: ComparisonOp, lhs: Rc<Expr>, rhs: Rc<Expr> },
    Conditional { condition: Rc<Expr>, true_branch: Rc<Expr>, false_branch: Rc<Expr> },
    Var { name: String },
    NumericLiteral { value: Numeral },
    BooleanLiteral { value: bool },
}

impl Expr {
    /// The term that this expression stands for.
    pub open spec fn term(&self) -> Term
        decreases self,
    {
        match self {
            Expr::Abs { var, body } => Term::Abs { var: var@, body: Box::new(body.term()) },
            Expr::App { function, parameter } => Term::App {
                function: Box::new(function.term()),
                parameter: Box::new(parameter.term()),
            },
            Expr::Arithmetic { operation, lhs, rhs } => Term::Arithmetic {
                operation: *operation,
                lhs: Box::new(lhs.term()),
                rhs: Box::new(rhs.term()),
            },
            Expr::Comparison { operation, lhs, rhs } => Term::Comparison {
                operation: *operation,
                lhs: Box::new(lhs.term()),
                rhs: Box::new(rhs.term()),
            },
            Expr::Conditional { condition, true_branch, false_branch } => Term::Conditional {
                condition: Box::new(condition.term()),
                true_branch: Box::new(true_branch.term()),
                false_branch: Box::new(false_branch.term()),
            },
            Expr::Var { name } => Term::Var { name: name@ },
            Expr::NumericLiteral { value } => Term::NumericLiteral { value: value@ },
            Expr::BooleanLiteral { value } => Term::BooleanLiteral { value: *value },
        }
    }

    pub fn abs(var: &str, body: Expr) -> (r: Self)
        ensures
            r@ == (Term::Abs { var: var@, body: Box::new(body@) }),
    {
        Expr::Abs { var: var.to_owned(), body: Rc::new(body) }
    }

    pub fn app(function: Expr, parameter: Expr) -> (r: Self)
        ensures
            r@ == (Term::App { function: Box::new(function@), parameter: Box::new(parameter@) }),
    {
        Expr::App { function: Rc::new(function), parameter: Rc::new(parameter) }
    }

    pub fn arithmetic(operation: ArithmeticOp, lhs: Expr, rhs: Expr) -> (r: Self)
        ensures
            r@ == (Term::Arithmetic { operation, lhs: Box::new(lhs@), rhs: Box::new(rhs@) }),
    {
        Expr::Arithmetic { operation, lhs: Rc::new(lhs), rhs: Rc::new(rhs) }
    }

    pub fn comparison(operation: ComparisonOp, lhs: Expr, rhs: Expr) -> (r: Self)
        ensures
            r@ == (Term::Comparison { operation, lhs: Box::new(lhs@), rhs: Box::new(rhs@) }),
    {
        Expr::Comparison { operation, lhs: Rc::new(lhs), rhs: Rc::new(rhs) }
    }

    pub fn conditional(condition: Expr, true_branch: Expr, false_branch: Expr) -> (r: Self)
        ensures
            r@ == (Term::Conditional {
                condition: Box::new(condition@),
                true_branch: Box::new(true_branch@),
                false_branch: Box::new(false_branch@),
            }),
    {
        Expr::Conditional {
            condition: Rc::new(condition),
            true_branch: Rc::new(true_branch),
            false_branch: Rc::new(false_branch),
        }
    }

    pub fn var(name: &str) -> (r: Self)
        ensures
            r@ == (Term::Var { name: name@ }),
    {
        Expr::Var { name: name.to_owned() }
    }

    pub fn numeric_literal(value: Numeral) -> (r: Self)
        ensures
            r@ == (Term::NumericLiteral { value: value@ }),
    {
        Expr::NumericLiteral { value }
    }

    pub fn boolean_literal(value: bool) -> (r: Self)
        ensures
            r@ == (Term::BooleanLiteral { value }),
    {
        Expr::BooleanLiteral { value }
    }
}

impl View for Expr {
    type V = Term;

    open spec fn view(&self) -> Term {
        self.term()
    }
}

} // verus!
