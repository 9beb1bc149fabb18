use lambda_calculus::ast::{ArithmeticOp, ComparisonOp, Expr};
use lambda_calculus::lexer::{lexer, Op, Paren, Token};
use lambda_calculus::numeral::Numeral;
use lambda_calculus::parser::error::SyntaxError;
use lambda_calculus::parser::{op_sup, parse, remove_extra_parentheses};

fn num(text: &str) -> Expr {
    Expr::numeric_literal(Numeral::new(text).unwrap())
}

fn parse_text(text: &str) -> Result<Expr, SyntaxError> {
    parse(&lexer(text).unwrap())
}

fn value_of(expr: &Expr) -> f64 {
    match expr {
        Expr::NumericLiteral { value } => value.as_str().parse::<f64>().unwrap(),
        other => panic!("no literal: {:?}", other),
    }
}

#[test]
fn test_simple() {
    assert_eq!(
        parse(&vec![
            Token::Lambda,
            Token::identifier("x"),
            Token::Dot,
            Token::identifier("x")
        ]),
        Ok(Expr::abs("x", Expr::var("x")))
    );
    assert_eq!(
        parse(&vec![
            Token::Parentheses(Paren::Open),
            Token::Lambda,
            Token::identifier("x"),
            Token::Dot,
            Token::identifier("x"),
            Token::Parentheses(Paren::Close),
            Token::identifier("1")
        ]),
        Ok(Expr::app(Expr::abs("x", Expr::var("x")), num("1")))
    );
}

#[test]
fn literal_round_trip() {
    let fractional = parse_text("3.14").unwrap();
    assert_eq!(fractional, num("3.14"));
    assert_eq!(value_of(&fractional), 3.14);
    let whole = parse_text("42").unwrap();
    assert_eq!(whole, num("42"));
    assert_eq!(value_of(&whole), 42.0);
}

#[test]
fn trailing_point_is_an_integer() {
    let expr = parse_text("12.").unwrap();
    assert_eq!(expr, num("12"));
    assert_eq!(value_of(&expr), 12.0);
    assert_eq!(
        parse_text("1e3."),
        Err(SyntaxError::new(Token::identifier("1e3")))
    );
    assert_eq!(
        parse_text("x."),
        Err(SyntaxError::new(Token::identifier("x")))
    );
}

#[test]
fn exponent_in_fraction() {
    let expr = parse_text("1.5e3").unwrap();
    assert_eq!(value_of(&expr), 1500.0);
    assert_eq!(
        parse_text("x.y"),
        Err(SyntaxError::new(Token::identifier("x")))
    );
}

#[test]
fn redundant_parentheses_change_nothing() {
    let plain = parse_text(r"(\x.x+1) 2 > 3 ? f x : 4*5").unwrap();
    assert_eq!(parse_text(r"((\x.x+1) 2 > 3 ? f x : 4*5)"), Ok(plain.clone()));
    assert_eq!(
        parse_text(r"((((\x.x+1) 2 > 3 ? f x : 4*5)))"),
        Ok(plain.clone())
    );
    assert_eq!(parse_text("((x))"), Ok(Expr::var("x")));
    assert_eq!(parse_text("(a)(b)"), Ok(Expr::app(Expr::var("a"), Expr::var("b"))));
}

#[test]
fn remove_extra_parentheses_strips_whole_pairs_only() {
    let wrapped = lexer("((a b))").unwrap();
    assert_eq!(remove_extra_parentheses(&wrapped), &lexer("a b").unwrap()[..]);
    let two = lexer("(a)(b)").unwrap();
    assert_eq!(remove_extra_parentheses(&two), &two[..]);
    let none: Vec<Token> = vec![];
    assert_eq!(remove_extra_parentheses(&none), &none[..]);
    let open = lexer("(a").unwrap();
    assert_eq!(remove_extra_parentheses(&open), &open[..]);
}

#[test]
fn application_associates_to_the_left() {
    assert_eq!(
        parse_text("f x y"),
        Ok(Expr::app(
            Expr::app(Expr::var("f"), Expr::var("x")),
            Expr::var("y")
        ))
    );
    assert_eq!(
        parse_text("f (x y)"),
        Ok(Expr::app(
            Expr::var("f"),
            Expr::app(Expr::var("x"), Expr::var("y"))
        ))
    );
}

#[test]
fn multiplication_binds_tighter_than_addition() {
    assert_eq!(
        parse_text("2+3*4"),
        Ok(Expr::arithmetic(
            ArithmeticOp::Add,
            num("2"),
            Expr::arithmetic(ArithmeticOp::Mul, num("3"), num("4"))
        ))
    );
    assert_eq!(
        parse_text("2*3+4"),
        Ok(Expr::arithmetic(
            ArithmeticOp::Add,
            Expr::arithmetic(ArithmeticOp::Mul, num("2"), num("3")),
            num("4")
        ))
    );
    assert_eq!(
        parse_text("8-3-2"),
        Ok(Expr::arithmetic(
            ArithmeticOp::Sub,
            Expr::arithmetic(ArithmeticOp::Sub, num("8"), num("3")),
            num("2")
        ))
    );
    assert_eq!(
        parse_text("8/4/2"),
        Ok(Expr::arithmetic(
            ArithmeticOp::Div,
            Expr::arithmetic(ArithmeticOp::Div, num("8"), num("4")),
            num("2")
        ))
    );
}

#[test]
fn comparisons_share_the_tier_of_addition() {
    assert_eq!(
        parse_text("1+2>3"),
        Ok(Expr::comparison(
            ComparisonOp::Gt,
            Expr::arithmetic(ArithmeticOp::Add, num("1"), num("2")),
            num("3")
        ))
    );
    assert_eq!(
        parse_text("1>2+3"),
        Ok(Expr::arithmetic(
            ArithmeticOp::Add,
            Expr::comparison(ComparisonOp::Gt, num("1"), num("2")),
            num("3")
        ))
    );
    assert_eq!(
        parse_text("1>2*3"),
        Ok(Expr::arithmetic(
            ArithmeticOp::Mul,
            Expr::comparison(ComparisonOp::Gt, num("1"), num("2")),
            num("3")
        ))
    );
}

#[test]
fn each_operator_builds_its_node() {
    let a = || Expr::var("a");
    let b = || Expr::var("b");
    assert_eq!(parse_text("a+b"), Ok(Expr::arithmetic(ArithmeticOp::Add, a(), b())));
    assert_eq!(parse_text("a-b"), Ok(Expr::arithmetic(ArithmeticOp::Sub, a(), b())));
    assert_eq!(parse_text("a*b"), Ok(Expr::arithmetic(ArithmeticOp::Mul, a(), b())));
    assert_eq!(parse_text("a/b"), Ok(Expr::arithmetic(ArithmeticOp::Div, a(), b())));
    assert_eq!(parse_text("a>b"), Ok(Expr::comparison(ComparisonOp::Gt, a(), b())));
    assert_eq!(parse_text("a>=b"), Ok(Expr::comparison(ComparisonOp::Gte, a(), b())));
    assert_eq!(parse_text("a<b"), Ok(Expr::comparison(ComparisonOp::Lt, a(), b())));
    assert_eq!(parse_text("a<=b"), Ok(Expr::comparison(ComparisonOp::Lte, a(), b())));
    assert_eq!(parse_text("a=b"), Ok(Expr::comparison(ComparisonOp::Eq, a(), b())));
    assert_eq!(parse_text("a!=b"), Ok(Expr::comparison(ComparisonOp::Neq, a(), b())));
}

#[test]
fn not_is_no_binary_operator() {
    assert_eq!(
        parse_text("a!b"),
        Err(SyntaxError::new(Token::Operator(Op::Not)))
    );
}

#[test]
fn conditional_splits_at_first_question_and_last_colon() {
    assert_eq!(
        parse_text("a ? b : c"),
        Ok(Expr::conditional(Expr::var("a"), Expr::var("b"), Expr::var("c")))
    );
    assert_eq!(
        parse_text("a ? (b ? c : d) : e"),
        Ok(Expr::conditional(
            Expr::var("a"),
            Expr::conditional(Expr::var("b"), Expr::var("c"), Expr::var("d")),
            Expr::var("e")
        ))
    );
    assert_eq!(
        parse_text("a ? b : c ? d : e"),
        Err(SyntaxError::new(Token::identifier("b")))
    );
    assert_eq!(
        parse_text("(a ? b : c) d"),
        Ok(Expr::app(
            Expr::conditional(Expr::var("a"), Expr::var("b"), Expr::var("c")),
            Expr::var("d")
        ))
    );
}

#[test]
fn abstraction_takes_the_rest() {
    assert_eq!(
        parse_text(r"\x.\y.x+y"),
        Ok(Expr::abs(
            "x",
            Expr::abs(
                "y",
                Expr::arithmetic(ArithmeticOp::Add, Expr::var("x"), Expr::var("y"))
            )
        ))
    );
    assert_eq!(
        parse_text(r"f \x.x"),
        Ok(Expr::app(Expr::var("f"), Expr::abs("x", Expr::var("x"))))
    );
}

#[test]
fn words() {
    assert_eq!(parse_text("true"), Ok(Expr::boolean_literal(true)));
    assert_eq!(parse_text("false"), Ok(Expr::boolean_literal(false)));
    assert_eq!(parse_text("truth"), Ok(Expr::var("truth")));
    assert_eq!(parse_text("inf"), Ok(Expr::var("inf")));
    assert_eq!(parse_text("x1"), Ok(Expr::var("x1")));
    assert_eq!(
        parse_text("1x"),
        Err(SyntaxError::new(Token::identifier("1x")))
    );
    assert_eq!(parse(&[Token::identifier("-inf")]), Ok(num("-inf")));
    assert_eq!(
        parse(&[Token::identifier("")]),
        Err(SyntaxError::new(Token::identifier("")))
    );
}

#[test]
fn what_fits_no_production_is_refused_with_its_first_token() {
    assert_eq!(parse_text("+"), Err(SyntaxError::new(Token::Operator(Op::Plus))));
    assert_eq!(
        parse_text("- 1"),
        Err(SyntaxError::new(Token::Operator(Op::Minus)))
    );
    assert_eq!(
        parse_text(") ("),
        Err(SyntaxError::new(Token::Parentheses(Paren::Close)))
    );
    assert_eq!(
        SyntaxError::new(Token::Dot).illegal_token(),
        Some(&Token::Dot)
    );
}

#[test]
fn an_empty_slice_is_refused_with_no_token() {
    assert_eq!(parse(&[]), Err(SyntaxError::end_of_input()));
    assert_eq!(parse_text("()"), Err(SyntaxError::end_of_input()));
    assert_eq!(parse_text("1+"), Err(SyntaxError::end_of_input()));
    assert_eq!(parse_text(r"\x."), Err(SyntaxError::end_of_input()));
    assert_eq!(parse_text("a ? : b"), Err(SyntaxError::end_of_input()));
    assert_eq!(SyntaxError::end_of_input().illegal_token(), None);
}

#[test]
fn op_sup_holds_of_multiplicative_against_additive() {
    assert!(op_sup(&Op::Asterisk, &Op::Plus));
    assert!(op_sup(&Op::Slash, &Op::Minus));
    assert!(op_sup(&Op::Asterisk, &Op::Minus));
    assert!(op_sup(&Op::Slash, &Op::Plus));
    assert!(!op_sup(&Op::Plus, &Op::Asterisk));
    assert!(!op_sup(&Op::Asterisk, &Op::Asterisk));
    assert!(!op_sup(&Op::Asterisk, &Op::Sup));
    assert!(!op_sup(&Op::Sup, &Op::Plus));
}
