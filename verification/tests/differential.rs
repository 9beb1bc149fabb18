use lambda_calculus::ast::Expr;
use lambda_calculus::lexer::error::LexerError;
use lambda_calculus::lexer::{lexer, Op, Paren, Token};
use lambda_calculus::parser::error::SyntaxError;
use lambda_calculus::parser::parse;

/// What a plain reading of the productions gives: a tree as text, the token
/// that is refused, or no answer where the reading runs out of tokens or
/// meets a `!` between operands.
#[derive(Debug, PartialEq, Clone)]
enum Plain {
    Tree(String),
    Refused(Token),
    Stuck,
}

fn show(expr: &Expr) -> String {
    match expr {
        Expr::Abs { var, body } => format!("(abs {} {})", var, show(body)),
        Expr::App {
            function,
            parameter,
        } => format!("(app {} {})", show(function), show(parameter)),
        Expr::Arithmetic {
            operation,
            lhs,
            rhs,
        } => format!("({:?} {} {})", operation, show(lhs), show(rhs)),
        Expr::Comparison {
            operation,
            lhs,
            rhs,
        } => format!("({:?} {} {})", operation, show(lhs), show(rhs)),
        Expr::Conditional {
            condition,
            true_branch,
            false_branch,
        } => format!(
            "(if {} {} {})",
            show(condition),
            show(true_branch),
            show(false_branch)
        ),
        Expr::Var { name } => format!("(var {})", name),
        Expr::NumericLiteral { value } => {
            format!("(num {:?})", value.as_str().parse::<f64>().unwrap())
        }
        Expr::BooleanLiteral { value } => format!("(bool {})", value),
    }
}

fn strip(tokens: &[Token]) -> &[Token] {
    if tokens.is_empty() {
        return tokens;
    }
    if tokens[0] == Token::Parentheses(Paren::Open)
        && tokens[tokens.len() - 1] == Token::Parentheses(Paren::Close)
    {
        let mut depth = 0;
        for token in &tokens[..tokens.len() - 1] {
            if *token == Token::Parentheses(Paren::Open) {
                depth += 1;
            } else if *token == Token::Parentheses(Paren::Close) {
                depth -= 1;
            }
            if depth == 0 {
                return tokens;
            }
        }
        strip(&tokens[1..tokens.len() - 1])
    } else {
        tokens
    }
}

fn both(name: &str, parts: &[&[Token]]) -> Plain {
    let mut text = format!("({}", name);
    for part in parts {
        match plain(part) {
            Plain::Tree(tree) => {
                text.push(' ');
                text.push_str(&tree);
            }
            other => return other,
        }
    }
    text.push(')');
    Plain::Tree(text)
}

fn plain(tokens: &[Token]) -> Plain {
    let tokens = strip(tokens);
    let n = tokens.len();

    if let [Token::Lambda, Token::Identifier(id), Token::Dot, rest @ ..] = tokens {
        return match plain(rest) {
            Plain::Tree(body) => Plain::Tree(format!("(abs {} {})", id, body)),
            other => other,
        };
    }

    let mut depth = 0;
    for i in 0..n {
        if tokens[i] == Token::Parentheses(Paren::Close) {
            depth += 1;
        } else if tokens[i] == Token::Parentheses(Paren::Open) {
            depth -= 1;
        }
        if tokens[i] == Token::QuestionMark && depth == 0 {
            let mut depth = 0;
            for j in (i + 1..n).rev() {
                if tokens[j] == Token::Parentheses(Paren::Close) {
                    depth += 1;
                } else if tokens[j] == Token::Parentheses(Paren::Open) {
                    depth -= 1;
                }
                if tokens[j] == Token::Colon && depth == 0 {
                    return both(
                        "if",
                        &[&tokens[0..i], &tokens[i + 1..j], &tokens[j + 1..n]],
                    );
                }
            }
        }
    }

    let mut depth = 0;
    for i in (1..n).rev() {
        if tokens[i] == Token::Parentheses(Paren::Close) {
            depth += 1;
        } else if tokens[i] == Token::Parentheses(Paren::Open) {
            depth -= 1;
        }
        if depth == 0 {
            match tokens[i - 1] {
                Token::Parentheses(Paren::Close) | Token::Identifier(_) => match tokens[i] {
                    Token::Operator(_) | Token::QuestionMark | Token::Colon | Token::Dot => {
                        continue
                    }
                    _ => {
                        return both("app", &[&tokens[0..i], &tokens[i..n]])
                    }
                },
                _ => continue,
            }
        }
    }

    let mut depth = 0;
    let mut index = 0;
    for (i, token) in tokens.iter().enumerate() {
        if *token == Token::Parentheses(Paren::Open) {
            depth += 1;
        } else if *token == Token::Parentheses(Paren::Close) {
            depth -= 1;
        } else if let Token::Operator(op) = token {
            if index != 0 {
                if let Token::Operator(op2) = &tokens[index] {
                    let tighter = (*op == Op::Asterisk || *op == Op::Slash)
                        && (*op2 == Op::Plus || *op2 == Op::Minus);
                    if depth == 0 && !tighter {
                        index = i;
                    }
                }
            } else if depth == 0 {
                index = i;
            }
        }
    }
    if index != 0 {
        let name = match tokens[index] {
            Token::Operator(Op::Plus) => "Add",
            Token::Operator(Op::Minus) => "Sub",
            Token::Operator(Op::Asterisk) => "Mul",
            Token::Operator(Op::Slash) => "Div",
            Token::Operator(Op::Sup) => "Gt",
            Token::Operator(Op::SupEq) => "Gte",
            Token::Operator(Op::Inf) => "Lt",
            Token::Operator(Op::InfEq) => "Lte",
            Token::Operator(Op::Eq) => "Eq",
            Token::Operator(Op::Neq) => "Neq",
            _ => return Plain::Stuck,
        };
        return both(name, &[&tokens[0..index], &tokens[index + 1..]]);
    }

    if n == 0 {
        return Plain::Stuck;
    }
    let number = |text: &str| match text.parse::<f64>() {
        Ok(x) => Plain::Tree(format!("(num {:?})", x)),
        Err(_) => Plain::Refused(tokens[0].clone()),
    };
    match tokens {
        [Token::Identifier(first), Token::Dot, Token::Identifier(second)] => {
            number(&format!("{first}.{second}"))
        }
        [Token::Identifier(id), Token::Dot] => {
            let digits = id.strip_prefix(['+', '-']).unwrap_or(id);
            if digits.is_empty() || !digits.chars().all(|c| c.is_ascii_digit()) {
                Plain::Refused(tokens[0].clone())
            } else {
                number(id)
            }
        }
        [Token::Identifier(id)] if *id == "true" => Plain::Tree("(bool true)".to_string()),
        [Token::Identifier(id)] if *id == "false" => Plain::Tree("(bool false)".to_string()),
        [Token::Identifier(id)] if id.starts_with(|c: char| c.is_alphabetic()) => {
            Plain::Tree(format!("(var {})", id))
        }
        [Token::Identifier(id)] => number(id),
        _ => Plain::Refused(tokens[0].clone()),
    }
}

fn agree(tokens: &[Token]) {
    let expected = plain(tokens);
    let got = parse(tokens);
    match (&expected, &got) {
        (Plain::Tree(tree), Ok(expr)) => assert_eq!(*tree, show(expr), "tokens {:?}", tokens),
        (Plain::Refused(token), Err(error)) => {
            assert_eq!(*error, SyntaxError::new(token.clone()), "tokens {:?}", tokens)
        }
        (Plain::Stuck, Err(_)) => {}
        _ => panic!("tokens {:?}: {:?} against {:?}", tokens, expected, got),
    }
}

fn alphabet() -> Vec<Token> {
    vec![
        Token::Lambda,
        Token::identifier("x"),
        Token::identifier("1"),
        Token::Dot,
        Token::Parentheses(Paren::Open),
        Token::Parentheses(Paren::Close),
        Token::Colon,
        Token::QuestionMark,
        Token::Operator(Op::Plus),
        Token::Operator(Op::Asterisk),
        Token::Operator(Op::Sup),
        Token::Operator(Op::Not),
    ]
}

#[test]
fn the_parser_agrees_with_a_plain_reading_on_short_slices() {
    let alphabet = alphabet();
    let k = alphabet.len();
    for length in 0..=4usize {
        let mut count = 1usize;
        for _ in 0..length {
            count *= k;
        }
        for code in 0..count {
            let mut tokens = Vec::with_capacity(length);
            let mut rest = code;
            for _ in 0..length {
                tokens.push(alphabet[rest % k].clone());
                rest /= k;
            }
            agree(&tokens);
        }
    }
}

#[test]
fn the_parser_agrees_with_a_plain_reading_on_longer_slices() {
    let mut alphabet = alphabet();
    alphabet.extend([
        Token::identifier("true"),
        Token::identifier("f"),
        Token::identifier("2e3"),
        Token::identifier("inf"),
        Token::identifier("07"),
        Token::Operator(Op::Minus),
        Token::Operator(Op::Slash),
        Token::Operator(Op::SupEq),
        Token::Operator(Op::Inf),
        Token::Operator(Op::InfEq),
        Token::Operator(Op::Eq),
        Token::Operator(Op::Neq),
        Token::Parentheses(Paren::Open),
        Token::Parentheses(Paren::Close),
        Token::identifier("y"),
        Token::identifier("3"),
    ]);
    let mut state: u64 = 0x2545_f491_4f6c_dd1d;
    let mut next = move |bound: usize| {
        state ^= state << 13;
        state ^= state >> 7;
        state ^= state << 17;
        (state % bound as u64) as usize
    };
    for _ in 0..20_000 {
        let length = 5 + next(8);
        let tokens: Vec<Token> = (0..length)
            .map(|_| alphabet[next(alphabet.len())].clone())
            .collect();
        agree(&tokens);
    }
}

#[test]
fn the_parser_agrees_with_a_plain_reading_on_programs() {
    let programs = [
        r"\f.\x. x>2 ? f(x-1) + f(x-2) : 1",
        r"(\f.(\x.f (\v.x x v)) (\x.f (\v.x x v))) (\f.\x. x<2 ? 1 : (f(x-1)) + (f(x-2))) 5",
        r"(\x.\y.x+y) 1 2",
        r"a ? b : c ? d : e",
        r"(a ? b : c) ? (d) : ((e))",
        r"1+2*3-4/5>=6",
        r"f (g x) (h y) 3.5 .",
        r"((((x))))",
        r"(x)(y)(z)",
        r"1.5e3 + 2. * 3",
        r"x.y.z",
        r"\x.(\y.y x) \z.z",
        r"! x",
        r"x ! y",
        r"1 +",
        r"()",
        r"(()",
        r"f ()",
        r"true ? false : 1 = 1",
    ];
    for program in programs {
        agree(&lexer(program).unwrap());
    }
}

/// The tokens of a text, found by splitting at every character that is not
/// alphanumeric.
fn split(prog: &str) -> Result<Vec<Token>, LexerError> {
    if prog.is_empty() {
        return Err(LexerError::EmptyProgramError);
    }
    let mut last = 0;
    let mut res = vec![];
    for (index, matched) in prog.match_indices(|c: char| !c.is_alphanumeric()) {
        let sep = matched.chars().next().unwrap();
        let between = &prog[last..index];
        if !between.is_empty() {
            res.push(Token::identifier(between));
        }
        last = index + sep.len_utf8();
        let token = match sep {
            '\\' => Token::Lambda,
            '.' => Token::Dot,
            '(' => Token::Parentheses(Paren::Open),
            ')' => Token::Parentheses(Paren::Close),
            '?' => Token::QuestionMark,
            ':' => Token::Colon,
            '+' => Token::Operator(Op::Plus),
            '-' => Token::Operator(Op::Minus),
            '*' => Token::Operator(Op::Asterisk),
            '/' => Token::Operator(Op::Slash),
            '>' => Token::Operator(Op::Sup),
            '<' => Token::Operator(Op::Inf),
            '=' => match res.pop() {
                Some(Token::Operator(Op::Sup)) => Token::Operator(Op::SupEq),
                Some(Token::Operator(Op::Inf)) => Token::Operator(Op::InfEq),
                Some(Token::Operator(Op::Not)) => Token::Operator(Op::Neq),
                Some(other) => {
                    res.push(other);
                    Token::Operator(Op::Eq)
                }
                None => Token::Operator(Op::Eq),
            },
            '!' => Token::Operator(Op::Not),
            ' ' => continue,
            other => return Err(LexerError::IllegalCharacterError(other)),
        };
        res.push(token);
    }
    let between = &prog[last..];
    if !between.is_empty() {
        res.push(Token::identifier(between));
    }
    Ok(res)
}

#[test]
fn the_tokenizer_agrees_with_splitting_at_separators() {
    let characters: Vec<char> = r"ab1 \.()?:+-*/><=!#é٣_".chars().collect();
    let mut state: u64 = 0x9e37_79b9_7f4a_7c15;
    let mut next = move |bound: usize| {
        state ^= state << 13;
        state ^= state >> 7;
        state ^= state << 17;
        (state % bound as u64) as usize
    };
    for _ in 0..20_000 {
        let length = next(12);
        let text: String = (0..length)
            .map(|_| characters[next(characters.len())])
            .collect();
        assert_eq!(lexer(&text), split(&text), "text {:?}", text);
    }
    for first in &characters {
        for second in &characters {
            for third in &characters {
                let text: String = [*first, *second, *third].iter().collect();
                assert_eq!(lexer(&text), split(&text), "text {:?}", text);
            }
        }
    }
}
