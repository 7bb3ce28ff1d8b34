use antigen::expression::eval::{checked_pow, EvalTrait};
use antigen::expression::expression::{Expression, TokenExpression};
use antigen::expression::op_types::{Add, Var};
use antigen::expression::parse::{
    expression_parses, parse_expression, parse_expression_impl, try_parse_expression,
};
use antigen::expression::token::{parse_tokens, Token};
use antigen::expression::tree::{parse_function, parse_operator, try_parse_expression_impl, FnKind, OpKind};
use antigen::expression::variables::Variables;

fn val(s: &str) -> Box<Expression<String>> {
    Box::new(Expression::Val(s.to_string()))
}

fn ident(s: &str) -> Box<Expression<String>> {
    Box::new(Expression::Ident(s.to_string()))
}

fn num(n: u32) -> Box<Expression<u32>> {
    Box::new(Expression::Val(n))
}

fn var(s: &str) -> Box<Expression<u32>> {
    Box::new(Expression::Ident(s.to_string()))
}

fn vars() -> Variables<u32> {
    let mut v = Variables::new();
    v.insert("x".to_string(), 2);
    v.insert("y".to_string(), 4);
    v.insert("z".to_string(), 6);
    v
}

#[test]
fn tokens_of_the_example_expression() {
    let tokens = parse_tokens("sin(1 + x) - cos(3 * y) / tan(5 ^ z)").unwrap();
    assert_eq!(
        tokens,
        vec![
            Token::Sin,
            Token::OpenBracket,
            Token::Number("1".to_string()),
            Token::Add,
            Token::Var("x".to_string()),
            Token::CloseBracket,
            Token::Sub,
            Token::Cos,
            Token::OpenBracket,
            Token::Number("3".to_string()),
            Token::Mul,
            Token::Var("y".to_string()),
            Token::CloseBracket,
            Token::Div,
            Token::Tan,
            Token::OpenBracket,
            Token::Number("5".to_string()),
            Token::Pow,
            Token::Var("z".to_string()),
            Token::CloseBracket,
        ]
    );
}

#[test]
fn tokens_keep_number_literals_whole() {
    let tokens = parse_tokens("1.5e3*2").unwrap();
    assert_eq!(
        tokens,
        vec![Token::Number("1.5e3".to_string()), Token::Mul, Token::Number("2".to_string())]
    );
}

#[test]
fn tokens_malformed_exponent_is_rejected() {
    assert_eq!(parse_tokens("1e"), None);
    assert_eq!(parse_tokens("2 + 1e+"), None);
}

#[test]
fn tokens_infinity_literal_reads_as_number() {
    let tokens = parse_tokens("inf").unwrap();
    assert_eq!(tokens, vec![Token::Number("inf".to_string())]);
}

#[test]
fn tokens_stop_at_unknown_character() {
    let tokens = parse_tokens("x + y # z").unwrap();
    assert_eq!(
        tokens,
        vec![Token::Var("x".to_string()), Token::Add, Token::Var("y".to_string())]
    );
    assert_eq!(parse_tokens("# x"), None);
    assert_eq!(parse_tokens(""), None);
}

#[test]
fn tokens_sign_is_an_operator() {
    let tokens = parse_tokens("1-2").unwrap();
    assert_eq!(
        tokens,
        vec![Token::Number("1".to_string()), Token::Sub, Token::Number("2".to_string())]
    );
}

#[test]
fn parse_example_expression() {
    let e = parse_expression("sin(1 + x) - cos(3 * y) / tan(5 ^ z)");
    let expected = Expression::Sub(
        Box::new(Expression::Sin(Box::new(Expression::Add(val("1"), ident("x"))))),
        Box::new(Expression::Div(
            Box::new(Expression::Cos(Box::new(Expression::Mul(val("3"), ident("y"))))),
            Box::new(Expression::Tan(Box::new(Expression::Pow(val("5"), ident("z"))))),
        )),
    );
    assert_eq!(e, expected);
}

#[test]
fn parse_operator_precedence() {
    // Powers bind first, then division, multiplication, addition, subtraction.
    let e = parse_expression("1 + 2 * 3 ^ 4");
    let expected = Expression::Add(
        val("1"),
        Box::new(Expression::Mul(val("2"), Box::new(Expression::Pow(val("3"), val("4"))))),
    );
    assert_eq!(e, expected);
    let e = parse_expression("8 - 2 - 1");
    let expected = Expression::Sub(Box::new(Expression::Sub(val("8"), val("2"))), val("1"));
    assert_eq!(e, expected);
}

#[test]
fn parse_brackets_group() {
    let e = parse_expression("(1 + 2) * 3");
    let expected = Expression::Mul(Box::new(Expression::Add(val("1"), val("2"))), val("3"));
    assert_eq!(e, expected);
}

#[test]
fn parse_failures() {
    assert!(!expression_parses("+ 1"));
    assert!(try_parse_expression("+ 1").is_none());
    assert!(try_parse_expression("1 +").is_none());
    assert!(try_parse_expression("sin").is_none());
    assert!(try_parse_expression("1e").is_none());
    assert!(expression_parses("x"));
    assert_eq!(try_parse_expression("x"), Some(Expression::Ident("x".to_string())));
}

#[test]
fn parse_expression_impl_on_token_expressions() {
    let tokens: Vec<TokenExpression<u32>> = vec![
        TokenExpression::from_expression(Expression::Val(2)),
        TokenExpression::from_token(Token::Mul),
        TokenExpression::from_expression(Expression::Val(3)),
    ];
    let e = parse_expression_impl(tokens);
    assert_eq!(e, Expression::Mul(num(2), num(3)));
    let bad: Vec<TokenExpression<u32>> = vec![TokenExpression::from_token(Token::Mul)];
    assert!(try_parse_expression_impl(bad).is_none());
}

#[test]
fn parse_function_and_operator_steps() {
    let mut ts: Vec<TokenExpression<u32>> = vec![
        TokenExpression::Token(Token::Sin),
        TokenExpression::Expression(Expression::Val(1)),
    ];
    assert!(parse_function(&mut ts, FnKind::Sin));
    assert_eq!(ts, vec![TokenExpression::Expression(Expression::Sin(num(1)))]);

    let mut ts: Vec<TokenExpression<u32>> = vec![
        TokenExpression::Expression(Expression::Val(1)),
        TokenExpression::Token(Token::Add),
        TokenExpression::Expression(Expression::Val(2)),
        TokenExpression::Token(Token::Add),
        TokenExpression::Expression(Expression::Val(3)),
    ];
    assert!(parse_operator(&mut ts, OpKind::Add));
    assert_eq!(
        ts,
        vec![TokenExpression::Expression(Expression::Add(
            Box::new(Expression::Add(num(1), num(2))),
            num(3)
        ))]
    );
}

#[test]
fn eval_constructed_expression() {
    // 1 + x - (3 * y) / 5 with x = 2, y = 4: 3 - 12 / 5 = 3 - 2 = 1
    let e = Expression::Sub(
        Box::new(Expression::Add(num(1), var("x"))),
        Box::new(Expression::Div(Box::new(Expression::Mul(num(3), var("y"))), num(5))),
    );
    let ctx = vars();
    assert_eq!(e.try_eval(&ctx), Some(1));
    assert_eq!(e.eval(&ctx), 1);
}

#[test]
fn eval_power() {
    let e = Expression::Pow(num(2), var("z"));
    assert_eq!(e.try_eval(&vars()), Some(64));
    assert_eq!(checked_pow(3, 4), Some(81));
    assert_eq!(checked_pow(7, 0), Some(1));
    assert_eq!(checked_pow(2, 32), None);
    assert_eq!(checked_pow(2, 31), Some(2147483648));
}

#[test]
fn eval_failures() {
    let ctx = vars();
    assert_eq!(Expression::Div(num(1), num(0)).try_eval(&ctx), None);
    assert_eq!(Expression::Sub(num(1), num(2)).try_eval(&ctx), None);
    assert_eq!(Expression::Add(num(u32::MAX), num(1)).try_eval(&ctx), None);
    assert_eq!(Expression::Mul(num(65536), num(65536)).try_eval(&ctx), None);
    assert_eq!(Expression::Ident::<u32>("w".to_string()).try_eval(&ctx), None);
    assert_eq!(Expression::Sin(num(0)).try_eval(&ctx), None);
    assert_eq!(Expression::Cos(num(0)).try_eval(&ctx), None);
    assert_eq!(Expression::Tan(num(0)).try_eval(&ctx), None);
}

#[test]
fn eval_op_types() {
    let ctx = vars();
    assert_eq!(Add(1u32, 2u32).eval(&ctx), 3);
    assert_eq!(Add(Add(1u32, 2u32), 4u32).eval(&ctx), 7);
    assert_eq!(Var("y".to_string()).eval(&ctx), 4u32);
    assert_eq!(5u32.eval(&ctx), 5);
    assert_eq!((-5i32).eval(&ctx), -5);
}

#[test]
fn variables_read_after_write() {
    let mut v: Variables<u32> = Variables::new();
    assert_eq!(v.get(&"a".to_string()), None);
    v.insert("a".to_string(), 1);
    v.insert("b".to_string(), 2);
    assert_eq!(v.get(&"a".to_string()), Some(&1));
    v.insert("a".to_string(), 3);
    assert_eq!(v.get(&"a".to_string()), Some(&3));
    assert_eq!(v.get(&"b".to_string()), Some(&2));
}

#[test]
fn parse_bracket_quirks() {
    // Inner opening brackets are skipped while a group is collected, so a
    // nested group ends the outer one early.
    assert_eq!(try_parse_expression("((1))"), Some(Expression::Val("1".to_string())));
    assert!(try_parse_expression("(1 + (2)) * 3").is_none());
    // Only the first finished expression is taken.
    assert_eq!(try_parse_expression("1 2"), Some(Expression::Val("1".to_string())));
}

fn eval_f32(e: &Expression<String>, vars: &std::collections::BTreeMap<&str, f32>) -> f32 {
    match e {
        Expression::Val(v) => v.parse::<f32>().unwrap(),
        Expression::Ident(k) => vars[k.as_str()],
        Expression::Add(l, r) => eval_f32(l, vars) + eval_f32(r, vars),
        Expression::Sub(l, r) => eval_f32(l, vars) - eval_f32(r, vars),
        Expression::Mul(l, r) => eval_f32(l, vars) * eval_f32(r, vars),
        Expression::Div(l, r) => eval_f32(l, vars) / eval_f32(r, vars),
        Expression::Pow(l, r) => eval_f32(l, vars).powf(eval_f32(r, vars)),
        Expression::Sin(v) => eval_f32(v, vars).sin(),
        Expression::Cos(v) => eval_f32(v, vars).cos(),
        Expression::Tan(v) => eval_f32(v, vars).tan(),
    }
}

#[test]
fn test_expression() {
    let vars = [("x", 2.0f32), ("y", 4.0), ("z", 6.0)]
        .into_iter()
        .collect::<std::collections::BTreeMap<_, _>>();

    let built = Expression::Sub(
        Box::new(Expression::Add(val("1"), ident("x"))),
        Box::new(Expression::Div(Box::new(Expression::Mul(val("3"), ident("y"))), val("5"))),
    );
    let result = eval_f32(&built, &vars);
    println!("Result: {}", result);
    assert!((result - (1.0 + 2.0 - 12.0 / 5.0)).abs() < 1e-6);

    let expression = parse_expression("sin(1 + x) - cos(3 * y) / tan(5 ^ z)");
    println!("Expression: {:#?}", expression);
    let result = eval_f32(&expression, &vars);
    println!("Result: {}", result);
    let expected = (1.0f32 + 2.0).sin() - (3.0f32 * 4.0).cos() / (5.0f32).powf(6.0).tan();
    assert_eq!(result, expected);
}

#[test]
fn tokens_number_words_in_any_case() {
    assert_eq!(parse_tokens("NaN").unwrap(), vec![Token::Number("NaN".to_string())]);
    assert_eq!(
        parse_tokens("infinity").unwrap(),
        vec![Token::Number("inf".to_string()), Token::Var("inity".to_string())]
    );
    assert_eq!(
        parse_tokens(".5+7.").unwrap(),
        vec![Token::Number(".5".to_string()), Token::Add, Token::Number("7.".to_string())]
    );
}
