use template_eval::context::Context;
use template_eval::eval::ComputeExpr;
use template_eval::json::{JsonNumber, JsonValue};
use template_eval::expr::{Eval, Op};
use template_eval::lex::{tokenize, Token};
use template_eval::operand::{Object, Operand};
use template_eval::template::{get_expr, parse_template, Expr};

fn name(n: &str) -> Op {
    Op::Operand(Operand::Object(Object { name: n.to_string() }))
}

fn ops(s: &str) -> Result<Vec<Op>, String> {
    Eval::new(parse_template(s)?).map(|e| e.expr)
}

#[test]
fn tokens_of_a_condition() {
    let toks = tokenize(r#" !a.b&&(x1 <= 42)||"s t" != y_z >= 7 == 0 < 1 > 2 "#).unwrap();
    assert_eq!(
        toks,
        vec![
            Token::Operator(Op::Not),
            Token::Operand(Operand::Object(Object { name: "a.b".to_string() })),
            Token::Operator(Op::And),
            Token::Open,
            Token::Operand(Operand::Object(Object { name: "x1".to_string() })),
            Token::Operator(Op::LessEq),
            Token::Operand(Operand::Number(42)),
            Token::Close,
            Token::Operator(Op::Or),
            Token::Operand(Operand::Literal("s t".to_string())),
            Token::Operator(Op::NotEqual),
            Token::Operand(Operand::Object(Object { name: "y_z".to_string() })),
            Token::Operator(Op::GreaterEq),
            Token::Operand(Operand::Number(7)),
            Token::Operator(Op::Equal),
            Token::Operand(Operand::Number(0)),
            Token::Operator(Op::Less),
            Token::Operand(Operand::Number(1)),
            Token::Operator(Op::Greater),
            Token::Operand(Operand::Number(2)),
        ]
    );
}

#[test]
fn lexical_errors() {
    assert!(tokenize("a & b").is_err());
    assert!(tokenize("a | b").is_err());
    assert!(tokenize("a = b").is_err());
    assert!(tokenize("\"open").is_err());
    assert!(tokenize("1.5").is_err());
    assert!(tokenize("-1").is_err());
    assert!(tokenize("99999999999999999999").is_err());
    assert_eq!(tokenize("9223372036854775807").unwrap(), vec![Token::Operand(Operand::Number(i64::MAX))]);
    assert_eq!(tokenize("").unwrap(), vec![]);
    assert_eq!(tokenize("\"\"").unwrap(), vec![Token::Operand(Operand::Literal(String::new()))]);
}

#[test]
fn template_blocks() {
    assert!(parse_template("a && b").is_err());
    assert!(parse_template("<%%>").is_ok());
    assert!(parse_template("<% a %").is_err());
    assert_eq!(
        get_expr("<% a %>"),
        Expr { tokens: vec![Token::Operand(Operand::Object(Object { name: "a".to_string() }))] }
    );
}

#[test]
fn precedence_and_grouping() {
    // a || b && c groups as a || (b && c)
    assert_eq!(ops("<% a || b && c %>").unwrap(), vec![Op::Or, Op::And, name("c"), name("b"), name("a")]);
    // (a || b) && c
    assert_eq!(ops("<% (a || b) && c %>").unwrap(), vec![Op::And, name("c"), Op::Or, name("b"), name("a")]);
    // a && b && c groups to the left
    assert_eq!(ops("<% a && b && c %>").unwrap(), vec![Op::And, name("c"), Op::And, name("b"), name("a")]);
    // !a == b is (!a) == b
    assert_eq!(ops("<% !a == b %>").unwrap(), vec![Op::Equal, name("b"), Op::Not, name("a")]);
    // comparisons bind tighter than &&
    assert_eq!(
        ops("<% a < b && c %>").unwrap(),
        vec![Op::And, name("c"), Op::Less, name("b"), name("a")]
    );
    // !!a
    assert_eq!(ops("<% !!a %>").unwrap(), vec![Op::Not, Op::Not, name("a")]);
    // ((a))
    assert_eq!(ops("<% ((a)) %>").unwrap(), vec![name("a")]);
}

#[test]
fn syntax_errors() {
    assert!(ops("<% %>").is_err());
    assert!(ops("<% a && %>").is_err());
    assert!(ops("<% (a %>").is_err());
    assert!(ops("<% a) %>").is_err());
    assert!(ops("<% a b %>").is_err());
    assert!(ops("<% && a %>").is_err());
    assert!(ops("<% () %>").is_err());
}

#[test]
fn parentheses_keep_meaning() {
    for body in ["a && b || c", "!a == \"x\"", "a.b <= 3 && (c || !d)", "x"] {
        let plain = ops(&format!("<% {} %>", body)).unwrap();
        let wrapped = ops(&format!("<% ({}) %>", body)).unwrap();
        assert_eq!(plain, wrapped);
    }
}

#[test]
fn parsed_conditions_run_without_stack_errors() {
    let mut context = Context::new(JsonValue::Object(vec![
        ("a".to_string(), JsonValue::Number(JsonNumber::Integer(1))),
        ("s".to_string(), JsonValue::String("t".to_string())),
    ]));
    for body in ["a && missing", "a < s", "!(a == 1) || !s", "((a))", "a >= 1 && s != \"u\""] {
        let eval = Eval::new(get_expr(&format!("<% {} %>", body))).unwrap();
        match eval.run(&mut context) {
            Ok(v) => assert!(matches!(v, Operand::Number(0) | Operand::Number(1))),
            Err(e) => assert!(!e.starts_with("Number of operands") && !e.starts_with("# of operands"), "{}", e),
        }
    }
}
