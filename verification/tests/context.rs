use template_eval::context::Context;
use template_eval::eval::{ComputeExpr, RunError};
use template_eval::expr::{Eval, Op};
use template_eval::json::{JsonNumber, JsonValue};
use template_eval::operand::{Object, Operand};
use template_eval::template::get_expr;

fn integer(n: i64) -> JsonValue {
    JsonValue::Number(JsonNumber::Integer(n))
}

fn string(s: &str) -> JsonValue {
    JsonValue::String(s.to_string())
}

fn object(members: Vec<(&str, JsonValue)>) -> JsonValue {
    JsonValue::Object(members.into_iter().map(|(k, v)| (k.to_string(), v)).collect())
}

/// {"a": 1, "b":0, "c":"abc", "d":"", "e": "def"}
fn flat_context() -> Context {
    Context::new(object(vec![
        ("a", integer(1)),
        ("b", integer(0)),
        ("c", string("abc")),
        ("d", string("")),
        ("e", string("def")),
    ]))
}

fn name(n: &str) -> Vec<Op> {
    vec![Op::Operand(Operand::Object(Object { name: n.to_string() }))]
}

fn num(n: i64) -> Vec<Op> {
    vec![Op::Operand(Operand::Number(n))]
}

fn lit(s: &str) -> Vec<Op> {
    vec![Op::Operand(Operand::Literal(s.to_string()))]
}

/// `left op right`: the operator, then the right operand, then the left.
fn bin(op: Op, left: Vec<Op>, right: Vec<Op>) -> Vec<Op> {
    let mut e = vec![op];
    e.extend(right);
    e.extend(left);
    e
}

fn not(operand: Vec<Op>) -> Vec<Op> {
    let mut e = vec![Op::Not];
    e.extend(operand);
    e
}

fn run(expr: Vec<Op>, context: &mut Context) -> Result<Operand, String> {
    let eval = Eval::from_ops(expr);
    eval.run(context)
}

#[test]
fn compute_and_test() {
    let mut context = flat_context();
    {
        let eval = Eval::new(get_expr(r"<% a && b %>")).unwrap();
        let result = eval.run(&mut context);
        assert_eq!(result.unwrap(), Operand::Number(0));
    }
    {
        let eval = Eval::new(get_expr(r"<% c && d %>")).unwrap();
        let result = eval.run(&mut context);
        assert_eq!(result.unwrap(), Operand::Number(0));
    }
    {
        let eval = Eval::new(get_expr(r"<% c && e %>")).unwrap();
        let result = eval.run(&mut context);
        assert_eq!(result.unwrap(), Operand::Number(1));
    }
}

#[test]
fn compute_or_test() {
    let mut context = flat_context();
    {
        let eval = Eval::new(get_expr(r"<% (a && b) || (c && e) %>")).unwrap();
        let result = eval.run(&mut context);
        assert_eq!(result.unwrap(), Operand::Number(1));
    }
    {
        let eval = Eval::new(get_expr(r"<% (a && b) || (c && d) %>")).unwrap();
        let result = eval.run(&mut context);
        assert_eq!(result.unwrap(), Operand::Number(0));
    }
    {
        let eval = Eval::new(get_expr(r"<% c || e %>")).unwrap();
        let result = eval.run(&mut context);
        assert_eq!(result.unwrap(), Operand::Number(1));
    }
}

#[test]
fn compute_complex() {
    let mut context = flat_context();
    {
        let eval = Eval::new(get_expr(r"<% !a && ((b != a) || c <= e) %>")).unwrap();
        let result = eval.run(&mut context);
        assert_eq!(result.unwrap(), Operand::Number(0));
    }
    {
        let eval = Eval::new(get_expr(r"<% !b && ((b != a) || c <= e && !d) %>")).unwrap();
        let result = eval.run(&mut context);
        assert_eq!(result.unwrap(), Operand::Number(1));
    }
    {
        let eval = Eval::new(get_expr(
            r#"<% (a == 1) && (b == 0) && (c == "abc") && !d && e == "def" %>"#,
        ))
        .unwrap();
        let result = eval.run(&mut context);
        assert_eq!(result.unwrap(), Operand::Number(1));
    }
}

#[test]
fn compute_complex_object_name() {
    // {"a": {"b" : 2, "c" : {"d" : 3 }}, "b" : 1}
    let mut context = Context::new(object(vec![
        ("a", object(vec![("b", integer(2)), ("c", object(vec![("d", integer(3))]))])),
        ("b", integer(1)),
    ]));
    {
        let eval = Eval::new(get_expr(r"<% a.b %>")).unwrap();
        let result = eval.run(&mut context);
        assert_eq!(result.unwrap(), Operand::Number(2));
    }
    {
        let eval = Eval::new(get_expr(r"<% a.c.d %>")).unwrap();
        let result = eval.run(&mut context);
        assert_eq!(result.unwrap(), Operand::Number(3));
    }
    {
        let eval = Eval::new(get_expr(r#"<% b %>"#)).unwrap();
        let result = eval.run(&mut context);
        assert_eq!(result.unwrap(), Operand::Number(1));
    }
}

#[test]
fn hand_built_expressions_match_parsed_ones() {
    let mut context = flat_context();
    // !b && ((b != a) || c <= e && !d)
    let e = bin(
        Op::And,
        not(name("b")),
        bin(
            Op::Or,
            bin(Op::NotEqual, name("b"), name("a")),
            bin(Op::And, bin(Op::LessEq, name("c"), name("e")), not(name("d"))),
        ),
    );
    let parsed = Eval::new(get_expr(r"<% !b && ((b != a) || c <= e && !d) %>")).unwrap();
    assert_eq!(parsed.expr, e);
    assert_eq!(run(e, &mut context).unwrap(), Operand::Number(1));
    // a && b is [And, b, a]
    assert_eq!(Eval::new(get_expr("<%a&&b%>")).unwrap().expr, bin(Op::And, name("a"), name("b")));
}

#[test]
fn run_missing_name_is_an_error() {
    let mut context = flat_context();
    let err = run(bin(Op::And, name("a"), name("zz")), &mut context).unwrap_err();
    assert_eq!(err, "Mapping not exist [\"zz\"]");
    let err = run(name("a.x"), &mut context).unwrap_err();
    assert_eq!(err, "Mapping not exist : a.x at x");
}

#[test]
fn run_too_few_operands() {
    let mut context = flat_context();
    let err = run(vec![Op::And, Op::Operand(Operand::Number(1))], &mut context).unwrap_err();
    assert_eq!(err, "Number of operands for And is less than 2");
    let err = run(vec![Op::Not], &mut context).unwrap_err();
    assert_eq!(err, "Number of operands for Not is less than 1");
}

#[test]
fn run_leftover_operands() {
    let mut context = flat_context();
    let err = run(vec![], &mut context).unwrap_err();
    assert_eq!(err, "# of operands after computing is not zero. []");
    let mut e = num(1);
    e.extend(num(2));
    let err = run(e, &mut context).unwrap_err();
    assert_eq!(err, "# of operands after computing is not zero. [Number(2), Number(1)]");
}

#[test]
fn run_type_mismatch() {
    let mut context = flat_context();
    let err = run(bin(Op::Less, name("a"), name("c")), &mut context).unwrap_err();
    assert_eq!(err, "Type mismatch : Number(1) Literal(\"abc\")");
}

#[test]
fn evaluate_gives_up_on_structured_values() {
    let mut context = Context::new(object(vec![
        ("list", JsonValue::Array(vec![integer(1)])),
        ("nothing", JsonValue::Null),
        ("one", integer(1)),
    ]));
    let eval = Eval::from_ops(name("list"));
    assert!(matches!(eval.evaluate(&mut context), Err(RunError::NotScalar)));
    let eval = Eval::from_ops(bin(Op::And, name("one"), name("nothing")));
    assert!(matches!(eval.evaluate(&mut context), Err(RunError::NotScalar)));
    // The left operand is looked up first: its error comes before the right one is resolved.
    let eval = Eval::from_ops(bin(Op::And, name("missing"), name("nothing")));
    assert!(matches!(eval.evaluate(&mut context), Err(RunError::Message(_))));
}

#[test]
fn run_single_operand_is_its_value() {
    let mut context = flat_context();
    assert_eq!(run(lit("x"), &mut context).unwrap(), Operand::Literal("x".to_string()));
    assert_eq!(run(name("c"), &mut context).unwrap(), Operand::Literal("abc".to_string()));
}

#[test]
fn booleans_of_the_context_are_numbers() {
    let mut context = Context::new(object(vec![("t", JsonValue::Bool(true)), ("f", JsonValue::Bool(false))]));
    assert_eq!(run(name("t"), &mut context).unwrap(), Operand::Number(1));
    assert_eq!(run(name("f"), &mut context).unwrap(), Operand::Number(0));
    assert_eq!(run(bin(Op::Or, name("t"), name("f")), &mut context).unwrap(), Operand::Number(1));
}

#[test]
fn get_value_walks_dotted_names() {
    let context = Context::new(object(vec![
        ("a", object(vec![("b", integer(2)), ("c", object(vec![("d", integer(3))]))])),
        ("b", integer(1)),
    ]));
    assert!(matches!(context.get_value("a.c.d"), Ok(JsonValue::Number(JsonNumber::Integer(3)))));
    assert!(matches!(context.get_value("a.c"), Ok(JsonValue::Object(_))));
    assert_eq!(context.get_value("a.c.e").unwrap_err(), "Mapping not exist : a.c.e at e");
    assert_eq!(context.get_value("a.b.c").unwrap_err(), "Mapping not exist : a.b.c at c");
    assert_eq!(context.get_value("x.y").unwrap_err(), "Mapping not exist [\"x\", \"y\"]");
    assert_eq!(context.get_value("").unwrap_err(), "Mapping not exist [\"\"]");
    assert_eq!(context.get_value("a.").unwrap_err(), "Mapping not exist : a. at ");
}

#[test]
fn dotted_lookup_composes() {
    let context = Context::new(object(vec![
        ("a", object(vec![("b", integer(2)), ("c", object(vec![("d", integer(3))]))])),
        ("b", integer(1)),
    ]));
    let inner = match context.get_value("a.c") {
        Ok(JsonValue::Object(members)) => Context::new(JsonValue::Object(
            members.iter().map(|(k, v)| (k.clone(), match v {
                JsonValue::Number(JsonNumber::Integer(n)) => integer(*n),
                _ => JsonValue::Null,
            })).collect(),
        )),
        _ => panic!("a.c is an object"),
    };
    assert!(matches!(inner.get_value("d"), Ok(JsonValue::Number(JsonNumber::Integer(3)))));
    assert!(matches!(context.get_value("a.c.d"), Ok(JsonValue::Number(JsonNumber::Integer(3)))));
}

#[test]
fn errors_of_a_run_are_stated_texts() {
    let mut context = flat_context();
    // The left expression is evaluated first: its error is the result.
    let e = bin(Op::And, bin(Op::Less, name("a"), name("c")), name("zz"));
    assert_eq!(run(e, &mut context).unwrap_err(), "Type mismatch : Number(1) Literal(\"abc\")");
    // A missing name is reported by the operator that resolves it.
    let e = bin(Op::Or, name("zz"), bin(Op::Less, name("a"), name("c")));
    assert_eq!(run(e, &mut context).unwrap_err(), "Type mismatch : Number(1) Literal(\"abc\")");
    let e = bin(Op::Or, name("zz"), name("a"));
    assert_eq!(run(e, &mut context).unwrap_err(), "Mapping not exist [\"zz\"]");
    let e = not(name("q\"q"));
    assert_eq!(run(e, &mut context).unwrap_err(), "Mapping not exist [\"q\\\"q\"]");
    let e = vec![Op::Operand(Operand::Number(1)), Op::Operand(Operand::Literal("x".to_string()))];
    assert_eq!(
        run(e, &mut context).unwrap_err(),
        "# of operands after computing is not zero. [Literal(\"x\"), Number(1)]"
    );
}

#[test]
fn running_twice_gives_the_same_result() {
    let mut context = flat_context();
    for expr in [
        bin(Op::And, name("a"), name("e")),
        bin(Op::Less, name("a"), name("c")),
        name("a.b.c"),
        vec![Op::Or],
    ] {
        let eval = Eval::from_ops(expr);
        let first = eval.run(&mut context);
        let second = eval.run(&mut context);
        assert_eq!(first, second);
    }
    assert!(matches!(context.get_value("a"), Ok(JsonValue::Number(JsonNumber::Integer(1)))));
}

#[test]
fn first_member_with_a_key_wins() {
    let value = object(vec![("k", integer(1)), ("other", integer(2)), ("k", integer(3))]);
    assert!(matches!(value.get("k"), Some(JsonValue::Number(JsonNumber::Integer(1)))));
    let distinct = object(vec![("x", integer(1)), ("y", integer(2)), ("z", integer(3))]);
    assert!(matches!(distinct.get("z"), Some(JsonValue::Number(JsonNumber::Integer(3)))));
    assert!(distinct.get("w").is_none());
}
