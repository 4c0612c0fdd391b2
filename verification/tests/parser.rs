//! Parser behaviour: literals, identifiers, nesting, and the failure modes.

use askql::askcode::AskCode;
use askql::askcode::AskCodeOrValue;
use askql::parse::parse;
use askql::reduce::ParseError;
use askql::reduce::Parser;
use askql::askcode::AskCodeReducer;
use askql::value::Number;
use askql::value::Value;

#[test]
fn test_empty_program() {
    let repl = parse("".to_string());
    assert!(repl.is_err());
    assert_eq!(repl.err().unwrap(), ParseError::EmptyProgram)
}

#[test]
fn test_single_quote_string() {
    let repl = parse("'HelloWorld!'".to_string());
    assert!(repl.is_ok());
    assert_eq!(
        repl.unwrap(),
        AskCodeOrValue::new_value(Value::String("HelloWorld!".to_string()))
    );
}

#[test]
fn test_double_quote_string() {
    let repl = parse(r#""HelloWorld!""#.to_string());
    assert!(repl.is_ok());
    assert_eq!(
        repl.unwrap(),
        AskCodeOrValue::new_value(Value::String("HelloWorld!".to_string()))
    );
}

#[test]
fn test_int_number() {
    let repl = parse("4".to_string());
    assert!(repl.is_ok());
    assert_eq!(
        repl.unwrap(),
        AskCodeOrValue::new_value(Value::Number(Number("4".to_string())))
    );
}

#[test]
fn test_float_number() {
    let repl = parse("4.2".to_string());
    assert!(repl.is_ok());
    assert_eq!(
        repl.unwrap(),
        AskCodeOrValue::new_value(Value::Number(Number("4.2".to_string())))
    );
}

#[test]
fn test_expression() {
    let repl = parse("scorePerPhilosopher".to_string());
    assert!(repl.is_ok());
    assert_eq!(
        repl.unwrap(),
        AskCodeOrValue::new_ask_code(AskCode::new("scorePerPhilosopher".to_string(), None))
    );
}

#[test]
fn test_nested_expression() {
    let repl = parse("max(scorePerPhilosopher)".to_string());
    assert!(repl.is_ok());
    let score_per_philosopher =
        AskCodeOrValue::new_ask_code(AskCode::new("scorePerPhilosopher".to_string(), None));
    let max = AskCodeOrValue::new_ask_code(AskCode::new(
        "max".to_string(),
        Some(vec![score_per_philosopher]),
    ));
    assert_eq!(repl.unwrap(), max);
}

#[test]
fn reduce_it_works() {
    assert_eq!(2 + 2, 4);
}

#[test]
fn empty_invocation_parses() {
    let repl = parse("f()".to_string());
    assert_eq!(
        repl.unwrap(),
        AskCodeOrValue::new_ask_code(AskCode::new("f".to_string(), Some(vec![])))
    );
}

#[test]
fn whitespace_is_skipped() {
    let repl = parse("  max( a ,\n b )  ".to_string());
    let a = AskCodeOrValue::new_ask_code(AskCode::new("a".to_string(), None));
    let b = AskCodeOrValue::new_ask_code(AskCode::new("b".to_string(), None));
    assert_eq!(
        repl.unwrap(),
        AskCodeOrValue::new_ask_code(AskCode::new("max".to_string(), Some(vec![a, b])))
    );
}

#[test]
fn list_literal_parses_to_list_node() {
    let repl = parse("[1,2]".to_string());
    let one = AskCodeOrValue::new_value(Value::Number(Number("1".to_string())));
    let two = AskCodeOrValue::new_value(Value::Number(Number("2".to_string())));
    assert_eq!(
        repl.unwrap(),
        AskCodeOrValue::new_ask_code(AskCode::new("list".to_string(), Some(vec![one, two])))
    );
}

#[test]
fn object_literal_alternates_separators() {
    let repl = parse("{'a':1,'b':2}".to_string());
    let a = AskCodeOrValue::new_value(Value::String("a".to_string()));
    let one = AskCodeOrValue::new_value(Value::Number(Number("1".to_string())));
    let b = AskCodeOrValue::new_value(Value::String("b".to_string()));
    let two = AskCodeOrValue::new_value(Value::Number(Number("2".to_string())));
    assert_eq!(
        repl.unwrap(),
        AskCodeOrValue::new_ask_code(AskCode::new(
            "object".to_string(),
            Some(vec![a, one, b, two])
        ))
    );
}

#[test]
fn missing_close_paren_is_expecting() {
    let repl = parse("max(".to_string());
    assert_eq!(repl.err().unwrap(), ParseError::Expecting(')'));
}

#[test]
fn trailing_input_is_unknown() {
    let repl = parse("4 x".to_string());
    assert!(matches!(repl.err().unwrap(), ParseError::Unknown(_)));
}

#[test]
fn unterminated_string_is_unknown() {
    let repl = parse("'abc".to_string());
    assert!(matches!(repl.err().unwrap(), ParseError::Unknown(_)));
}

#[test]
fn escaped_quote_stays_in_string() {
    let repl = parse(r"'a\'b'".to_string());
    assert_eq!(
        repl.unwrap(),
        AskCodeOrValue::new_value(Value::String(r"a\'b".to_string()))
    );
}

#[test]
fn step_budget_is_enforced() {
    let mut parser = Parser::new("max(1,2,3)".to_string(), Some(3));
    let out: Result<AskCodeOrValue, ParseError> = parser.reduce(AskCodeReducer {});
    assert_eq!(out.err().unwrap(), ParseError::ExceedMaxStpes(3));
}

#[test]
fn budget_large_enough_succeeds() {
    let mut parser = Parser::new("max(1)".to_string(), Some(100));
    let out: Result<AskCodeOrValue, ParseError> = parser.reduce(AskCodeReducer {});
    assert!(out.is_ok());
}
