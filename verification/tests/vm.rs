//! End-to-end evaluation: arithmetic, strings, projection, scoping, and the
//! failure modes.

use askql::askcode::AskCode;
use askql::askcode::AskCodeOrValue;
use askql::parse::parse;
use askql::resources::AskResource;
use askql::resources::CallResource;
use askql::resources::ConcatResource;
use askql::resources::EqualsResource;
use askql::resources::FragmentResource;
use askql::resources::GetResource;
use askql::resources::ListResource;
use askql::resources::MaxResource;
use askql::resources::MinusResource;
use askql::resources::NodeResource;
use askql::resources::QueryResource;
use askql::resources::SumResource;
use askql::resources::TimesResource;
use askql::resources::ToLowerCaseResource;
use askql::resources::ToUpperCaseResource;
use askql::run::AskVm;
use askql::run::EvalError;
use askql::run::RunOptions;
use askql::value::Value;

fn new_vm(values: Vec<(String, AskCodeOrValue)>) -> AskVm {
    let mut run_options = RunOptions::new(vec![], values);
    run_options.register(AskResource);
    run_options.register(CallResource);
    run_options.register(GetResource);
    run_options.register(SumResource);
    run_options.register(MinusResource);
    run_options.register(TimesResource);
    run_options.register(ConcatResource);
    run_options.register(MaxResource);
    run_options.register(ListResource);
    run_options.register(NodeResource);
    run_options.register(QueryResource::new());
    run_options.register(FragmentResource);
    run_options.register(ToLowerCaseResource);
    run_options.register(ToUpperCaseResource);
    run_options.register(EqualsResource);
    AskVm::new(run_options)
}

fn eval(vm: &AskVm, source: &str) -> Result<Value, EvalError> {
    let code = parse(source.to_string()).unwrap();
    vm.run(code, None, None)
}

#[test]
fn basic_run() {
    let vm = new_vm(vec![]);
    let code = AskCodeOrValue::Value(Value::Null);
    assert_eq!(vm.run(code, None, None), Ok(Value::Null))
}

#[test]
fn sum_operation() {
    let vm = new_vm(vec![]);
    let result = eval(&vm, "ask(call(get('+'),2,3,4,5.2))");
    assert_eq!(Ok(Value::Float(14.2f32.to_bits())), result);
}

#[test]
fn minus_operation() {
    let vm = new_vm(vec![]);
    let result = eval(&vm, "ask(call(get('-'),-2,3,4,5.2))");
    assert_eq!(Ok(Value::Float((-14.2f32).to_bits())), result);
}

#[test]
fn chained_operation() {
    let vm = new_vm(vec![]);
    let result = eval(
        &vm,
        "ask(call(get('+'), call(get('-'),-2,3,4,5.2), call(get('+'),2,3,4,5.2)))",
    );
    assert_eq!(Ok(Value::Float(0.0f32.to_bits())), result);
}

#[test]
fn complex_test() {
    let mut values = Vec::new();
    values.push((
        "firstName".to_string(),
        AskCodeOrValue::new_value(Value::String("PrimeiroNome".to_string())),
    ));
    values.push((
        "lastName".to_string(),
        AskCodeOrValue::new_value(Value::String("SecondName".to_string())),
    ));
    let friends = vec![
        friend(1, "Friend 1", "1"),
        friend(2, "Friend 2", "2"),
        friend(3, "Friend 3", "3"),
    ];
    values.push((
        "friends".to_string(),
        AskCodeOrValue::new_value(Value::List(friends)),
    ));
    let vm = new_vm(values);
    let result = eval(
        &vm,
        "ask(query(node('firstName',f(call(get('concat'),call(get('toLowerCase'),get('firstName')),' ','is my ','name')))))",
    );
    let object_result = vec![(
        "firstName".to_string(),
        Value::String("primeironome is my name".to_string()),
    )];
    assert_eq!(Ok(Value::Object(object_result)), result);
}

fn friend(id: i32, first: &str, last: &str) -> Value {
    Value::Object(vec![
        ("firstName".to_string(), Value::String(first.to_string())),
        ("id".to_string(), Value::Int(id)),
        ("lastName".to_string(), Value::String(last.to_string())),
    ])
}

#[test]
fn projection_over_list() {
    let friends = vec![friend(1, "Friend 1", "1"), friend(2, "Friend 2", "2")];
    let values = vec![(
        "friends".to_string(),
        AskCodeOrValue::new_value(Value::List(friends)),
    )];
    let vm = new_vm(values);
    let result = eval(
        &vm,
        "ask(node('value',friends,node('firstName',f(call(get('concat'),call(get('toLowerCase'),get('firstName')),' is my name')))))",
    );
    let expected = Value::List(vec![
        Value::Object(vec![(
            "firstName".to_string(),
            Value::String("friend 1 is my name".to_string()),
        )]),
        Value::Object(vec![(
            "firstName".to_string(),
            Value::String("friend 2 is my name".to_string()),
        )]),
    ]);
    assert_eq!(Ok(expected), result);
}

#[test]
fn number_evaluation() {
    let vm = new_vm(vec![]);
    let four = parse("4".to_string()).unwrap();
    assert_eq!(vm.run(four, None, None), Ok(Value::Int(4)));
    let four_point_two = parse("4.2".to_string()).unwrap();
    assert_eq!(
        vm.run(four_point_two, None, None),
        Ok(Value::Float(4.2f32.to_bits()))
    );
}

#[test]
fn projected_keys_are_sorted() {
    let vm = new_vm(vec![]);
    let result = eval(&vm, "ask(query(node('b',f(1)),node('a',f(2))))");
    let expected = Value::Object(vec![
        ("a".to_string(), Value::Int(2)),
        ("b".to_string(), Value::Int(1)),
    ]);
    assert_eq!(Ok(expected), result);
}

#[test]
fn times_operation() {
    let vm = new_vm(vec![]);
    assert_eq!(eval(&vm, "ask(call(get('*'),2,3,4))"), Ok(Value::Int(24)));
}

#[test]
fn max_flattens_nested_lists() {
    let vm = new_vm(vec![]);
    assert_eq!(eval(&vm, "ask(call(get('max'),1,[2,5],3))"), Ok(Value::Int(5)));
}

#[test]
fn max_of_nothing_is_null() {
    let vm = new_vm(vec![]);
    assert_eq!(eval(&vm, "ask(call(get('max')))"), Ok(Value::Null));
}

#[test]
fn concat_stringifies_numbers() {
    let vm = new_vm(vec![]);
    assert_eq!(
        eval(&vm, "ask(call(get('concat'),'a',1,'b'))"),
        Ok(Value::String("a1b".to_string()))
    );
}

#[test]
fn concat_renders_floats() {
    let vm = new_vm(vec![]);
    assert_eq!(
        eval(&vm, "ask(call(get('concat'),'x',2.5))"),
        Ok(Value::String("x2.5".to_string()))
    );
}

#[test]
fn case_conversion() {
    let vm = new_vm(vec![]);
    assert_eq!(
        eval(&vm, "ask(call(get('toUpperCase'),'abc'))"),
        Ok(Value::String("ABC".to_string()))
    );
    assert_eq!(
        eval(&vm, "ask(call(get('toLowerCase'),'AbC'))"),
        Ok(Value::String("abc".to_string()))
    );
}

#[test]
fn equals_compares_neighbours() {
    let vm = new_vm(vec![]);
    assert_eq!(
        eval(&vm, "ask(call(get('equals'),1,1))"),
        Ok(Value::Boolean(true))
    );
    assert_eq!(
        eval(&vm, "ask(call(get('equals'),1,2))"),
        Ok(Value::Boolean(false))
    );
}

#[test]
fn list_resource_wraps_arguments() {
    let vm = new_vm(vec![]);
    assert_eq!(
        eval(&vm, "[1,2]"),
        Ok(Value::List(vec![Value::Int(1), Value::Int(2)]))
    );
}

#[test]
fn unknown_identifier_is_reported() {
    let vm = new_vm(vec![]);
    assert_eq!(
        eval(&vm, "nosuchthing"),
        Err(EvalError::UnknownIdentifier("nosuchthing".to_string()))
    );
}

#[test]
fn malformed_projection_field_is_reported() {
    let vm = new_vm(vec![]);
    let code = AskCodeOrValue::new_ask_code(AskCode::new(
        "node".to_string(),
        Some(vec![
            AskCodeOrValue::new_value(Value::String("value".to_string())),
            AskCodeOrValue::new_value(Value::Object(vec![])),
            AskCodeOrValue::new_value(Value::String("oops".to_string())),
        ]),
    ));
    assert_eq!(
        vm.run(code, None, None),
        Err(EvalError::MalformedProjectionField)
    );
}

#[test]
fn self_reference_exhausts_depth() {
    let values = vec![(
        "x".to_string(),
        AskCodeOrValue::new_ask_code(AskCode::new("x".to_string(), None)),
    )];
    let vm = new_vm(values);
    assert_eq!(eval(&vm, "x"), Err(EvalError::DepthExceeded));
}

#[test]
fn object_literal_has_no_resource() {
    let vm = new_vm(vec![]);
    assert_eq!(
        eval(&vm, "{'a':1}"),
        Err(EvalError::UnknownIdentifier("object".to_string()))
    );
}

#[test]
fn first_registration_wins() {
    let mut run_options = RunOptions::new(vec![], vec![]);
    assert!(run_options.register(SumResource).is_none());
    assert!(run_options.register(SumResource).is_some());
}

#[test]
fn scope_overrides_shadow_bound_values() {
    let values = vec![(
        "who".to_string(),
        AskCodeOrValue::new_value(Value::String("outer".to_string())),
    )];
    let vm = new_vm(values);
    let code = parse("who".to_string()).unwrap();
    let scope = vec![(
        "who".to_string(),
        AskCodeOrValue::new_value(Value::String("inner".to_string())),
    )];
    assert_eq!(
        vm.run(code, None, Some(scope)),
        Ok(Value::String("inner".to_string()))
    );
}
