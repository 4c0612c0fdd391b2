//! The type-description surfaces, numeric literal handling, and value
//! construction helpers.

use askql::askcode::AskCodeOrValue;
use askql::typed::untyped;
use askql::types::Labelled;
use askql::types::Type;
use askql::value::Number;
use askql::value::NumberConvertError;
use askql::value::Value;
use askql::value::object_from_pairs;

#[test]
fn lib_it_works() {
    assert_eq!(2 + 2, 4);
}

#[test]
fn test_untyped() {
    let code_or_value = AskCodeOrValue::new_value(Value::Null);
    println!("{:?}", untyped(code_or_value));
}

#[test]
fn test_untyped2() {}

#[test]
fn boolean_type_name() {
    assert_eq!("boolean".to_string(), bool::type_label());
}

#[test]
fn validate_boolean() {
    assert!(bool::validate(true));
    assert!(bool::validate(false));
    assert!(!bool::validate(0 as u32));
    assert!(!bool::validate(0 as u64));
}

#[test]
fn validate_int() {
    assert!(u32::validate(0 as u64));
    assert!(u32::validate(0 as u32));
}

#[test]
fn qualified_labels() {
    assert_eq!("int!".to_string(), u64::qualified_type_label());
}

#[test]
fn runtime_type_names() {
    assert_eq!("int".to_string(), <i32 as askql::typing::Named>::name());
    assert_eq!("boolean".to_string(), <bool as askql::typing::Named>::name());
    assert!(<i32 as askql::typing::Type>::validate(0i32));
    assert!(!<bool as askql::typing::Type>::validate(0i32));
}

#[test]
fn number_classification() {
    assert!(Number("4.2".to_string()).is_float());
    assert!(Number("4".to_string()).is_int());
    assert!(Number("-.5".to_string()).is_float());
    assert!(!Number("-4".to_string()).is_float());
}

#[test]
fn number_to_int() {
    assert_eq!(Number("4".to_string()).to_int(), Ok(4));
    assert_eq!(Number("-17".to_string()).to_int(), Ok(-17));
    assert_eq!(Number("-2147483648".to_string()).to_int(), Ok(i32::MIN));
    assert_eq!(
        Number("2147483648".to_string()).to_int(),
        Err(NumberConvertError::NotANumber)
    );
    assert_eq!(
        Number("4.2".to_string()).to_int(),
        Err(NumberConvertError::NotANumber)
    );
}

#[test]
fn number_to_float() {
    assert_eq!(Number("5.2".to_string()).to_float(), Ok(5.2f32.to_bits()));
    assert_eq!(
        Number("x".to_string()).to_float(),
        Err(NumberConvertError::NotANumber)
    );
}

#[test]
fn objects_sort_and_replace() {
    let built = object_from_pairs(vec![
        ("b".to_string(), Value::Int(1)),
        ("a".to_string(), Value::Int(2)),
        ("b".to_string(), Value::Int(3)),
    ]);
    let expected = Value::Object(vec![
        ("a".to_string(), Value::Int(2)),
        ("b".to_string(), Value::Int(3)),
    ]);
    assert_eq!(built, expected);
}

#[test]
fn value_predicates() {
    assert!(Value::null().is_null());
    assert!(Value::Object(vec![]).is_object());
    assert!(Value::List(vec![]).is_list());
    assert!(!Value::integer(3).is_null());
    assert_eq!(Value::boolean(true), Value::Boolean(true));
    assert_eq!(Value::string("s".to_string()), Value::String("s".to_string()));
    assert_eq!(Value::number("7".to_string()), Value::Number(Number("7".to_string())));
    assert_eq!(Value::float(1.5f32.to_bits()), Value::Float(1.5f32.to_bits()));
    assert_eq!(Value::default(), Value::Null);
}
