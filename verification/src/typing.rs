//! A reflective description of scalar types by name, used to pair a value
//! with the name of its type.

use vstd::prelude::*;

use crate::askcode::AskCode;
use crate::value::Number;
use crate::value::Value;

verus! {

/// A type described by a name. This reflective description is a stub
/// surface: nothing in the evaluator depends on it, so its methods carry no
/// contracts.
pub trait Named: Sized {
    fn name() -> String;
}

/// Validation of a value against a described type: a comparison of the two
/// type names.
pub trait Type: Named {
    fn validate<T: Named>(value: T) -> bool;
}

impl<A: Type> Named for Option<A> {
    fn name() -> String {
        "empty".to_owned()
    }
}

impl<A: Type> Type for Option<A> {
    fn validate<U: Named>(_value: U) -> (r: bool) {
        string_eq(&Self::name(), &U::name())
    }
}

impl Named for bool {
    fn name() -> String {
        "boolean".to_owned()
    }
}

impl Type for bool {
    fn validate<U: Named>(_value: U) -> (r: bool) {
        string_eq(&Self::name(), &U::name())
    }
}

impl Named for String {
    fn name() -> String {
        "string".to_owned()
    }
}

impl Type for String {
    fn validate<U: Named>(_value: U) -> (r: bool) {
        string_eq(&String::name(), &U::name())
    }
}

impl Named for i32 {
    fn name() -> String {
        "int".to_owned()
    }
}

impl Type for i32 {
    fn validate<U: Named>(_value: U) -> (r: bool) {
        string_eq(&i32::name(), &U::name())
    }
}

impl Named for Number {
    fn name() -> String {
        "number".to_owned()
    }
}

impl Type for Number {
    fn validate<U: Named>(_value: U) -> (r: bool) {
        string_eq(&Number::name(), &U::name())
    }
}

impl Named for AskCode {
    fn name() -> String {
        "code".to_owned()
    }
}

impl Type for AskCode {
    fn validate<U: Named>(_value: U) -> (r: bool) {
        string_eq(&AskCode::name(), &U::name())
    }
}

/// Whether two strings hold the same characters.
fn string_eq(a: &String, b: &String) -> (r: bool)
    ensures
        r == (a@ == b@),
{
    *a == *b
}

/// A runtime value paired with the scalar type it is described as.
pub struct TypedValue {
    pub scalar_type: ScalarType,
    pub value: Value,
}

impl TypedValue {
    pub fn new(scalar_type: ScalarType, value: Value) -> (r: Self)
        ensures
            r.scalar_type == scalar_type,
            r.value@ == value@,
    {
        Self { scalar_type, value }
    }
}

/// The scalar types a value can be described as.
#[derive(Debug)]
pub enum ScalarType {
    Null,
    Boolean,
    Int,
    Float,
    List,
    Any,
    Code,
    Other(String),
}

} // verus!
