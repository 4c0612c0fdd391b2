//! Stripping the AST wrapper off a plain value.

use vstd::prelude::*;

use crate::askcode::AskCodeOrValue;
use crate::askcode::SpecCode;
use crate::value::Value;

verus! {

/// The plain value inside an AST node that wraps one. A named node holds no
/// value to strip, so such nodes are not accepted here.
pub fn untyped(value: AskCodeOrValue) -> (r: Value)
    requires
        value@ matches SpecCode::Value(_),
    ensures
        value@ matches SpecCode::Value(v) && r@ == v,
{
    match value {
        AskCodeOrValue::Value(v) => v,
        AskCodeOrValue::AskCode(_) => Value::Null,
    }
}

} // verus!
