//! A second, standalone type-description surface: types named by a static
//! string, with a qualified form and validation by name comparison.

use vstd::prelude::*;

verus! {

/// A type described by a static name; the qualified name appends an
/// exclamation mark. This reflective description is a stub surface: nothing
/// in the evaluator depends on it, so its methods carry no contracts.
pub trait Labelled: Sized {
    fn type_label() -> String;

    fn qualified_type_label() -> String;
}

/// Validation of a value against a described type: a comparison of the two
/// type names.
pub trait Type: Labelled {
    fn validate<T: Labelled>(value: T) -> bool;
}

/// The qualified form of a type name.
fn qualify(name: String) -> (r: String)
    ensures
        r@ == name@ + "!"@,
{
    vstd::string::StringExecFns::concat(name, "!")
}

/// Whether two strings hold the same characters.
fn str_same(a: &String, b: &String) -> (r: bool)
    ensures
        r == (a@ == b@),
{
    *a == *b
}

impl<A: Type> Labelled for Option<A> {
    fn type_label() -> String {
        A::type_label()
    }

    fn qualified_type_label() -> String {
        qualify(A::type_label())
    }
}

impl<A: Type> Type for Option<A> {
    fn validate<I: Labelled>(_value: I) -> (r: bool) {
        str_same(&I::type_label(), &A::type_label())
    }
}

impl Labelled for bool {
    fn type_label() -> String {
        "boolean".to_owned()
    }

    fn qualified_type_label() -> String {
        qualify(Self::type_label())
    }
}

impl Type for bool {
    fn validate<T: Labelled>(_value: T) -> (r: bool) {
        str_same(&T::type_label(), &Self::type_label())
    }
}

impl Labelled for u32 {
    fn type_label() -> String {
        "int".to_owned()
    }

    fn qualified_type_label() -> String {
        qualify(Self::type_label())
    }
}

impl Type for u32 {
    fn validate<T: Labelled>(_value: T) -> (r: bool) {
        str_same(&T::type_label(), &Self::type_label())
    }
}

impl Labelled for u64 {
    fn type_label() -> String {
        "int".to_owned()
    }

    fn qualified_type_label() -> String {
        qualify(Self::type_label())
    }
}

impl Type for u64 {
    fn validate<T: Labelled>(_value: T) -> (r: bool) {
        str_same(&T::type_label(), &Self::type_label())
    }
}

} // verus!
