//! The resource contract: a named built-in operation, the evaluator's unit of
//! extensibility. The built-ins form a closed set of kinds; the registry maps
//! names to kinds.

use vstd::prelude::*;

verus! {

/// The built-in operations the evaluator can dispatch to.
#[derive(Clone, Copy, Debug, PartialEq, Eq, Structural)]
pub enum ResourceKind {
    Ask,
    Call,
    Get,
    Fragment,
    Equals,
    Sum,
    Minus,
    Times,
    Max,
    List,
    Concat,
    ToLowerCase,
    ToUpperCase,
    Node,
    Query,
}

impl View for ResourceKind {
    type V = ResourceKind;

    open spec fn view(&self) -> ResourceKind {
        *self
    }
}

/// The registry name of each built-in operation.
pub open spec fn kind_name(k: ResourceKind) -> Seq<char> {
    match k {
        ResourceKind::Ask => "ask"@,
        ResourceKind::Call => "call"@,
        ResourceKind::Get => "get"@,
        ResourceKind::Fragment => "f"@,
        ResourceKind::Equals => "equals"@,
        ResourceKind::Sum => "+"@,
        ResourceKind::Minus => "-"@,
        ResourceKind::Times => "*"@,
        ResourceKind::Max => "max"@,
        ResourceKind::List => "list"@,
        ResourceKind::Concat => "concat"@,
        ResourceKind::ToLowerCase => "toLowerCase"@,
        ResourceKind::ToUpperCase => "toUpperCase"@,
        ResourceKind::Node => "node"@,
        ResourceKind::Query => "query"@,
    }
}

/// The registry name of a built-in operation.
pub fn kind_name_of(k: ResourceKind) -> (r: String)
    ensures
        r@ == kind_name(k),
{
    match k {
        ResourceKind::Ask => "ask".to_owned(),
        ResourceKind::Call => "call".to_owned(),
        ResourceKind::Get => "get".to_owned(),
        ResourceKind::Fragment => "f".to_owned(),
        ResourceKind::Equals => "equals".to_owned(),
        ResourceKind::Sum => "+".to_owned(),
        ResourceKind::Minus => "-".to_owned(),
        ResourceKind::Times => "*".to_owned(),
        ResourceKind::Max => "max".to_owned(),
        ResourceKind::List => "list".to_owned(),
        ResourceKind::Concat => "concat".to_owned(),
        ResourceKind::ToLowerCase => "toLowerCase".to_owned(),
        ResourceKind::ToUpperCase => "toUpperCase".to_owned(),
        ResourceKind::Node => "node".to_owned(),
        ResourceKind::Query => "query".to_owned(),
    }
}

/// A named built-in operation: what the registry holds of it is its kind, and
/// its registry name follows from the kind.
pub trait Resource: Sized {
    spec fn kind_spec(&self) -> ResourceKind;

    fn kind(&self) -> (k: ResourceKind)
        ensures
            k == self.kind_spec(),
    ;

    fn name(&self) -> (r: String)
        ensures
            r@ == kind_name(self.kind_spec()),
    ;
}

} // verus!
