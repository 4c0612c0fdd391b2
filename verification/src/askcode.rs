//! The AST model: a node is either a plain value or a named invocation with
//! an ordered, optional parameter list.

use vstd::prelude::*;

use crate::value::SpecValue;
use crate::value::Value;
use crate::value::value_eq;

verus! {

/// A named AST node. `params == None` is a bare identifier reference;
/// `params == Some(vec![])` is an explicit empty invocation.
#[derive(Debug)]
pub struct AskCode {
    pub name: String,
    pub params: Option<Vec<AskCodeOrValue>>,
}

/// The universal AST node: a plain value or a named node.
#[derive(Debug)]
pub enum AskCodeOrValue {
    Value(Value),
    AskCode(AskCode),
}

/// The mathematical model of an `AskCode`.
#[verifier::ext_equal]
pub struct SpecAskCode {
    pub name: Seq<char>,
    pub params: Option<Seq<SpecCode>>,
}

/// The mathematical model of an `AskCodeOrValue`.
#[verifier::ext_equal]
pub enum SpecCode {
    Value(SpecValue),
    AskCode(SpecAskCode),
}

/// The model of a parameter list.
pub open spec fn view_codes(s: Seq<AskCodeOrValue>) -> Seq<SpecCode>
    decreases s,
{
    if s.len() == 0 {
        Seq::empty()
    } else {
        view_codes(s.drop_last()).push(s.last()@)
    }
}

/// The model of an optional parameter list.
pub open spec fn view_params(p: Option<Vec<AskCodeOrValue>>) -> Option<Seq<SpecCode>>
    decreases p,
{
    match p {
        Option::None => Option::None,
        Option::Some(v) => Option::Some(view_codes(v@)),
    }
}

impl View for AskCode {
    type V = SpecAskCode;

    open spec fn view(&self) -> SpecAskCode
        decreases self,
    {
        SpecAskCode { name: self.name@, params: view_params(self.params) }
    }
}

impl View for AskCodeOrValue {
    type V = SpecCode;

    open spec fn view(&self) -> SpecCode
        decreases self,
    {
        match self {
            AskCodeOrValue::Value(v) => SpecCode::Value(v@),
            AskCodeOrValue::AskCode(c) => SpecCode::AskCode(c@),
        }
    }
}

/// How `view_codes` reads node by node.
pub broadcast proof fn lemma_view_codes(s: Seq<AskCodeOrValue>)
    ensures
        (#[trigger] view_codes(s)).len() == s.len(),
        forall|i: int| 0 <= i < s.len() ==> view_codes(s)[i] == s[i]@,
    decreases s.len(),
{
    if s.len() > 0 {
        lemma_view_codes(s.drop_last());
        assert(view_codes(s) == view_codes(s.drop_last()).push(s.last()@));
        assert forall|i: int| 0 <= i < s.len() implies view_codes(s)[i] == s[i]@ by {
            if i < s.len() - 1 {
                assert(s.drop_last()[i] == s[i]);
            }
        }
    } else {
        assert(view_codes(s) == Seq::<SpecCode>::empty());
    }
}

impl AskCodeOrValue {
    /// Wraps a plain value.
    pub fn new_value(value: Value) -> (r: AskCodeOrValue)
        ensures
            r@ == SpecCode::Value(value@),
    {
        AskCodeOrValue::Value(value)
    }

    /// Wraps a named node.
    pub fn new_ask_code(askcode: AskCode) -> (r: AskCodeOrValue)
        ensures
            r@ == SpecCode::AskCode(askcode@),
    {
        AskCodeOrValue::AskCode(askcode)
    }
}

impl AskCode {
    pub fn new(name: String, params: Option<Vec<AskCodeOrValue>>) -> (r: Self)
        ensures
            r@ == (SpecAskCode { name: name@, params: view_params(params) }),
    {
        AskCode { name, params }
    }
}

impl Clone for AskCode {
    #[verifier::loop_isolation(false)]
    fn clone(&self) -> (r: Self)
        ensures
            r@ == self@,
        decreases self,
    {
        broadcast use lemma_view_codes;

        let name = self.name.clone();
        match &self.params {
            Option::None => AskCode { name, params: Option::None },
            Option::Some(ps) => {
                let mut out: Vec<AskCodeOrValue> = Vec::new();
                let n = ps.len();
                let mut i: usize = 0;
                while i < n
                    invariant
                        i <= n,
                        out@.len() == i as int,
                        forall|j: int| 0 <= j < i ==> out@[j]@ == ps@[j]@,
                    decreases n - i,
                {
                    proof {
                        assert(decreases_to!(*self => self.params));
                        assert(decreases_to!(self.params => *ps));
                        assert(decreases_to!(*ps => ps@));
                        assert(decreases_to!(ps@ => ps@[i as int]));
                        assert(decreases_to!(*self => ps@[i as int]));
                    }
                    let item = ps[i].clone();
                    out.push(item);
                    i += 1;
                }
                proof {
                    assert(view_codes(out@) =~= view_codes(ps@));
                }
                AskCode { name, params: Option::Some(out) }
            },
        }
    }
}

impl Clone for AskCodeOrValue {
    fn clone(&self) -> (r: Self)
        ensures
            r@ == self@,
        decreases self,
    {
        match self {
            AskCodeOrValue::Value(v) => AskCodeOrValue::Value(v.clone()),
            AskCodeOrValue::AskCode(c) => AskCodeOrValue::AskCode(c.clone()),
        }
    }
}

/// Structural equality of two AST nodes: equality of their models.
#[verifier::loop_isolation(false)]
pub fn code_eq(a: &AskCodeOrValue, b: &AskCodeOrValue) -> (r: bool)
    ensures
        r == (a@ == b@),
    decreases a,
{
    broadcast use lemma_view_codes;

    match (a, b) {
        (AskCodeOrValue::Value(x), AskCodeOrValue::Value(y)) => {
            let r = value_eq(x, y);
            proof {
                assert(a@ == SpecCode::Value(x@));
                assert(b@ == SpecCode::Value(y@));
            }
            r
        },
        (AskCodeOrValue::AskCode(x), AskCodeOrValue::AskCode(y)) => {
            proof {
                assert(a@ == SpecCode::AskCode(x@));
                assert(b@ == SpecCode::AskCode(y@));
            }
            if !(x.name == y.name) {
                return false;
            }
            match (&x.params, &y.params) {
                (Option::None, Option::None) => true,
                (Option::Some(ps), Option::Some(qs)) => {
                    if ps.len() != qs.len() {
                        proof {
                            assert(view_codes(ps@).len() != view_codes(qs@).len());
                        }
                        return false;
                    }
                    let n = ps.len();
                    let mut i: usize = 0;
                    while i < n
                        invariant
                            i <= n,
                            forall|j: int| 0 <= j < i ==> ps@[j]@ == qs@[j]@,
                        decreases n - i,
                    {
                        proof {
                            assert(decreases_to!(*a => *x));
                            assert(decreases_to!(*x => x.params));
                            assert(decreases_to!(x.params => *ps));
                            assert(decreases_to!(*ps => ps@));
                            assert(decreases_to!(ps@ => ps@[i as int]));
                            assert(decreases_to!(*a => ps@[i as int]));
                        }
                        if !code_eq(&ps[i], &qs[i]) {
                            proof {
                                assert(view_codes(ps@)[i as int] != view_codes(qs@)[i as int]);
                            }
                            return false;
                        }
                        i += 1;
                    }
                    proof {
                        assert(view_codes(ps@) =~= view_codes(qs@));
                    }
                    true
                },
                _ => false,
            }
        },
        _ => false,
    }
}

impl PartialEq for AskCodeOrValue {
    fn eq(&self, other: &AskCodeOrValue) -> (r: bool) {
        code_eq(self, other)
    }
}

impl vstd::std_specs::cmp::PartialEqSpecImpl for AskCodeOrValue {
    open spec fn obeys_eq_spec() -> bool {
        true
    }

    open spec fn eq_spec(&self, other: &AskCodeOrValue) -> bool {
        self@ == other@
    }
}

/// The production reducer: builds the `AskCodeOrValue` AST.
pub struct AskCodeReducer {}

impl crate::reduce::Reducer<AskCodeOrValue> for AskCodeReducer {
    open spec fn node_spec(&self, name: Seq<char>, children: Option<Seq<SpecCode>>) -> SpecCode {
        SpecCode::AskCode(SpecAskCode { name, params: children })
    }

    open spec fn id_spec(&self, name: Seq<char>) -> SpecCode {
        SpecCode::AskCode(SpecAskCode { name, params: Option::None })
    }

    open spec fn value_spec(&self, value: SpecValue) -> SpecCode {
        SpecCode::Value(value)
    }

    fn node(&self, name: String, children: Option<Vec<AskCodeOrValue>>) -> (r: AskCodeOrValue) {
        proof {
            match &children {
                Option::Some(v) => {
                    lemma_view_codes(v@);
                    assert(view_codes(v@) =~= crate::reduce::views_of(v@));
                },
                Option::None => {},
            }
        }
        AskCodeOrValue::AskCode(AskCode { name, params: children })
    }

    fn id(&self, name: String) -> (r: AskCodeOrValue) {
        AskCodeOrValue::AskCode(AskCode { name, params: Option::None })
    }

    fn value(&self, value: Value) -> (r: AskCodeOrValue) {
        AskCodeOrValue::Value(value)
    }
}

/// Views of an AST node, as the reducer contract hands them out.
pub trait AskCodeTrait: Sized {
    fn name(&self) -> String;

    fn params(&self) -> Option<Vec<AskCodeOrValue>>;
}

impl AskCodeTrait for AskCode {
    fn name(&self) -> (r: String)
        ensures
            r@ == self@.name,
    {
        self.name.clone()
    }

    fn params(&self) -> (r: Option<Vec<AskCodeOrValue>>)
        ensures
            view_params(r) == self@.params,
    {
        let c = self.clone();
        c.params
    }
}

/// Whether the node is a named node.
pub fn is_ask_code(value: &AskCodeOrValue) -> (r: bool)
    ensures
        r == (value@ matches SpecCode::AskCode(_)),
{
    match value {
        AskCodeOrValue::AskCode(_) => true,
        _ => false,
    }
}

/// Whether the node is a plain value.
pub fn is_value(value: &AskCodeOrValue) -> (r: bool)
    ensures
        r == (value@ matches SpecCode::Value(_)),
{
    match value {
        AskCodeOrValue::AskCode(_) => false,
        _ => true,
    }
}

/// Why a node was not of the expected kind.
#[derive(Debug)]
pub enum AskCordOrValueError {
    ExpectingValue,
    ExpectingAskCode,
}

/// The named node held by `value`, or `ExpectingAskCode`.
pub fn ask_code(value: &AskCodeOrValue) -> (r: Result<AskCode, AskCordOrValueError>)
    ensures
        match value@ {
            SpecCode::AskCode(c) => r matches Ok(code) && code@ == c,
            SpecCode::Value(_) => r matches Err(AskCordOrValueError::ExpectingAskCode),
        },
{
    match value {
        AskCodeOrValue::AskCode(code) => Ok(code.clone()),
        _ => Err(AskCordOrValueError::ExpectingAskCode),
    }
}

/// The plain value held by `value`, or `ExpectingValue`.
pub fn value(node: &AskCodeOrValue) -> (r: Result<Value, AskCordOrValueError>)
    ensures
        match node@ {
            SpecCode::Value(v) => r matches Ok(out) && out@ == v,
            SpecCode::AskCode(_) => r matches Err(AskCordOrValueError::ExpectingValue),
        },
{
    match node {
        AskCodeOrValue::Value(v) => Ok(v.clone()),
        AskCodeOrValue::AskCode(_) => Err(AskCordOrValueError::ExpectingValue),
    }
}

} // verus!
