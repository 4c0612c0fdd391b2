//! The runtime value model: a tagged union of scalar and aggregate values,
//! including a deferred numeric literal form that keeps the original text.

use vstd::prelude::*;

use crate::floatops::float_of_text;
use crate::floatops::text_to_float;
use crate::numeric::spec_is_float_text;
use crate::numeric::spec_parse_i32;
use crate::numeric::is_float_text;
use crate::numeric::parse_i32_chars;
use crate::strutil::chars_of;
use crate::strutil::spec_str_lt;
use crate::strutil::str_lt;

verus! {

/// A numeric literal kept as its original text; whether it is an integer or a
/// floating-point value is decided only when the value is consumed.
#[derive(Debug)]
pub struct Number(pub String);

/// A runtime value. `Float` carries the IEEE 754 single-precision bit pattern
/// of the value, so that the numeric logic can be stated over plain integers.
/// `Object` keeps its entries sorted by key, with unique keys.
#[derive(Debug)]
pub enum Value {
    Null,
    Boolean(bool),
    Int(i32),
    Float(u32),
    Number(Number),
    String(String),
    Object(Vec<(String, Value)>),
    List(Vec<Value>),
}

/// The mathematical model of a `Value`.
#[verifier::ext_equal]
pub enum SpecValue {
    Null,
    Boolean(bool),
    Int(i32),
    Float(u32),
    Number(Seq<char>),
    String(Seq<char>),
    Object(Seq<(Seq<char>, SpecValue)>),
    List(Seq<SpecValue>),
}

impl View for Number {
    type V = Seq<char>;

    open spec fn view(&self) -> Seq<char> {
        self.0@
    }
}

/// The model of an object's entry list.
pub open spec fn view_entries(s: Seq<(String, Value)>) -> Seq<(Seq<char>, SpecValue)>
    decreases s,
{
    if s.len() == 0 {
        Seq::empty()
    } else {
        view_entries(s.drop_last()).push((s.last().0@, s.last().1@))
    }
}

/// The model of a value list.
pub open spec fn view_items(s: Seq<Value>) -> Seq<SpecValue>
    decreases s,
{
    if s.len() == 0 {
        Seq::empty()
    } else {
        view_items(s.drop_last()).push(s.last()@)
    }
}

impl View for Value {
    type V = SpecValue;

    open spec fn view(&self) -> SpecValue
        decreases self,
    {
        match self {
            Value::Null => SpecValue::Null,
            Value::Boolean(b) => SpecValue::Boolean(*b),
            Value::Int(i) => SpecValue::Int(*i),
            Value::Float(bits) => SpecValue::Float(*bits),
            Value::Number(n) => SpecValue::Number(n.0@),
            Value::String(s) => SpecValue::String(s@),
            Value::Object(entries) => SpecValue::Object(view_entries(entries@)),
            Value::List(items) => SpecValue::List(view_items(items@)),
        }
    }
}

/// How `view_entries` reads entry by entry.
pub broadcast proof fn lemma_view_entries(s: Seq<(String, Value)>)
    ensures
        (#[trigger] view_entries(s)).len() == s.len(),
        forall|i: int| 0 <= i < s.len() ==> view_entries(s)[i] == (s[i].0@, s[i].1@),
    decreases s.len(),
{
    if s.len() > 0 {
        lemma_view_entries(s.drop_last());
        assert(view_entries(s) == view_entries(s.drop_last()).push((s.last().0@, s.last().1@)));
        assert forall|i: int| 0 <= i < s.len() implies view_entries(s)[i] == (s[i].0@, s[i].1@) by {
            if i < s.len() - 1 {
                assert(s.drop_last()[i] == s[i]);
            }
        }
    } else {
        assert(view_entries(s) == Seq::<(Seq<char>, SpecValue)>::empty());
    }
}

/// How `view_items` reads item by item.
pub broadcast proof fn lemma_view_items(s: Seq<Value>)
    ensures
        (#[trigger] view_items(s)).len() == s.len(),
        forall|i: int| 0 <= i < s.len() ==> view_items(s)[i] == s[i]@,
    decreases s.len(),
{
    if s.len() > 0 {
        lemma_view_items(s.drop_last());
        assert(view_items(s) == view_items(s.drop_last()).push(s.last()@));
        assert forall|i: int| 0 <= i < s.len() implies view_items(s)[i] == s[i]@ by {
            if i < s.len() - 1 {
                assert(s.drop_last()[i] == s[i]);
            }
        }
    } else {
        assert(view_items(s) == Seq::<SpecValue>::empty());
    }
}

impl Clone for Number {
    fn clone(&self) -> (r: Self)
        ensures
            r@ == self@,
    {
        Number(self.0.clone())
    }
}

impl Clone for Value {
    #[verifier::loop_isolation(false)]
    fn clone(&self) -> (r: Self)
        ensures
            r@ == self@,
        decreases self,
    {
        broadcast use lemma_view_entries, lemma_view_items;

        match self {
            Value::Null => Value::Null,
            Value::Boolean(b) => Value::Boolean(*b),
            Value::Int(i) => Value::Int(*i),
            Value::Float(bits) => Value::Float(*bits),
            Value::Number(n) => Value::Number(n.clone()),
            Value::String(s) => Value::String(s.clone()),
            Value::Object(entries) => {
                let mut out: Vec<(String, Value)> = Vec::new();
                let n = entries.len();
                let mut i: usize = 0;
                while i < n
                    invariant
                        i <= n,
                        out@.len() == i as int,
                        forall|j: int|
                            0 <= j < i ==> out@[j].0@ == entries@[j].0@ && out@[j].1@
                                == entries@[j].1@,
                    decreases n - i,
                {
                    proof {
                        assert(decreases_to!(*self => *entries));
                        assert(decreases_to!(*entries => entries@));
                        assert(decreases_to!(entries@ => entries@[i as int]));
                        assert(decreases_to!(entries@[i as int] => entries@[i as int].1));
                        assert(decreases_to!(*self => entries@[i as int].1));
                    }
                    let key = entries[i].0.clone();
                    let val = entries[i].1.clone();
                    out.push((key, val));
                    i += 1;
                }
                let r = Value::Object(out);
                proof {
                    assert(view_entries(out@) =~= view_entries(entries@));
                }
                r
            },
            Value::List(items) => {
                let mut out: Vec<Value> = Vec::new();
                let n = items.len();
                let mut i: usize = 0;
                while i < n
                    invariant
                        i <= n,
                        out@.len() == i as int,
                        forall|j: int| 0 <= j < i ==> out@[j]@ == items@[j]@,
                    decreases n - i,
                {
                    proof {
                        assert(decreases_to!(*self => *items));
                        assert(decreases_to!(*items => items@));
                        assert(decreases_to!(items@ => items@[i as int]));
                        assert(decreases_to!(*self => items@[i as int]));
                    }
                    let val = items[i].clone();
                    out.push(val);
                    i += 1;
                }
                let r = Value::List(out);
                proof {
                    assert(view_items(out@) =~= view_items(items@));
                }
                r
            },
        }
    }
}

/// Why numeric literal text cannot be converted.
#[derive(Debug, PartialEq, Eq, Structural)]
pub enum NumberConvertError {
    NotANumber,
}

impl Number {
    /// Whether the literal denotes an integer: not a floating-point literal.
    pub fn is_int(&self) -> (r: bool)
        ensures
            r == !spec_is_float_text(self@),
    {
        !self.is_float()
    }

    /// Whether the literal denotes a floating-point value: digits with one
    /// decimal point, after an optional sign.
    pub fn is_float(&self) -> (r: bool)
        ensures
            r == spec_is_float_text(self@),
    {
        let chars = chars_of(self.0.as_str());
        is_float_text(&chars)
    }

    /// The `i32` the literal denotes, exactly as `str::parse` reads it.
    pub fn to_int(&self) -> (r: Result<i32, NumberConvertError>)
        ensures
            match spec_parse_i32(self@) {
                Some(v) => r == Ok::<i32, NumberConvertError>(v),
                None => r == Err::<i32, NumberConvertError>(NumberConvertError::NotANumber),
            },
    {
        let chars = chars_of(self.0.as_str());
        match parse_i32_chars(&chars) {
            Some(v) => Ok(v),
            None => Err(NumberConvertError::NotANumber),
        }
    }

    /// The IEEE 754 binary32 bit pattern the literal denotes, correctly
    /// rounded.
    pub fn to_float(&self) -> (r: Result<u32, NumberConvertError>)
        ensures
            match float_of_text(self@) {
                Some(b) => r == Ok::<u32, NumberConvertError>(b),
                None => r == Err::<u32, NumberConvertError>(NumberConvertError::NotANumber),
            },
    {
        match text_to_float(&self.0) {
            Some(b) => Ok(b),
            None => Err(NumberConvertError::NotANumber),
        }
    }
}

impl Value {
    pub fn null() -> (r: Self)
        ensures
            r@ == SpecValue::Null,
    {
        Value::Null
    }

    pub fn boolean(val: bool) -> (r: Self)
        ensures
            r@ == SpecValue::Boolean(val),
    {
        Value::Boolean(val)
    }

    pub fn integer(val: i32) -> (r: Self)
        ensures
            r@ == SpecValue::Int(val),
    {
        Value::Int(val)
    }

    /// A float value, given as its IEEE 754 binary32 bit pattern.
    pub fn float(bits: u32) -> (r: Self)
        ensures
            r@ == SpecValue::Float(bits),
    {
        Value::Float(bits)
    }

    pub fn string(val: String) -> (r: Self)
        ensures
            r@ == SpecValue::String(val@),
    {
        Value::String(val)
    }

    pub fn number(val: String) -> (r: Self)
        ensures
            r@ == SpecValue::Number(val@),
    {
        Value::Number(Number(val))
    }

    pub fn is_object(&self) -> (r: bool)
        ensures
            r == (self@ matches SpecValue::Object(_)),
    {
        if let Value::Object(_) = self {
            true
        } else {
            false
        }
    }

    pub fn is_list(&self) -> (r: bool)
        ensures
            r == (self@ matches SpecValue::List(_)),
    {
        if let Value::List(_) = self {
            true
        } else {
            false
        }
    }

    pub fn is_null(&self) -> (r: bool)
        ensures
            r == (self@ matches SpecValue::Null),
    {
        match self {
            Value::Null => true,
            _ => false,
        }
    }
}

impl Default for Value {
    /// The neutral value is `Null`.
    fn default() -> (r: Self)
        ensures
            r@ == SpecValue::Null,
    {
        Value::Null
    }
}

/// Whether object entries are strictly sorted by key: keys unique and in
/// lexicographic order.
pub open spec fn entries_sorted(s: Seq<(Seq<char>, SpecValue)>) -> bool {
    forall|i: int, j: int| 0 <= i < j < s.len() ==> spec_str_lt(s[i].0, s[j].0)
}

/// The first value under key `k` in an association sequence, if any.
pub open spec fn spec_assoc<T>(s: Seq<(Seq<char>, T)>, k: Seq<char>) -> Option<T>
    decreases s.len(),
{
    if s.len() == 0 {
        None
    } else if s[0].0 == k {
        Some(s[0].1)
    } else {
        spec_assoc(s.skip(1), k)
    }
}

/// Entries with `(k, v)` inserted in key order, replacing an entry whose key
/// is already `k`.
pub open spec fn spec_entries_insert(
    s: Seq<(Seq<char>, SpecValue)>,
    k: Seq<char>,
    v: SpecValue,
) -> Seq<(Seq<char>, SpecValue)>
    decreases s.len(),
{
    if s.len() == 0 {
        seq![(k, v)]
    } else if spec_str_lt(k, s[0].0) {
        seq![(k, v)] + s
    } else if k == s[0].0 {
        seq![(k, v)] + s.skip(1)
    } else {
        seq![s[0]] + spec_entries_insert(s.skip(1), k, v)
    }
}

/// Whether some entry of `s` has key `k`.
pub open spec fn spec_has_key<T>(s: Seq<(Seq<char>, T)>, k: Seq<char>) -> bool {
    exists|i: int| 0 <= i < s.len() && (#[trigger] s[i]).0 == k
}

/// Inserting into sorted entries keeps them sorted, and adds no key but `k`.
pub proof fn lemma_entries_insert_sorted(
    s: Seq<(Seq<char>, SpecValue)>,
    k: Seq<char>,
    v: SpecValue,
)
    requires
        entries_sorted(s),
    ensures
        entries_sorted(spec_entries_insert(s, k, v)),
        forall|j: int|
            0 <= j < spec_entries_insert(s, k, v).len() ==> (#[trigger] spec_entries_insert(
                s,
                k,
                v,
            )[j]).0 == k || spec_has_key(s, spec_entries_insert(s, k, v)[j].0),
    decreases s.len(),
{
    let ins = spec_entries_insert(s, k, v);
    if s.len() == 0 {
        assert(ins =~= seq![(k, v)]);
    } else if spec_str_lt(k, s[0].0) {
        assert(ins =~= seq![(k, v)] + s);
        assert forall|i: int, j: int| 0 <= i < j < ins.len() implies spec_str_lt(
            ins[i].0,
            ins[j].0,
        ) by {
            if i == 0 {
                if j > 1 {
                    crate::strutil::lemma_str_lt_trans(k, s[0].0, s[j - 1].0);
                }
            }
        }
        assert forall|j: int| 0 <= j < ins.len() implies (ins[j].0 == k || spec_has_key(
            s,
            ins[j].0,
        )) by {
            if j > 0 {
                assert(s[j - 1].0 == ins[j].0);
            }
        }
    } else if k == s[0].0 {
        assert(ins =~= seq![(k, v)] + s.skip(1));
        assert forall|i: int, j: int| 0 <= i < j < ins.len() implies spec_str_lt(
            ins[i].0,
            ins[j].0,
        ) by {
            if i == 0 {
                assert(ins[j].0 == s[j].0);
                assert(spec_str_lt(s[0].0, s[j].0));
            } else {
                assert(ins[i].0 == s[i].0 && ins[j].0 == s[j].0);
            }
        }
        assert forall|j: int| 0 <= j < ins.len() implies (ins[j].0 == k || spec_has_key(
            s,
            ins[j].0,
        )) by {
            if j > 0 {
                assert(s[j].0 == ins[j].0);
            }
        }
    } else {
        crate::strutil::lemma_str_lt_connected_ne(k, s[0].0);
        let tail = s.skip(1);
        assert(entries_sorted(tail)) by {
            assert forall|i: int, j: int| 0 <= i < j < tail.len() implies spec_str_lt(
                tail[i].0,
                tail[j].0,
            ) by {
                assert(tail[i] == s[i + 1] && tail[j] == s[j + 1]);
            }
        }
        lemma_entries_insert_sorted(tail, k, v);
        let rec = spec_entries_insert(tail, k, v);
        assert(ins =~= seq![s[0]] + rec);
        assert forall|i: int, j: int| 0 <= i < j < ins.len() implies spec_str_lt(
            ins[i].0,
            ins[j].0,
        ) by {
            if i == 0 {
                assert(ins[j].0 == rec[j - 1].0);
                if rec[j - 1].0 == k {
                    assert(spec_str_lt(s[0].0, k));
                } else {
                    assert(spec_has_key(tail, rec[j - 1].0));
                    let w = choose|w: int| 0 <= w < tail.len() && (#[trigger] tail[w]).0 == rec[
                        j - 1
                    ].0;
                    assert(tail[w] == s[w + 1]);
                    assert(spec_str_lt(s[0].0, s[w + 1].0));
                }
            } else {
                assert(ins[i].0 == rec[i - 1].0 && ins[j].0 == rec[j - 1].0);
            }
        }
        assert forall|j: int| 0 <= j < ins.len() implies (ins[j].0 == k || spec_has_key(
            s,
            ins[j].0,
        )) by {
            if j == 0 {
                assert(s[0].0 == ins[0].0);
            } else {
                assert(ins[j].0 == rec[j - 1].0);
                if rec[j - 1].0 != k {
                    assert(spec_has_key(tail, rec[j - 1].0));
                    let w = choose|w: int| 0 <= w < tail.len() && (#[trigger] tail[w]).0 == rec[
                        j - 1
                    ].0;
                    assert(s[w + 1].0 == ins[j].0);
                }
            }
        }
    }
}

/// Inserts `(k, v)` into sorted object entries, exactly as
/// `spec_entries_insert` says.
pub fn entries_insert(entries: Vec<(String, Value)>, k: String, v: Value) -> (r: Vec<
    (String, Value),
>)
    ensures
        view_entries(r@) == spec_entries_insert(view_entries(entries@), k@, v@),
    decreases entries@.len(),
{
    broadcast use lemma_view_entries;

    let mut entries = entries;
    if entries.len() == 0 {
        entries.push((k, v));
        proof {
            assert(view_entries(entries@) =~= seq![(k@, v@)]);
        }
        entries
    } else if str_lt(&k, &entries[0].0) {
        let ghost pre = entries@;
        entries.insert(0, (k, v));
        proof {
            assert(view_entries(entries@) =~= seq![(k@, v@)] + view_entries(pre));
        }
        entries
    } else {
        let keq = k == entries[0].0;
        if keq {
            let ghost pre = entries@;
            let _ = entries.remove(0);
            entries.insert(0, (k, v));
            proof {
                assert(view_entries(entries@) =~= seq![(k@, v@)] + view_entries(pre).skip(1));
            }
            entries
        } else {
            let ghost pre = entries@;
            let first = entries.remove(0);
            proof {
                assert(entries@ =~= pre.skip(1));
            }
            let rest = entries_insert(entries, k, v);
            let mut out = rest;
            out.insert(0, first);
            proof {
                assert(view_entries(pre).skip(1) =~= view_entries(pre.skip(1)));
                assert(view_entries(out@) =~= seq![view_entries(pre)[0]] + spec_entries_insert(
                    view_entries(pre.skip(1)),
                    k@,
                    v@,
                ));
            }
            out
        }
    }
}

/// The sorted, key-unique entries that inserting `ps` in order produces.
pub open spec fn spec_object_of(ps: Seq<(Seq<char>, SpecValue)>) -> Seq<(Seq<char>, SpecValue)>
    decreases ps.len(),
{
    if ps.len() == 0 {
        Seq::empty()
    } else {
        spec_entries_insert(spec_object_of(ps.drop_last()), ps.last().0, ps.last().1)
    }
}

/// A fold of sorted inserts is sorted.
pub proof fn lemma_object_of_sorted(ps: Seq<(Seq<char>, SpecValue)>)
    ensures
        entries_sorted(spec_object_of(ps)),
    decreases ps.len(),
{
    if ps.len() == 0 {
        assert(entries_sorted(spec_object_of(ps)));
    } else {
        lemma_object_of_sorted(ps.drop_last());
        lemma_entries_insert_sorted(spec_object_of(ps.drop_last()), ps.last().0, ps.last().1);
    }
}

/// An object built from the given pairs, inserted in order: keys sorted and
/// unique, a later pair replacing an earlier one with the same key.
pub fn object_from_pairs(pairs: Vec<(String, Value)>) -> (r: Value)
    ensures
        r@ == SpecValue::Object(spec_object_of(view_entries(pairs@))),
        entries_sorted(spec_object_of(view_entries(pairs@))),
{
    broadcast use lemma_view_entries;

    let mut entries: Vec<(String, Value)> = Vec::new();
    let mut pairs = pairs;
    let ghost all: Seq<(Seq<char>, SpecValue)> = view_entries(pairs@);
    let mut i: usize = 0;
    let n = pairs.len();
    proof {
        assert(view_entries(entries@) =~= spec_object_of(all.take(0)));
    }
    while i < n
        invariant
            i <= n,
            n == pairs@.len(),
            all == view_entries(pairs@),
            all.len() == n,
            view_entries(entries@) == spec_object_of(all.take(i as int)),
        decreases n - i,
    {
        let key = pairs[i].0.clone();
        let val = pairs[i].1.clone();
        let ghost pre = entries@;
        entries = entries_insert(entries, key, val);
        proof {
            lemma_view_entries(pairs@);
            assert(all.take(i + 1).drop_last() =~= all.take(i as int));
            assert(all.take(i + 1).last() == all[i as int]);
            assert(all[i as int] == (pairs@[i as int].0@, pairs@[i as int].1@));
        }
        i += 1;
    }
    proof {
        assert(all.take(n as int) =~= all);
        lemma_object_of_sorted(all);
    }
    Value::Object(entries)
}

impl PartialEq for Number {
    fn eq(&self, other: &Number) -> (r: bool) {
        self.0 == other.0
    }
}

impl vstd::std_specs::cmp::PartialEqSpecImpl for Number {
    open spec fn obeys_eq_spec() -> bool {
        true
    }

    open spec fn eq_spec(&self, other: &Number) -> bool {
        self@ == other@
    }
}

/// Structural equality of two values: equality of their models.
#[verifier::loop_isolation(false)]
pub fn value_eq(a: &Value, b: &Value) -> (r: bool)
    ensures
        r == (a@ == b@),
    decreases a,
{
    broadcast use lemma_view_entries, lemma_view_items;

    match (a, b) {
        (Value::Null, Value::Null) => true,
        (Value::Boolean(x), Value::Boolean(y)) => {
            let r = x == y;
            proof {
                assert(r == (a@ == b@));
            }
            r
        },
        (Value::Int(x), Value::Int(y)) => {
            let r = x == y;
            proof {
                assert(r == (a@ == b@));
            }
            r
        },
        (Value::Float(x), Value::Float(y)) => {
            let r = x == y;
            proof {
                assert(r == (a@ == b@));
            }
            r
        },
        (Value::Number(x), Value::Number(y)) => {
            let r = x.0 == y.0;
            proof {
                assert(r == (x.0@ == y.0@));
                assert(a@ == SpecValue::Number(x.0@));
                assert(b@ == SpecValue::Number(y.0@));
                assert(r == (a@ == b@));
            }
            r
        },
        (Value::String(x), Value::String(y)) => {
            let r = *x == *y;
            proof {
                assert(r == (x@ == y@));
                assert(a@ == SpecValue::String(x@));
                assert(b@ == SpecValue::String(y@));
                assert(r == (a@ == b@));
            }
            r
        },
        (Value::Object(ea), Value::Object(eb)) => {
            if ea.len() != eb.len() {
                proof {
                    assert(a@ == SpecValue::Object(view_entries(ea@)));
                    assert(b@ == SpecValue::Object(view_entries(eb@)));
                    assert(view_entries(ea@).len() != view_entries(eb@).len());
                }
                return false;
            }
            let n = ea.len();
            let mut i: usize = 0;
            while i < n
                invariant
                    i <= n,
                    forall|j: int|
                        0 <= j < i ==> ea@[j].0@ == eb@[j].0@ && ea@[j].1@ == eb@[j].1@,
                decreases n - i,
            {
                proof {
                    assert(decreases_to!(*a => *ea));
                    assert(decreases_to!(*ea => ea@));
                    assert(decreases_to!(ea@ => ea@[i as int]));
                    assert(decreases_to!(ea@[i as int] => ea@[i as int].1));
                    assert(decreases_to!(*a => ea@[i as int].1));
                }
                if !(ea[i].0 == eb[i].0) {
                    proof {
                        assert(view_entries(ea@)[i as int] != view_entries(eb@)[i as int]);
                    }
                    return false;
                }
                if !value_eq(&ea[i].1, &eb[i].1) {
                    proof {
                        assert(view_entries(ea@)[i as int] != view_entries(eb@)[i as int]);
                    }
                    return false;
                }
                i += 1;
            }
            proof {
                assert(view_entries(ea@) =~= view_entries(eb@));
                assert(a@ == SpecValue::Object(view_entries(ea@)));
                assert(b@ == SpecValue::Object(view_entries(eb@)));
            }
            true
        },
        (Value::List(la), Value::List(lb)) => {
            if la.len() != lb.len() {
                proof {
                    assert(a@ == SpecValue::List(view_items(la@)));
                    assert(b@ == SpecValue::List(view_items(lb@)));
                    assert(view_items(la@).len() != view_items(lb@).len());
                }
                return false;
            }
            let n = la.len();
            let mut i: usize = 0;
            while i < n
                invariant
                    i <= n,
                    forall|j: int| 0 <= j < i ==> la@[j]@ == lb@[j]@,
                decreases n - i,
            {
                proof {
                    assert(decreases_to!(*a => *la));
                    assert(decreases_to!(*la => la@));
                    assert(decreases_to!(la@ => la@[i as int]));
                }
                if !value_eq(&la[i], &lb[i]) {
                    proof {
                        assert(view_items(la@)[i as int] != view_items(lb@)[i as int]);
                    }
                    return false;
                }
                i += 1;
            }
            proof {
                assert(view_items(la@) =~= view_items(lb@));
                assert(a@ == SpecValue::List(view_items(la@)));
                assert(b@ == SpecValue::List(view_items(lb@)));
            }
            true
        },
        _ => {
            proof {
                assert(a@ != b@);
            }
            false
        },
    }
}

impl PartialEq for Value {
    fn eq(&self, other: &Value) -> (r: bool) {
        value_eq(self, other)
    }
}

impl vstd::std_specs::cmp::PartialEqSpecImpl for Value {
    open spec fn obeys_eq_spec() -> bool {
        true
    }

    open spec fn eq_spec(&self, other: &Value) -> bool {
        self@ == other@
    }
}

} // verus!
