//! The built-in resource library: the resource structs and, for the simple
//! functions, their resolvers over already-evaluated arguments. Each resolver
//! is specified exactly by a spec function over value models.

use vstd::prelude::*;

use crate::floatops::FLOAT_ONE;
use crate::floatops::FLOAT_ZERO;
use crate::floatops::add_floats;
use crate::floatops::float_add;
use crate::floatops::float_gt;
use crate::floatops::float_mul;
use crate::floatops::float_of_int;
use crate::floatops::float_sub;
use crate::floatops::float_text;
use crate::floatops::float_to_text;
use crate::floatops::gt_floats;
use crate::floatops::int_to_float;
use crate::floatops::mul_floats;
use crate::floatops::sub_floats;
use crate::numeric::int_chars;
use crate::numeric::spec_int_chars;
use crate::resource::Resource;
use crate::resource::ResourceKind;
use crate::resource::kind_name_of;
use crate::strutil::lower_of;
use crate::strutil::string_from_chars;
use crate::strutil::to_lowercase;
use crate::strutil::to_uppercase;
use crate::strutil::upper_of;
use crate::value::SpecValue;
use crate::value::Value;
use crate::value::lemma_view_entries;
use crate::value::lemma_view_items;
use crate::value::value_eq;
use crate::value::view_entries;
use crate::value::view_items;

verus! {

/// The state of the addition fold: float accumulator bits, integer
/// accumulator, and whether a float or an integer operand was seen.
pub open spec fn sp_sum_acc(args: Seq<SpecValue>) -> (u32, i32, bool, bool)
    decreases args.len(),
{
    if args.len() == 0 {
        (FLOAT_ZERO, 0i32, false, false)
    } else {
        let (f, s, hf, hi) = sp_sum_acc(args.drop_last());
        match args.last() {
            SpecValue::Int(x) => (f, vstd::wrapping::i32_specs::wrapping_add(s, x), hf, true),
            SpecValue::Float(b) => (float_add(f, b), s, true, hi),
            _ => (f, s, hf, hi),
        }
    }
}

/// How an arithmetic fold combines its two accumulators into a result: a
/// float operand promotes the whole result to float.
pub open spec fn sp_arith_result(
    acc: (u32, i32, bool, bool),
    combine_int: u32,
) -> SpecValue {
    if acc.2 && acc.3 {
        SpecValue::Float(combine_int)
    } else if acc.2 {
        SpecValue::Float(acc.0)
    } else {
        SpecValue::Int(acc.1)
    }
}

/// What the addition resource returns: non-numeric operands are ignored,
/// integer overflow wraps, a float operand promotes the result to float.
pub open spec fn sp_sum(args: Seq<SpecValue>) -> SpecValue {
    let acc = sp_sum_acc(args);
    sp_arith_result(acc, float_add(acc.0, float_of_int(acc.1)))
}

/// The state of the subtraction fold: the first operand starts each
/// accumulator, later operands subtract in positional order.
pub open spec fn sp_minus_acc(args: Seq<SpecValue>) -> (u32, i32, bool, bool)
    decreases args.len(),
{
    if args.len() == 0 {
        (FLOAT_ZERO, 0i32, false, false)
    } else {
        let (f, s, hf, hi) = sp_minus_acc(args.drop_last());
        let idx = args.len() - 1;
        match args.last() {
            SpecValue::Int(x) => if idx == 0 {
                (f, x, hf, true)
            } else {
                (f, vstd::wrapping::i32_specs::wrapping_sub(s, x), hf, true)
            },
            SpecValue::Float(b) => if idx == 0 {
                (b, s, true, hi)
            } else {
                (float_sub(f, b), s, true, hi)
            },
            _ => (f, s, hf, hi),
        }
    }
}

/// What the subtraction resource returns.
pub open spec fn sp_minus(args: Seq<SpecValue>) -> SpecValue {
    let acc = sp_minus_acc(args);
    sp_arith_result(acc, float_add(acc.0, float_of_int(acc.1)))
}

/// The state of the multiplication fold.
pub open spec fn sp_times_acc(args: Seq<SpecValue>) -> (u32, i32, bool, bool)
    decreases args.len(),
{
    if args.len() == 0 {
        (FLOAT_ONE, 1i32, false, false)
    } else {
        let (f, s, hf, hi) = sp_times_acc(args.drop_last());
        match args.last() {
            SpecValue::Int(x) => (f, vstd::wrapping::i32_specs::wrapping_mul(s, x), hf, true),
            SpecValue::Float(b) => (float_mul(f, b), s, true, hi),
            _ => (f, s, hf, hi),
        }
    }
}

/// What the multiplication resource returns.
pub open spec fn sp_times(args: Seq<SpecValue>) -> SpecValue {
    let acc = sp_times_acc(args);
    sp_arith_result(acc, float_mul(acc.0, float_of_int(acc.1)))
}

/// One level of flattening of a single value: a list's items flattened in
/// turn, an object's values taken without their keys, a scalar by itself.
pub open spec fn sp_flat_one(v: SpecValue) -> Seq<SpecValue>
    decreases v,
{
    match v {
        SpecValue::List(l) => sp_flatten(l),
        SpecValue::Object(es) => Seq::new(es.len(), |i: int| es[i].1),
        _ => seq![v],
    }
}

/// Depth-first flattening of nested lists; object values are taken without
/// keys and not flattened further.
pub open spec fn sp_flatten(args: Seq<SpecValue>) -> Seq<SpecValue>
    decreases args,
{
    if args.len() == 0 {
        Seq::empty()
    } else {
        sp_flatten(args.drop_last()) + sp_flat_one(args.last())
    }
}

/// One step of the maximum fold: the first numeric operand seeds the
/// accumulator; non-numeric operands are ignored.
pub open spec fn sp_max_step(acc: SpecValue, v: SpecValue) -> SpecValue {
    if (acc matches SpecValue::Null) {
        match v {
            SpecValue::Int(x) => SpecValue::Int(x),
            SpecValue::Float(b) => SpecValue::Float(b),
            _ => acc,
        }
    } else {
        match (acc, v) {
            (SpecValue::Int(a), SpecValue::Int(b)) => SpecValue::Int(
                if b > a {
                    b
                } else {
                    a
                },
            ),
            (SpecValue::Int(a), SpecValue::Float(b)) => if float_gt(b, float_of_int(a)) {
                SpecValue::Float(b)
            } else {
                SpecValue::Int(a)
            },
            (SpecValue::Float(a), SpecValue::Int(b)) => if float_gt(float_of_int(b), a) {
                SpecValue::Int(b)
            } else {
                SpecValue::Float(a)
            },
            (SpecValue::Float(a), SpecValue::Float(b)) => SpecValue::Float(
                if float_gt(b, a) {
                    b
                } else {
                    a
                },
            ),
            (a, _) => a,
        }
    }
}

/// The maximum fold over already-flattened values.
pub open spec fn sp_max_fold(s: Seq<SpecValue>) -> SpecValue
    decreases s.len(),
{
    if s.len() == 0 {
        SpecValue::Null
    } else {
        sp_max_step(sp_max_fold(s.drop_last()), s.last())
    }
}

/// What the maximum resource returns: `Null` only for an empty argument set.
pub open spec fn sp_max(args: Seq<SpecValue>) -> SpecValue {
    if args.len() > 0 {
        sp_max_fold(sp_flatten(args))
    } else {
        SpecValue::Null
    }
}

/// The equality fold: each operand is compared with the one before it, and
/// the last comparison is the result; fewer than two operands give true.
pub open spec fn sp_equals_acc(args: Seq<SpecValue>) -> (bool, SpecValue)
    decreases args.len(),
{
    if args.len() == 0 {
        (true, SpecValue::Null)
    } else {
        let (eq, prev) = sp_equals_acc(args.drop_last());
        if args.len() == 1 {
            (eq, args.last())
        } else {
            (prev == args.last(), args.last())
        }
    }
}

/// What the equality resource returns.
pub open spec fn sp_equals(args: Seq<SpecValue>) -> SpecValue {
    SpecValue::Boolean(sp_equals_acc(args).0)
}

/// The concatenation fold: strings pass through, numbers are printed,
/// other operands are dropped.
pub open spec fn sp_concat_acc(args: Seq<SpecValue>) -> Seq<char>
    decreases args.len(),
{
    if args.len() == 0 {
        Seq::empty()
    } else {
        let acc = sp_concat_acc(args.drop_last());
        match args.last() {
            SpecValue::Int(x) => acc + spec_int_chars(x as int),
            SpecValue::Float(b) => acc + float_text(b),
            SpecValue::String(s) => acc + s,
            _ => acc,
        }
    }
}

/// What the concatenation resource returns.
pub open spec fn sp_concat(args: Seq<SpecValue>) -> SpecValue {
    SpecValue::String(sp_concat_acc(args))
}

/// What the case-conversion resources return: they act on a first string
/// argument and pass anything else through unchanged.
pub open spec fn sp_to_lower(args: Seq<SpecValue>) -> SpecValue {
    if args.len() == 0 {
        SpecValue::Null
    } else {
        match args[0] {
            SpecValue::String(s) => SpecValue::String(lower_of(s)),
            v => v,
        }
    }
}

/// See `sp_to_lower`.
pub open spec fn sp_to_upper(args: Seq<SpecValue>) -> SpecValue {
    if args.len() == 0 {
        SpecValue::Null
    } else {
        match args[0] {
            SpecValue::String(s) => SpecValue::String(upper_of(s)),
            v => v,
        }
    }
}

/// What the list resource returns: its arguments, verbatim.
pub open spec fn sp_list(args: Seq<SpecValue>) -> SpecValue {
    SpecValue::List(args)
}

/// What a resolver-based resource returns for resolved arguments. Kinds that
/// compute through the evaluator instead keep the default resolver, which
/// returns `Null`.
pub open spec fn sp_resolve(kind: ResourceKind, args: Seq<SpecValue>) -> SpecValue {
    match kind {
        ResourceKind::Equals => sp_equals(args),
        ResourceKind::Sum => sp_sum(args),
        ResourceKind::Minus => sp_minus(args),
        ResourceKind::Times => sp_times(args),
        ResourceKind::Max => sp_max(args),
        ResourceKind::List => sp_list(args),
        ResourceKind::Concat => sp_concat(args),
        ResourceKind::ToLowerCase => sp_to_lower(args),
        ResourceKind::ToUpperCase => sp_to_upper(args),
        _ => SpecValue::Null,
    }
}

/// Runs the resolver of a resolver-based kind over resolved arguments,
/// exactly as `sp_resolve` says.
#[verifier::loop_isolation(false)]
pub fn resolve(kind: ResourceKind, args: Vec<Value>) -> (r: Value)
    ensures
        r@ == sp_resolve(kind, view_items(args@)),
{
    broadcast use lemma_view_items;

    match kind {
        ResourceKind::Equals => equals_resolver(args),
        ResourceKind::Sum => sum_resolver(args),
        ResourceKind::Minus => minus_resolver(args),
        ResourceKind::Times => times_resolver(args),
        ResourceKind::Max => max_resolver(args),
        ResourceKind::List => Value::List(args),
        ResourceKind::Concat => concat_resolver(args),
        ResourceKind::ToLowerCase => lower_resolver(args),
        ResourceKind::ToUpperCase => upper_resolver(args),
        _ => Value::Null,
    }
}

/// The addition fold, as `sp_sum` says.
#[verifier::loop_isolation(false)]
fn sum_resolver(args: Vec<Value>) -> (r: Value)
    ensures
        r@ == sp_sum(view_items(args@)),
{
    broadcast use lemma_view_items;

    let ghost sargs = view_items(args@);
    let mut facc: u32 = FLOAT_ZERO;
    let mut iacc: i32 = 0;
    let mut hf = false;
    let mut hi = false;
    let n = args.len();
    let mut i: usize = 0;
    while i < n
        invariant
            i <= n,
            (facc, iacc, hf, hi) == sp_sum_acc(sargs.take(i as int)),
        decreases n - i,
    {
        proof {
            assert(sargs.take(i + 1).drop_last() =~= sargs.take(i as int));
            assert(sargs.take(i + 1).last() == args@[i as int]@);
        }
        match &args[i] {
            Value::Int(x) => {
                iacc = iacc.wrapping_add(*x);
                hi = true;
            },
            Value::Float(b) => {
                facc = add_floats(facc, *b);
                hf = true;
            },
            _ => {},
        }
        i += 1;
    }
    proof {
        assert(sargs.take(n as int) =~= sargs);
    }
    if hf && hi {
        Value::Float(add_floats(facc, int_to_float(iacc)))
    } else if hf {
        Value::Float(facc)
    } else {
        Value::Int(iacc)
    }
}

/// The subtraction fold, as `sp_minus` says.
#[verifier::loop_isolation(false)]
fn minus_resolver(args: Vec<Value>) -> (r: Value)
    ensures
        r@ == sp_minus(view_items(args@)),
{
    broadcast use lemma_view_items;

    let ghost sargs = view_items(args@);
    let mut facc: u32 = FLOAT_ZERO;
    let mut iacc: i32 = 0;
    let mut hf = false;
    let mut hi = false;
    let n = args.len();
    let mut i: usize = 0;
    while i < n
        invariant
            i <= n,
            (facc, iacc, hf, hi) == sp_minus_acc(sargs.take(i as int)),
        decreases n - i,
    {
        proof {
            assert(sargs.take(i + 1).drop_last() =~= sargs.take(i as int));
            assert(sargs.take(i + 1).last() == args@[i as int]@);
        }
        match &args[i] {
            Value::Int(x) => {
                if i == 0 {
                    iacc = *x;
                } else {
                    iacc = iacc.wrapping_sub(*x);
                }
                hi = true;
            },
            Value::Float(b) => {
                if i == 0 {
                    facc = *b;
                } else {
                    facc = sub_floats(facc, *b);
                }
                hf = true;
            },
            _ => {},
        }
        i += 1;
    }
    proof {
        assert(sargs.take(n as int) =~= sargs);
    }
    if hf && hi {
        Value::Float(add_floats(facc, int_to_float(iacc)))
    } else if hf {
        Value::Float(facc)
    } else {
        Value::Int(iacc)
    }
}

/// The multiplication fold, as `sp_times` says.
#[verifier::loop_isolation(false)]
fn times_resolver(args: Vec<Value>) -> (r: Value)
    ensures
        r@ == sp_times(view_items(args@)),
{
    broadcast use lemma_view_items;

    let ghost sargs = view_items(args@);
    let mut facc: u32 = FLOAT_ONE;
    let mut iacc: i32 = 1;
    let mut hf = false;
    let mut hi = false;
    let n = args.len();
    let mut i: usize = 0;
    while i < n
        invariant
            i <= n,
            (facc, iacc, hf, hi) == sp_times_acc(sargs.take(i as int)),
        decreases n - i,
    {
        proof {
            assert(sargs.take(i + 1).drop_last() =~= sargs.take(i as int));
            assert(sargs.take(i + 1).last() == args@[i as int]@);
        }
        match &args[i] {
            Value::Int(x) => {
                iacc = iacc.wrapping_mul(*x);
                hi = true;
            },
            Value::Float(b) => {
                facc = mul_floats(facc, *b);
                hf = true;
            },
            _ => {},
        }
        i += 1;
    }
    proof {
        assert(sargs.take(n as int) =~= sargs);
    }
    if hf && hi {
        Value::Float(mul_floats(facc, int_to_float(iacc)))
    } else if hf {
        Value::Float(facc)
    } else {
        Value::Int(iacc)
    }
}

/// Depth-first flattening of nested lists, as `sp_flatten` says.
pub fn flatten(args: Vec<Value>) -> (r: Vec<Value>)
    ensures
        view_items(r@) == sp_flatten(view_items(args@)),
{
    flatten_ref(&args)
}

#[verifier::loop_isolation(false)]
fn flatten_ref(args: &Vec<Value>) -> (r: Vec<Value>)
    ensures
        view_items(r@) == sp_flatten(view_items(args@)),
    decreases args,
{
    broadcast use lemma_view_items, lemma_view_entries;

    let ghost sargs = view_items(args@);
    let mut out: Vec<Value> = Vec::new();
    let n = args.len();
    let mut i: usize = 0;
    proof {
        assert(view_items(out@) =~= sp_flatten(sargs.take(0)));
    }
    while i < n
        invariant
            i <= n,
            view_items(out@) == sp_flatten(sargs.take(i as int)),
        decreases n - i,
    {
        proof {
            assert(sargs.take(i + 1).drop_last() =~= sargs.take(i as int));
            assert(sargs.take(i + 1).last() == args@[i as int]@);
            assert(decreases_to!(*args => args@));
            assert(decreases_to!(args@ => args@[i as int]));
        }
        let ghost opre = out@;
        match &args[i] {
            Value::List(l) => {
                let sub = flatten_ref(l);
                let m = sub.len();
                let mut j: usize = 0;
                while j < m
                    invariant
                        j <= m,
                        view_items(out@) == view_items(opre) + view_items(sub@).take(j as int),
                    decreases m - j,
                {
                    let ghost obefore = out@;
                    let item = sub[j].clone();
                    let ghost itemv = item@;
                    out.push(item);
                    proof {
                        lemma_view_items(obefore);
                        lemma_view_items(out@);
                        lemma_view_items(sub@);
                        let goal = view_items(opre) + view_items(sub@).take(j + 1);
                        assert forall|k: int|
                            0 <= k < view_items(out@).len() implies view_items(out@)[k] == goal[k] by {
                            assert(view_items(out@)[k] == out@[k]@);
                            if k < obefore.len() {
                                assert(out@[k] == obefore[k]);
                                assert(view_items(obefore)[k] == obefore[k]@);
                            } else {
                                assert(out@[k]@ == itemv);
                                assert(itemv == view_items(sub@)[j as int]);
                            }
                        }
                        assert(view_items(out@) =~= goal);
                    }
                    j += 1;
                }
                proof {
                    assert(view_items(sub@).take(m as int) =~= view_items(sub@));
                    assert(sp_flat_one(args@[i as int]@) == sp_flatten(view_items(l@)));
                    assert(view_items(out@) =~= sp_flatten(sargs.take(i + 1)));
                }
            },
            Value::Object(es) => {
                let m = es.len();
                let mut j: usize = 0;
                while j < m
                    invariant
                        j <= m,
                        view_items(out@) == view_items(opre) + Seq::new(
                            view_entries(es@).len(),
                            |k: int| view_entries(es@)[k].1,
                        ).take(j as int),
                    decreases m - j,
                {
                    let ghost obefore = out@;
                    let item = es[j].1.clone();
                    let ghost itemv = item@;
                    out.push(item);
                    proof {
                        lemma_view_items(obefore);
                        lemma_view_items(out@);
                        lemma_view_entries(es@);
                        let vals = Seq::new(view_entries(es@).len(), |k: int| view_entries(es@)[k].1);
                        let goal = view_items(opre) + vals.take(j + 1);
                        assert forall|k: int|
                            0 <= k < view_items(out@).len() implies view_items(out@)[k] == goal[k] by {
                            assert(view_items(out@)[k] == out@[k]@);
                            if k < obefore.len() {
                                assert(out@[k] == obefore[k]);
                                assert(view_items(obefore)[k] == obefore[k]@);
                            } else {
                                assert(out@[k]@ == itemv);
                                assert(itemv == view_entries(es@)[j as int].1);
                            }
                        }
                        assert(view_items(out@) =~= goal);
                    }
                    j += 1;
                }
                proof {
                    let flat = Seq::new(view_entries(es@).len(), |k: int| view_entries(es@)[k].1);
                    assert(flat.take(m as int) =~= flat);
                    assert(sp_flat_one(args@[i as int]@) == flat);
                    assert(view_items(out@) =~= sp_flatten(sargs.take(i + 1)));
                }
            },
            other => {
                let item = other.clone();
                out.push(item);
                proof {
                    assert(sp_flat_one(args@[i as int]@) =~= seq![args@[i as int]@]);
                    assert(view_items(out@) =~= sp_flatten(sargs.take(i + 1)));
                }
            },
        }
        i += 1;
    }
    proof {
        assert(sargs.take(n as int) =~= sargs);
    }
    out
}

/// The maximum fold, as `sp_max` says.
#[verifier::loop_isolation(false)]
fn max_resolver(args: Vec<Value>) -> (r: Value)
    ensures
        r@ == sp_max(view_items(args@)),
{
    broadcast use lemma_view_items;

    if args.len() == 0 {
        return Value::Null;
    }
    let ghost sargs = view_items(args@);
    let flat = flatten(args);
    let ghost sflat = view_items(flat@);
    let mut acc = Value::Null;
    let n = flat.len();
    let mut i: usize = 0;
    while i < n
        invariant
            i <= n,
            acc@ == sp_max_fold(sflat.take(i as int)),
        decreases n - i,
    {
        proof {
            assert(sflat.take(i + 1).drop_last() =~= sflat.take(i as int));
            assert(sflat.take(i + 1).last() == flat@[i as int]@);
        }
        let is_null = acc.is_null();
        if is_null {
            match &flat[i] {
                Value::Int(x) => {
                    acc = Value::Int(*x);
                },
                Value::Float(b) => {
                    acc = Value::Float(*b);
                },
                _ => {},
            }
        } else {
            let next = match (&acc, &flat[i]) {
                (Value::Int(a), Value::Int(b)) => Value::Int(
                    if *b > *a {
                        *b
                    } else {
                        *a
                    },
                ),
                (Value::Int(a), Value::Float(b)) => {
                    if gt_floats(*b, int_to_float(*a)) {
                        Value::Float(*b)
                    } else {
                        Value::Int(*a)
                    }
                },
                (Value::Float(a), Value::Int(b)) => {
                    if gt_floats(int_to_float(*b), *a) {
                        Value::Int(*b)
                    } else {
                        Value::Float(*a)
                    }
                },
                (Value::Float(a), Value::Float(b)) => Value::Float(
                    if gt_floats(*b, *a) {
                        *b
                    } else {
                        *a
                    },
                ),
                (a, _) => a.clone(),
            };
            acc = next;
        }
        i += 1;
    }
    proof {
        assert(sflat.take(n as int) =~= sflat);
    }
    acc
}

/// The equality fold, as `sp_equals` says.
#[verifier::loop_isolation(false)]
fn equals_resolver(args: Vec<Value>) -> (r: Value)
    ensures
        r@ == sp_equals(view_items(args@)),
{
    broadcast use lemma_view_items;

    let ghost sargs = view_items(args@);
    let mut eq = true;
    let mut prev = Value::Null;
    let n = args.len();
    let mut i: usize = 0;
    while i < n
        invariant
            i <= n,
            eq == sp_equals_acc(sargs.take(i as int)).0,
            prev@ == sp_equals_acc(sargs.take(i as int)).1,
        decreases n - i,
    {
        proof {
            assert(sargs.take(i + 1).drop_last() =~= sargs.take(i as int));
            assert(sargs.take(i + 1).last() == args@[i as int]@);
        }
        if i > 0 {
            eq = value_eq(&prev, &args[i]);
        }
        prev = args[i].clone();
        i += 1;
    }
    proof {
        assert(sargs.take(n as int) =~= sargs);
    }
    Value::Boolean(eq)
}

/// The concatenation fold, as `sp_concat` says.
#[verifier::loop_isolation(false)]
fn concat_resolver(args: Vec<Value>) -> (r: Value)
    ensures
        r@ == sp_concat(view_items(args@)),
{
    broadcast use lemma_view_items;

    let ghost sargs = view_items(args@);
    let mut acc = String::new();
    let n = args.len();
    let mut i: usize = 0;
    while i < n
        invariant
            i <= n,
            acc@ == sp_concat_acc(sargs.take(i as int)),
        decreases n - i,
    {
        proof {
            assert(sargs.take(i + 1).drop_last() =~= sargs.take(i as int));
            assert(sargs.take(i + 1).last() == args@[i as int]@);
        }
        match &args[i] {
            Value::Int(x) => {
                let digits = int_chars(*x);
                let text = string_from_chars(&digits);
                acc.append(text.as_str());
            },
            Value::Float(b) => {
                let text = float_to_text(*b);
                acc.append(text.as_str());
            },
            Value::String(s) => {
                acc.append(s.as_str());
            },
            _ => {},
        }
        i += 1;
    }
    proof {
        assert(sargs.take(n as int) =~= sargs);
    }
    Value::String(acc)
}

/// The lowercasing resource, as `sp_to_lower` says.
fn lower_resolver(args: Vec<Value>) -> (r: Value)
    ensures
        r@ == sp_to_lower(view_items(args@)),
{
    broadcast use lemma_view_items;

    if args.len() == 0 {
        return Value::Null;
    }
    match &args[0] {
        Value::String(s) => Value::String(to_lowercase(s)),
        other => other.clone(),
    }
}

/// The uppercasing resource, as `sp_to_upper` says.
fn upper_resolver(args: Vec<Value>) -> (r: Value)
    ensures
        r@ == sp_to_upper(view_items(args@)),
{
    broadcast use lemma_view_items;

    if args.len() == 0 {
        return Value::Null;
    }
    match &args[0] {
        Value::String(s) => Value::String(to_uppercase(s)),
        other => other.clone(),
    }
}

/// The statement-sequence resource, `ask`.
pub struct AskResource;

/// The invocation resource, `call`.
pub struct CallResource;

/// The indirection resource, `get`.
pub struct GetResource;

/// The fragment resource, `f`: a labelled grouping with `ask`'s semantics.
pub struct FragmentResource;

/// The equality resource, `equals`.
pub struct EqualsResource;

/// The addition resource, `+`.
pub struct SumResource;

/// The subtraction resource, `-`.
pub struct MinusResource;

/// The multiplication resource, `*`.
pub struct TimesResource;

/// The maximum resource, `max`.
pub struct MaxResource;

/// The list-building resource, `list`.
pub struct ListResource;

/// The string-concatenation resource, `concat`.
pub struct ConcatResource;

/// The lowercasing resource, `toLowerCase`.
pub struct ToLowerCaseResource;

/// The uppercasing resource, `toUpperCase`.
pub struct ToUpperCaseResource;

/// The projection resource, `node`.
pub struct NodeResource;

/// The projection sugar resource, `query`.
pub struct QueryResource(pub NodeResource);

impl QueryResource {
    pub fn new() -> (r: Self)
        ensures
            r.kind_spec() == ResourceKind::Query,
    {
        QueryResource(NodeResource {  })
    }
}

impl Resource for AskResource {
    open spec fn kind_spec(&self) -> ResourceKind {
        ResourceKind::Ask
    }

    fn kind(&self) -> ResourceKind {
        ResourceKind::Ask
    }

    fn name(&self) -> String {
        kind_name_of(ResourceKind::Ask)
    }
}

impl Resource for CallResource {
    open spec fn kind_spec(&self) -> ResourceKind {
        ResourceKind::Call
    }

    fn kind(&self) -> ResourceKind {
        ResourceKind::Call
    }

    fn name(&self) -> String {
        kind_name_of(ResourceKind::Call)
    }
}

impl Resource for GetResource {
    open spec fn kind_spec(&self) -> ResourceKind {
        ResourceKind::Get
    }

    fn kind(&self) -> ResourceKind {
        ResourceKind::Get
    }

    fn name(&self) -> String {
        kind_name_of(ResourceKind::Get)
    }
}

impl Resource for FragmentResource {
    open spec fn kind_spec(&self) -> ResourceKind {
        ResourceKind::Fragment
    }

    fn kind(&self) -> ResourceKind {
        ResourceKind::Fragment
    }

    fn name(&self) -> String {
        kind_name_of(ResourceKind::Fragment)
    }
}

impl Resource for EqualsResource {
    open spec fn kind_spec(&self) -> ResourceKind {
        ResourceKind::Equals
    }

    fn kind(&self) -> ResourceKind {
        ResourceKind::Equals
    }

    fn name(&self) -> String {
        kind_name_of(ResourceKind::Equals)
    }
}

impl EqualsResource {
    pub fn resolver(&self, args: Vec<Value>) -> (r: Value)
        ensures
            r@ == sp_equals(view_items(args@)),
    {
        equals_resolver(args)
    }
}

impl Resource for SumResource {
    open spec fn kind_spec(&self) -> ResourceKind {
        ResourceKind::Sum
    }

    fn kind(&self) -> ResourceKind {
        ResourceKind::Sum
    }

    fn name(&self) -> String {
        kind_name_of(ResourceKind::Sum)
    }
}

impl SumResource {
    pub fn resolver(&self, args: Vec<Value>) -> (r: Value)
        ensures
            r@ == sp_sum(view_items(args@)),
    {
        sum_resolver(args)
    }
}

impl Resource for MinusResource {
    open spec fn kind_spec(&self) -> ResourceKind {
        ResourceKind::Minus
    }

    fn kind(&self) -> ResourceKind {
        ResourceKind::Minus
    }

    fn name(&self) -> String {
        kind_name_of(ResourceKind::Minus)
    }
}

impl MinusResource {
    pub fn resolver(&self, args: Vec<Value>) -> (r: Value)
        ensures
            r@ == sp_minus(view_items(args@)),
    {
        minus_resolver(args)
    }
}

impl Resource for TimesResource {
    open spec fn kind_spec(&self) -> ResourceKind {
        ResourceKind::Times
    }

    fn kind(&self) -> ResourceKind {
        ResourceKind::Times
    }

    fn name(&self) -> String {
        kind_name_of(ResourceKind::Times)
    }
}

impl TimesResource {
    pub fn resolver(&self, args: Vec<Value>) -> (r: Value)
        ensures
            r@ == sp_times(view_items(args@)),
    {
        times_resolver(args)
    }
}

impl Resource for MaxResource {
    open spec fn kind_spec(&self) -> ResourceKind {
        ResourceKind::Max
    }

    fn kind(&self) -> ResourceKind {
        ResourceKind::Max
    }

    fn name(&self) -> String {
        kind_name_of(ResourceKind::Max)
    }
}

impl MaxResource {
    pub fn resolver(&self, args: Vec<Value>) -> (r: Value)
        ensures
            r@ == sp_max(view_items(args@)),
    {
        max_resolver(args)
    }
}

impl Resource for ListResource {
    open spec fn kind_spec(&self) -> ResourceKind {
        ResourceKind::List
    }

    fn kind(&self) -> ResourceKind {
        ResourceKind::List
    }

    fn name(&self) -> String {
        kind_name_of(ResourceKind::List)
    }
}

impl ListResource {
    pub fn resolver(&self, args: Vec<Value>) -> (r: Value)
        ensures
            r@ == sp_list(view_items(args@)),
    {
        Value::List(args)
    }
}

impl Resource for ConcatResource {
    open spec fn kind_spec(&self) -> ResourceKind {
        ResourceKind::Concat
    }

    fn kind(&self) -> ResourceKind {
        ResourceKind::Concat
    }

    fn name(&self) -> String {
        kind_name_of(ResourceKind::Concat)
    }
}

impl ConcatResource {
    pub fn resolver(&self, args: Vec<Value>) -> (r: Value)
        ensures
            r@ == sp_concat(view_items(args@)),
    {
        concat_resolver(args)
    }
}

impl Resource for ToLowerCaseResource {
    open spec fn kind_spec(&self) -> ResourceKind {
        ResourceKind::ToLowerCase
    }

    fn kind(&self) -> ResourceKind {
        ResourceKind::ToLowerCase
    }

    fn name(&self) -> String {
        kind_name_of(ResourceKind::ToLowerCase)
    }
}

impl ToLowerCaseResource {
    pub fn resolver(&self, args: Vec<Value>) -> (r: Value)
        ensures
            r@ == sp_to_lower(view_items(args@)),
    {
        lower_resolver(args)
    }
}

impl Resource for ToUpperCaseResource {
    open spec fn kind_spec(&self) -> ResourceKind {
        ResourceKind::ToUpperCase
    }

    fn kind(&self) -> ResourceKind {
        ResourceKind::ToUpperCase
    }

    fn name(&self) -> String {
        kind_name_of(ResourceKind::ToUpperCase)
    }
}

impl ToUpperCaseResource {
    pub fn resolver(&self, args: Vec<Value>) -> (r: Value)
        ensures
            r@ == sp_to_upper(view_items(args@)),
    {
        upper_resolver(args)
    }
}

impl Resource for NodeResource {
    open spec fn kind_spec(&self) -> ResourceKind {
        ResourceKind::Node
    }

    fn kind(&self) -> ResourceKind {
        ResourceKind::Node
    }

    fn name(&self) -> String {
        kind_name_of(ResourceKind::Node)
    }
}

impl Resource for QueryResource {
    open spec fn kind_spec(&self) -> ResourceKind {
        ResourceKind::Query
    }

    fn kind(&self) -> ResourceKind {
        ResourceKind::Query
    }

    fn name(&self) -> String {
        kind_name_of(ResourceKind::Query)
    }
}

} // verus!
