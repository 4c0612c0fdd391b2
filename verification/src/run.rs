//! The evaluator: recursive dispatch of AST nodes to resources or bound
//! values, with lexical scope overrides. The whole evaluation is specified by
//! the spec interpreter `sp_run` and proved to return exactly what it says.
//!
//! Evaluation depth is bounded by an explicit fuel; the parser has a step
//! budget for the same purpose, and an evaluation deeper than the fuel fails
//! with `DepthExceeded` instead of exhausting the stack.

use vstd::prelude::*;

use crate::askcode::AskCode;
use crate::askcode::AskCodeOrValue;
use crate::askcode::SpecAskCode;
use crate::askcode::SpecCode;
use crate::askcode::lemma_view_codes;
use crate::askcode::view_codes;
use crate::floatops::FLOAT_ZERO;
use crate::numeric::spec_is_float_text;
use crate::numeric::spec_parse_i32;
use crate::floatops::float_of_text;
use crate::resource::Resource;
use crate::resource::ResourceKind;
use crate::resource::kind_name;
use crate::resources::resolve;
use crate::resources::sp_resolve;
use crate::value::SpecValue;
use crate::value::Value;
use crate::value::entries_insert;
use crate::value::lemma_view_entries;
use crate::value::lemma_view_items;
use crate::value::spec_assoc;
use crate::value::spec_entries_insert;
use crate::value::view_entries;
use crate::value::view_items;

verus! {

/// Why an evaluation failed.
#[derive(Debug, PartialEq, Eq)]
pub enum EvalError {
    /// No resource and no bound value matches the name being dispatched.
    UnknownIdentifier(String),
    /// A field child of a projection is not a named node.
    MalformedProjectionField,
    /// The evaluation exceeded the depth ceiling.
    DepthExceeded,
}

/// The model of an evaluation failure.
#[verifier::ext_equal]
pub enum SpecEvalError {
    UnknownIdentifier(Seq<char>),
    MalformedProjectionField,
    DepthExceeded,
}

/// Whether an executable evaluation error is the modelled one.
pub open spec fn eerr_matches(e: EvalError, s: SpecEvalError) -> bool {
    match (e, s) {
        (EvalError::UnknownIdentifier(n), SpecEvalError::UnknownIdentifier(m)) => n@ == m,
        (EvalError::MalformedProjectionField, SpecEvalError::MalformedProjectionField) => true,
        (EvalError::DepthExceeded, SpecEvalError::DepthExceeded) => true,
        _ => false,
    }
}

/// Whether an executable evaluation outcome is the modelled one.
pub open spec fn rr_matches(
    r: Result<Value, EvalError>,
    s: Result<SpecValue, SpecEvalError>,
) -> bool {
    match (r, s) {
        (Result::Ok(v), Result::Ok(sv)) => v@ == sv,
        (Result::Err(e), Result::Err(se)) => eerr_matches(e, se),
        _ => false,
    }
}

/// The model of a binding list.
pub open spec fn view_bindings(s: Seq<(String, AskCodeOrValue)>) -> Seq<(Seq<char>, SpecCode)> {
    Seq::new(s.len(), |i: int| (s[i].0@, s[i].1@))
}

/// The model of an optional argument list.
pub open spec fn view_args(a: Option<Vec<Value>>) -> Option<Seq<SpecValue>> {
    match a {
        Option::None => Option::None,
        Option::Some(v) => Option::Some(view_items(v@)),
    }
}

/// The model of an optional borrowed scope.
pub open spec fn view_scope(s: Option<&Vec<(String, AskCodeOrValue)>>) -> Option<
    Seq<(Seq<char>, SpecCode)>,
> {
    match s {
        Option::None => Option::None,
        Option::Some(v) => Option::Some(view_bindings(v@)),
    }
}

/// The model of a kind registry.
pub open spec fn view_kinds(s: Seq<(String, ResourceKind)>) -> Seq<(Seq<char>, ResourceKind)> {
    Seq::new(s.len(), |i: int| (s[i].0@, s[i].1))
}

/// The evaluation environment: the resource registry and the bound values,
/// both read-only for the life of a VM.
#[verifier::ext_equal]
pub struct SpecEnv {
    pub resources: Seq<(Seq<char>, ResourceKind)>,
    pub values: Seq<(Seq<char>, SpecCode)>,
}

/// What a deferred numeric literal evaluates to: its float if its text has a
/// decimal point, else its integer; unreadable text gives zero.
pub open spec fn sp_number_value(text: Seq<char>) -> SpecValue {
    if spec_is_float_text(text) {
        SpecValue::Float(
            match float_of_text(text) {
                Option::Some(b) => b,
                Option::None => FLOAT_ZERO,
            },
        )
    } else {
        SpecValue::Int(
            match spec_parse_i32(text) {
                Option::Some(v) => v,
                Option::None => 0i32,
            },
        )
    }
}

/// The scope a projection binds from its first argument: the entries of an
/// object become overrides, anything else binds nothing.
pub open spec fn sp_args_to_scope(args: Option<Seq<SpecValue>>) -> Option<
    Seq<(Seq<char>, SpecCode)>,
> {
    match args {
        Option::Some(a) => if a.len() > 0 {
            match a[0] {
                SpecValue::Object(entries) => Option::Some(
                    Seq::new(entries.len(), |i: int| (entries[i].0, SpecCode::Value(entries[i].1))),
                ),
                _ => Option::None,
            }
        } else {
            Option::None
        },
        Option::None => Option::None,
    }
}

/// The parameter list of a node, or empty.
pub open spec fn sp_params_of(c: SpecAskCode) -> Seq<SpecCode> {
    match c.params {
        Option::Some(ps) => ps,
        Option::None => Seq::empty(),
    }
}

/// One evaluation step. Dispatch order: a deferred number resolves; any other
/// plain value passes through; a named node first consults the scope
/// overrides (recursing with the scope cleared), then the resource registry,
/// then the bound values, and otherwise fails with `UnknownIdentifier`.
pub open spec fn sp_run(
    env: SpecEnv,
    code: SpecCode,
    args: Option<Seq<SpecValue>>,
    scope: Option<Seq<(Seq<char>, SpecCode)>>,
    fuel: nat,
) -> Result<SpecValue, SpecEvalError>
    decreases fuel, 9int, 0int,
{
    if fuel == 0 {
        Result::Err(SpecEvalError::DepthExceeded)
    } else {
        match code {
            SpecCode::Value(SpecValue::Number(text)) => Result::Ok(sp_number_value(text)),
            SpecCode::Value(v) => Result::Ok(v),
            SpecCode::AskCode(c) => {
                let hit = match scope {
                    Option::Some(m) => spec_assoc(m, c.name),
                    Option::None => Option::None,
                };
                match hit {
                    Option::Some(bound) => sp_run(
                        env,
                        bound,
                        args,
                        Option::None,
                        (fuel - 1) as nat,
                    ),
                    Option::None => match spec_assoc(env.resources, c.name) {
                        Option::Some(kind) => sp_compute(env, kind, c, args, scope, fuel),
                        Option::None => match spec_assoc(env.values, c.name) {
                            Option::Some(v) => sp_run(
                                env,
                                v,
                                args,
                                Option::None,
                                (fuel - 1) as nat,
                            ),
                            Option::None => Result::Err(
                                SpecEvalError::UnknownIdentifier(c.name),
                            ),
                        },
                    },
                }
            },
        }
    }
}

/// Dispatch to a built-in resource's compute behaviour.
pub open spec fn sp_compute(
    env: SpecEnv,
    kind: ResourceKind,
    c: SpecAskCode,
    args: Option<Seq<SpecValue>>,
    scope: Option<Seq<(Seq<char>, SpecCode)>>,
    fuel: nat,
) -> Result<SpecValue, SpecEvalError>
    decreases fuel, 8int, 0int,
{
    match kind {
        ResourceKind::Ask => sp_fun(env, c, scope, fuel),
        ResourceKind::Fragment => sp_fun(env, c, scope, fuel),
        ResourceKind::Call => sp_call_res(env, c, args, scope, fuel),
        ResourceKind::Get => sp_get(env, c, args, scope, fuel),
        ResourceKind::Query => sp_query(env, c, scope, fuel),
        ResourceKind::Node => sp_node(env, c, args, fuel),
        _ => sp_default(env, kind, c, args, fuel),
    }
}

/// The default block behaviour (`ask` and fragments): the parameters are
/// statements; each failed statement is skipped and the last successful one,
/// in declaration order, is the result. Invoked with bound arguments the
/// statements run in sequence; free-standing they are fanned out, but every
/// statement sees the same scope, so both forms give this value.
pub open spec fn sp_fun(
    env: SpecEnv,
    c: SpecAskCode,
    scope: Option<Seq<(Seq<char>, SpecCode)>>,
    fuel: nat,
) -> Result<SpecValue, SpecEvalError>
    decreases fuel, 7int, 0int,
{
    Result::Ok(sp_fun_seq(env, sp_params_of(c), scope, fuel))
}

/// The last successful statement's value, `Null` if none succeeds.
pub open spec fn sp_fun_seq(
    env: SpecEnv,
    stmts: Seq<SpecCode>,
    scope: Option<Seq<(Seq<char>, SpecCode)>>,
    fuel: nat,
) -> SpecValue
    decreases fuel, 2int, stmts.len(),
{
    if stmts.len() == 0 {
        SpecValue::Null
    } else {
        let prev = sp_fun_seq(env, stmts.drop_last(), scope, fuel);
        if fuel == 0 {
            prev
        } else {
            match sp_run(env, stmts.last(), Option::None, scope, (fuel - 1) as nat) {
                Result::Ok(v) => v,
                Result::Err(_) => prev,
            }
        }
    }
}

/// The values of an expression list, evaluated against `scope`; failed
/// evaluations are dropped.
pub open spec fn sp_eval_list(
    env: SpecEnv,
    items: Seq<SpecCode>,
    scope: Option<Seq<(Seq<char>, SpecCode)>>,
    fuel: nat,
) -> Seq<SpecValue>
    decreases fuel, 2int, items.len(),
{
    if items.len() == 0 {
        Seq::empty()
    } else {
        let rest = sp_eval_list(env, items.drop_last(), scope, fuel);
        if fuel == 0 {
            rest
        } else {
            match sp_run(env, items.last(), Option::None, scope, (fuel - 1) as nat) {
                Result::Ok(v) => rest.push(v),
                Result::Err(_) => rest,
            }
        }
    }
}

/// The invocation resource, `call`: the first parameter is the function
/// reference and the rest are argument expressions, evaluated eagerly; the
/// reference is then evaluated with the values bound as arguments. With no
/// parameters, supplied argument values stand in as the statement list. An
/// empty statement list, or a failing function reference, gives `Null`.
pub open spec fn sp_call_res(
    env: SpecEnv,
    c: SpecAskCode,
    args: Option<Seq<SpecValue>>,
    scope: Option<Seq<(Seq<char>, SpecCode)>>,
    fuel: nat,
) -> Result<SpecValue, SpecEvalError>
    decreases fuel, 7int, 0int,
{
    let statements = match c.params {
        Option::Some(ps) => ps,
        Option::None => match args {
            Option::Some(a) => Seq::new(a.len(), |i: int| SpecCode::Value(a[i])),
            Option::None => Seq::empty(),
        },
    };
    if statements.len() > 0 && fuel > 0 {
        let vals = sp_eval_list(env, statements.skip(1), scope, fuel);
        match sp_run(env, statements[0], Option::Some(vals), scope, (fuel - 1) as nat) {
            Result::Ok(v) => Result::Ok(v),
            Result::Err(_) => Result::Ok(SpecValue::Null),
        }
    } else {
        Result::Ok(SpecValue::Null)
    }
}

/// The indirection resource, `get`: its first parameter evaluates to a name,
/// and a bare reference to that name is dispatched with `get`'s own
/// arguments and scope; anything else gives `Null`.
pub open spec fn sp_get(
    env: SpecEnv,
    c: SpecAskCode,
    args: Option<Seq<SpecValue>>,
    scope: Option<Seq<(Seq<char>, SpecCode)>>,
    fuel: nat,
) -> Result<SpecValue, SpecEvalError>
    decreases fuel, 7int, 0int,
{
    match c.params {
        Option::Some(ps) => if ps.len() > 0 && fuel > 0 {
            match sp_run(env, ps[0], Option::None, scope, (fuel - 1) as nat) {
                Result::Ok(SpecValue::String(name)) => {
                    let target = SpecCode::AskCode(
                        SpecAskCode { name, params: Option::None },
                    );
                    match sp_run(env, target, args, scope, (fuel - 1) as nat) {
                        Result::Ok(v) => Result::Ok(v),
                        Result::Err(_) => Result::Ok(SpecValue::Null),
                    }
                },
                _ => Result::Ok(SpecValue::Null),
            }
        } else {
            Result::Ok(SpecValue::Null)
        },
        Option::None => Result::Ok(SpecValue::Null),
    }
}

/// The projection sugar, `query`: its children are wrapped into a `node`
/// invocation rooted at an implicit empty-object context.
pub open spec fn sp_query(
    env: SpecEnv,
    c: SpecAskCode,
    scope: Option<Seq<(Seq<char>, SpecCode)>>,
    fuel: nat,
) -> Result<SpecValue, SpecEvalError>
    decreases fuel, 7int, 0int,
{
    let params = match c.params {
        Option::Some(children) => Option::Some(
            seq![
                SpecCode::Value(SpecValue::String("value"@)),
                SpecCode::Value(SpecValue::Object(Seq::empty())),
            ] + children,
        ),
        Option::None => Option::None,
    };
    sp_node(env, SpecAskCode { name: "node"@, params }, Option::None, fuel)
}

/// The projection resource, `node`: its second parameter is the value
/// expression, evaluated against a scope bound from the first argument; a
/// list value is projected element by element, anything else once.
pub open spec fn sp_node(
    env: SpecEnv,
    c: SpecAskCode,
    args: Option<Seq<SpecValue>>,
    fuel: nat,
) -> Result<SpecValue, SpecEvalError>
    decreases fuel, 6int, 0int,
{
    match c.params {
        Option::Some(ps) => if ps.len() >= 2 && fuel > 0 {
            let children = ps.skip(2);
            let ext = sp_args_to_scope(args);
            let value = match sp_run(env, ps[1], Option::None, ext, (fuel - 1) as nat) {
                Result::Ok(v) => v,
                Result::Err(_) => SpecValue::Null,
            };
            match value {
                SpecValue::List(items) => match sp_node_list(env, items, children, fuel) {
                    Result::Ok(outs) => Result::Ok(SpecValue::List(outs)),
                    Result::Err(e) => Result::Err(e),
                },
                v => sp_process_val(env, v, children, fuel),
            }
        } else {
            Result::Ok(SpecValue::Null)
        },
        Option::None => Result::Ok(SpecValue::Null),
    }
}

/// Projection of each element of a list value, in source order.
pub open spec fn sp_node_list(
    env: SpecEnv,
    items: Seq<SpecValue>,
    children: Seq<SpecCode>,
    fuel: nat,
) -> Result<Seq<SpecValue>, SpecEvalError>
    decreases fuel, 5int, items.len(),
{
    if items.len() == 0 {
        Result::Ok(Seq::empty())
    } else {
        match sp_node_list(env, items.drop_last(), children, fuel) {
            Result::Err(e) => Result::Err(e),
            Result::Ok(rest) => match sp_process_val(env, items.last(), children, fuel) {
                Result::Err(e) => Result::Err(e),
                Result::Ok(v) => Result::Ok(rest.push(v)),
            },
        }
    }
}

/// The projection of one resolved value: an object is rebuilt from its field
/// children; any other value passes through unchanged.
pub open spec fn sp_process_val(
    env: SpecEnv,
    value: SpecValue,
    children: Seq<SpecCode>,
    fuel: nat,
) -> Result<SpecValue, SpecEvalError>
    decreases fuel, 4int, 0int,
{
    match value {
        SpecValue::Object(_) => match sp_fields(env, value, children, fuel) {
            Result::Ok(entries) => Result::Ok(SpecValue::Object(entries)),
            Result::Err(e) => Result::Err(e),
        },
        v => Result::Ok(v),
    }
}

/// The output entries of a projected object: each field child's name
/// expression gives the key and its full node expression gives the value,
/// both evaluated with the current object bound as the sole argument. Pairs
/// whose key is not a string contribute nothing; keys are kept sorted, a
/// later field overwriting an earlier one with the same key. A field child
/// that is not a named node is a `MalformedProjectionField` error.
pub open spec fn sp_fields(
    env: SpecEnv,
    obj: SpecValue,
    children: Seq<SpecCode>,
    fuel: nat,
) -> Result<Seq<(Seq<char>, SpecValue)>, SpecEvalError>
    decreases fuel, 3int, children.len(),
{
    if children.len() == 0 {
        Result::Ok(Seq::empty())
    } else {
        match sp_fields(env, obj, children.drop_last(), fuel) {
            Result::Err(e) => Result::Err(e),
            Result::Ok(acc) => match children.last() {
                SpecCode::Value(_) => Result::Err(SpecEvalError::MalformedProjectionField),
                SpecCode::AskCode(cc) => {
                    let has_params = match cc.params {
                        Option::Some(cps) => cps.len() > 0,
                        Option::None => false,
                    };
                    if has_params && fuel > 0 {
                        let cps = cc.params->Some_0;
                        let namev = match sp_run(
                            env,
                            cps[0],
                            Option::Some(seq![obj]),
                            Option::None,
                            (fuel - 1) as nat,
                        ) {
                            Result::Ok(v) => v,
                            Result::Err(_) => SpecValue::Null,
                        };
                        let valv = match sp_run(
                            env,
                            SpecCode::AskCode(cc),
                            Option::Some(seq![obj]),
                            Option::None,
                            (fuel - 1) as nat,
                        ) {
                            Result::Ok(v) => v,
                            Result::Err(_) => SpecValue::Null,
                        };
                        match namev {
                            SpecValue::String(k) => Result::Ok(
                                spec_entries_insert(acc, k, valv),
                            ),
                            _ => Result::Ok(acc),
                        }
                    } else {
                        Result::Ok(acc)
                    }
                },
            },
        }
    }
}

/// The default resource behaviour for the simple functions: with no supplied
/// arguments the parameters are evaluated, scope-free, dropping failures;
/// the kind's resolver then runs over the values.
pub open spec fn sp_default(
    env: SpecEnv,
    kind: ResourceKind,
    c: SpecAskCode,
    args: Option<Seq<SpecValue>>,
    fuel: nat,
) -> Result<SpecValue, SpecEvalError>
    decreases fuel, 7int, 0int,
{
    let vals = match args {
        Option::Some(a) => a,
        Option::None => sp_eval_list(env, sp_params_of(c), Option::None, fuel),
    };
    Result::Ok(sp_resolve(kind, vals))
}

/// What registering adds: nothing when the name is taken — the first
/// registration wins — and a new entry at the end otherwise.
pub open spec fn sp_register(
    rs: Seq<(Seq<char>, ResourceKind)>,
    name: Seq<char>,
    kind: ResourceKind,
) -> Seq<(Seq<char>, ResourceKind)> {
    if spec_assoc(rs, name) is Some {
        rs
    } else {
        rs.push((name, kind))
    }
}

/// The registry built from a list of kinds, registered in order.
pub open spec fn sp_register_all(ks: Seq<ResourceKind>) -> Seq<(Seq<char>, ResourceKind)>
    decreases ks.len(),
{
    if ks.len() == 0 {
        Seq::empty()
    } else {
        sp_register(sp_register_all(ks.drop_last()), kind_name(ks.last()), ks.last())
    }
}

/// The value table built from a list of bindings, first binding per name
/// winning.
pub open spec fn sp_bind_all(vs: Seq<(Seq<char>, SpecCode)>) -> Seq<(Seq<char>, SpecCode)>
    decreases vs.len(),
{
    if vs.len() == 0 {
        Seq::empty()
    } else {
        let pre = sp_bind_all(vs.drop_last());
        if spec_assoc(pre, vs.last().0) is Some {
            pre
        } else {
            pre.push(vs.last())
        }
    }
}

/// The resource registry and the bound-value environment of a VM, built once
/// and read-only afterwards. A name is bound at most once: registration is
/// first-write-wins.
pub struct RunOptions {
    resources: Vec<(String, ResourceKind)>,
    values: Vec<(String, AskCodeOrValue)>,
}

impl View for RunOptions {
    type V = SpecEnv;

    closed spec fn view(&self) -> SpecEnv {
        SpecEnv { resources: view_kinds(self.resources@), values: view_bindings(self.values@) }
    }
}

/// The first value bound to `name`, if any.
fn assoc_code(entries: &Vec<(String, AskCodeOrValue)>, name: &String) -> (r: Option<
    AskCodeOrValue,
>)
    ensures
        match spec_assoc(view_bindings(entries@), name@) {
            Option::Some(sv) => r matches Some(v) && v@ == sv,
            Option::None => r matches None,
        },
{
    let n = entries.len();
    let mut i: usize = 0;
    proof {
        assert(view_bindings(entries@).skip(0) =~= view_bindings(entries@));
    }
    while i < n
        invariant
            i <= n,
            n == entries@.len(),
            spec_assoc(view_bindings(entries@), name@) == spec_assoc(
                view_bindings(entries@).skip(i as int),
                name@,
            ),
        decreases n - i,
    {
        proof {
            assert(view_bindings(entries@).skip(i as int)[0] == (
                entries@[i as int].0@,
                entries@[i as int].1@,
            ));
            assert(view_bindings(entries@).skip(i as int).skip(1) =~= view_bindings(
                entries@,
            ).skip(i + 1));
        }
        if entries[i].0 == *name {
            return Some(entries[i].1.clone());
        }
        i += 1;
    }
    proof {
        assert(view_bindings(entries@).skip(n as int) =~= Seq::<(Seq<char>, SpecCode)>::empty());
    }
    None
}

/// The kind registered under `name`, if any.
fn assoc_kind(entries: &Vec<(String, ResourceKind)>, name: &String) -> (r: Option<ResourceKind>)
    ensures
        r == spec_assoc(view_kinds(entries@), name@),
{
    let n = entries.len();
    let mut i: usize = 0;
    proof {
        assert(view_kinds(entries@).skip(0) =~= view_kinds(entries@));
    }
    while i < n
        invariant
            i <= n,
            n == entries@.len(),
            spec_assoc(view_kinds(entries@), name@) == spec_assoc(
                view_kinds(entries@).skip(i as int),
                name@,
            ),
        decreases n - i,
    {
        proof {
            assert(view_kinds(entries@).skip(i as int)[0] == (
                entries@[i as int].0@,
                entries@[i as int].1,
            ));
            assert(view_kinds(entries@).skip(i as int).skip(1) =~= view_kinds(entries@).skip(
                i + 1,
            ));
        }
        if entries[i].0 == *name {
            return Some(entries[i].1);
        }
        i += 1;
    }
    proof {
        assert(view_kinds(entries@).skip(n as int) =~= Seq::<(Seq<char>, ResourceKind)>::empty());
    }
    None
}

impl RunOptions {
    /// An environment holding the given built-in kinds, registered in order
    /// under their own names, and the given value bindings; for either
    /// table, the first entry per name wins.
    pub fn new(resources: Vec<ResourceKind>, values: Vec<(String, AskCodeOrValue)>) -> (r: Self)
        ensures
            r@.resources == sp_register_all(resources@),
            r@.values == sp_bind_all(view_bindings(values@)),
    {
        let mut opts = RunOptions { resources: Vec::new(), values: Vec::new() };
        proof {
            assert(view_kinds(opts.resources@) =~= sp_register_all(resources@.take(0)));
            assert(view_bindings(opts.values@) =~= sp_bind_all(
                view_bindings(values@).take(0),
            ));
        }
        let n = resources.len();
        let mut i: usize = 0;
        while i < n
            invariant
                i <= n,
                n == resources@.len(),
                opts.values@.len() == 0,
                view_kinds(opts.resources@) == sp_register_all(resources@.take(i as int)),
            decreases n - i,
        {
            proof {
                assert(resources@.take(i + 1).drop_last() =~= resources@.take(i as int));
                assert(resources@.take(i + 1).last() == resources@[i as int]);
            }
            let kind = resources[i];
            let name = crate::resource::kind_name_of(kind);
            opts = Self::insert_kind(opts, name, kind);
            i += 1;
        }
        proof {
            assert(resources@.take(n as int) =~= resources@);
        }
        let m = values.len();
        let mut j: usize = 0;
        while j < m
            invariant
                j <= m,
                m == values@.len(),
                view_kinds(opts.resources@) == sp_register_all(resources@),
                view_bindings(opts.values@) == sp_bind_all(view_bindings(values@).take(j as int)),
            decreases m - j,
        {
            proof {
                assert(view_bindings(values@).take(j + 1).drop_last() =~= view_bindings(
                    values@,
                ).take(j as int));
                assert(view_bindings(values@).take(j + 1).last() == (
                    values@[j as int].0@,
                    values@[j as int].1@,
                ));
            }
            let name = values[j].0.clone();
            let bound = values[j].1.clone();
            opts = Self::insert_value(opts, name, bound);
            j += 1;
        }
        proof {
            assert(view_bindings(values@).take(m as int) =~= view_bindings(values@));
        }
        opts
    }

    fn insert_kind(opts: RunOptions, name: String, kind: ResourceKind) -> (r: RunOptions)
        ensures
            r@.resources == sp_register(opts@.resources, name@, kind),
            r@.values == opts@.values,
            r.values@.len() == opts.values@.len(),
    {
        let mut opts = opts;
        let present = assoc_kind(&opts.resources, &name);
        match present {
            Some(_) => opts,
            None => {
                let ghost pre = opts.resources@;
                opts.resources.push((name, kind));
                proof {
                    assert(view_kinds(opts.resources@) =~= view_kinds(pre).push(
                        (opts.resources@.last().0@, opts.resources@.last().1),
                    ));
                }
                opts
            },
        }
    }

    fn insert_value(opts: RunOptions, name: String, bound: AskCodeOrValue) -> (r: RunOptions)
        ensures
            r@.values == (
            if spec_assoc(opts@.values, name@) is Some {
                opts@.values
            } else {
                opts@.values.push((name@, bound@))
            }),
            r@.resources == opts@.resources,
    {
        let mut opts = opts;
        let present = assoc_code(&opts.values, &name);
        match present {
            Some(_) => opts,
            None => {
                let ghost pre = opts.values@;
                let ghost bv = bound@;
                opts.values.push((name, bound));
                proof {
                    assert(view_bindings(opts.values@) =~= view_bindings(pre).push(
                        (opts.values@.last().0@, bv),
                    ));
                }
                opts
            },
        }
    }

    /// Registers a resource under its own name. The first registration of a
    /// name wins: a second registration of the same name changes nothing and
    /// hands the resource back.
    pub fn register<T: Resource>(&mut self, resource: T) -> (r: Option<T>)
        ensures
            spec_assoc(old(self)@.resources, kind_name(resource.kind_spec())) is Some ==> (
            r matches Some(given) && given == resource && final(self)@ == old(self)@),
            spec_assoc(old(self)@.resources, kind_name(resource.kind_spec())) is None ==> (
            r matches None && final(self)@.values == old(self)@.values && final(self)@.resources == old(self)@.resources.push(
                (kind_name(resource.kind_spec()), resource.kind_spec()),
            )),
    {
        let name = resource.name();
        self.register_with_name(resource, name)
    }

    /// Registers a resource under an explicit name, first registration
    /// winning, as `register` does.
    pub fn register_with_name<T: Resource>(&mut self, resource: T, name: String) -> (r: Option<
        T,
    >)
        ensures
            spec_assoc(old(self)@.resources, name@) is Some ==> (r matches Some(given) && given
                == resource && final(self)@ == old(self)@),
            spec_assoc(old(self)@.resources, name@) is None ==> (r matches None && final(self)@.values == old(self)@.values && final(self)@.resources == old(self)@.resources.push((name@, resource.kind_spec()))),
    {
        let present = assoc_kind(&self.resources, &name);
        match present {
            Some(_) => Some(resource),
            None => {
                let kind = resource.kind();
                let ghost pre = self.resources@;
                self.resources.push((name, kind));
                proof {
                    assert(view_kinds(self.resources@) =~= view_kinds(pre).push(
                        (self.resources@.last().0@, self.resources@.last().1),
                    ));
                }
                None
            },
        }
    }
}

/// The ceiling on evaluation depth: nested evaluation deeper than this fails
/// with `DepthExceeded`.
pub const MAX_DEPTH: u64 = 128;

/// The entries of a projected object are sorted: whatever the field children
/// and however their evaluations complete, a successful field list has its
/// keys in strict lexicographic order.
pub proof fn lemma_fields_sorted(
    env: SpecEnv,
    obj: SpecValue,
    children: Seq<SpecCode>,
    fuel: nat,
)
    ensures
        sp_fields(env, obj, children, fuel) matches Ok(es) ==> crate::value::entries_sorted(es),
    decreases children.len(),
{
    if children.len() > 0 {
        lemma_fields_sorted(env, obj, children.drop_last(), fuel);
        if sp_fields(env, obj, children.drop_last(), fuel) is Ok {
            let acc = sp_fields(env, obj, children.drop_last(), fuel)->Ok_0;
            match children.last() {
                SpecCode::Value(_) => {},
                SpecCode::AskCode(cc) => {
                    let has_params = match cc.params {
                        Option::Some(cps) => cps.len() > 0,
                        Option::None => false,
                    };
                    if has_params && fuel > 0 {
                        let cps = cc.params->Some_0;
                        let valv = match sp_run(
                            env,
                            SpecCode::AskCode(cc),
                            Option::Some(seq![obj]),
                            Option::None,
                            (fuel - 1) as nat,
                        ) {
                            Result::Ok(v) => v,
                            Result::Err(_) => SpecValue::Null,
                        };
                        let namev = match sp_run(
                            env,
                            cps[0],
                            Option::Some(seq![obj]),
                            Option::None,
                            (fuel - 1) as nat,
                        ) {
                            Result::Ok(v) => v,
                            Result::Err(_) => SpecValue::Null,
                        };
                        match namev {
                            SpecValue::String(k) => {
                                crate::value::lemma_entries_insert_sorted(acc, k, valv);
                            },
                            _ => {},
                        }
                    }
                },
            }
        }
    } else {
        assert(sp_fields(env, obj, children, fuel) == Result::<
            Seq<(Seq<char>, SpecValue)>,
            SpecEvalError,
        >::Ok(Seq::<(Seq<char>, SpecValue)>::empty()));
    }
}

/// Whether every object among a sequence of values has sorted keys.
pub open spec fn objects_sorted(items: Seq<SpecValue>) -> bool {
    forall|j: int|
        0 <= j < items.len() ==> ((#[trigger] items[j]) matches SpecValue::Object(es)
            ==> crate::value::entries_sorted(es))
}

/// The projection of one value never yields an object with unsorted keys.
pub proof fn lemma_process_val_sorted(
    env: SpecEnv,
    value: SpecValue,
    children: Seq<SpecCode>,
    fuel: nat,
)
    ensures
        sp_process_val(env, value, children, fuel) matches Ok(v) ==> (v matches SpecValue::Object(
            es,
        ) ==> crate::value::entries_sorted(es)),
{
    match value {
        SpecValue::Object(_) => {
            lemma_fields_sorted(env, value, children, fuel);
        },
        _ => {},
    }
}

proof fn lemma_node_list_sorted(
    env: SpecEnv,
    items: Seq<SpecValue>,
    children: Seq<SpecCode>,
    fuel: nat,
)
    ensures
        sp_node_list(env, items, children, fuel) matches Ok(outs) ==> objects_sorted(outs),
    decreases items.len(),
{
    if items.len() > 0 {
        lemma_node_list_sorted(env, items.drop_last(), children, fuel);
        lemma_process_val_sorted(env, items.last(), children, fuel);
    }
}

/// The law of deterministic projection output order: every object that the
/// `node` projection produces — as its whole result or as an element of a
/// projected list — has its output keys in strict lexicographic order,
/// whatever the inputs and whatever order the field evaluations complete in,
/// because the result is assembled by ordered insertion.
pub proof fn lemma_node_objects_sorted(
    env: SpecEnv,
    c: SpecAskCode,
    args: Option<Seq<SpecValue>>,
    fuel: nat,
)
    ensures
        sp_node(env, c, args, fuel) matches Ok(v) ==> ((v matches SpecValue::Object(es)
            ==> crate::value::entries_sorted(es)) && (v matches SpecValue::List(outs)
            ==> objects_sorted(outs))),
{
    match c.params {
        Option::Some(ps) => {
            if ps.len() >= 2 && fuel > 0 {
                let children = ps.skip(2);
                let ext = sp_args_to_scope(args);
                let value = match sp_run(env, ps[1], Option::None, ext, (fuel - 1) as nat) {
                    Result::Ok(v) => v,
                    Result::Err(_) => SpecValue::Null,
                };
                match value {
                    SpecValue::List(items) => {
                        lemma_node_list_sorted(env, items, children, fuel);
                    },
                    v => {
                        lemma_process_val_sorted(env, v, children, fuel);
                        if sp_process_val(env, v, children, fuel) is Ok {
                            let out = sp_process_val(env, v, children, fuel)->Ok_0;
                            assert(out matches SpecValue::List(outs) ==> objects_sorted(outs));
                        }
                    },
                }
            }
        },
        Option::None => {},
    }
}

/// The same law for the `query` sugar, which roots a `node` projection.
pub proof fn lemma_query_objects_sorted(
    env: SpecEnv,
    c: SpecAskCode,
    scope: Option<Seq<(Seq<char>, SpecCode)>>,
    fuel: nat,
)
    ensures
        sp_query(env, c, scope, fuel) matches Ok(v) ==> ((v matches SpecValue::Object(es)
            ==> crate::value::entries_sorted(es)) && (v matches SpecValue::List(outs)
            ==> objects_sorted(outs))),
{
    let params = match c.params {
        Option::Some(children) => Option::Some(
            seq![
                SpecCode::Value(SpecValue::String("value"@)),
                SpecCode::Value(SpecValue::Object(Seq::empty())),
            ] + children,
        ),
        Option::None => Option::None,
    };
    lemma_node_objects_sorted(
        env,
        SpecAskCode { name: "node"@, params },
        Option::None,
        fuel,
    );
}

/// Clones the nodes of `ps` from position `from` on.
fn clone_codes_from(ps: &Vec<AskCodeOrValue>, from: usize) -> (r: Vec<AskCodeOrValue>)
    requires
        from <= ps@.len(),
    ensures
        r@.len() == ps@.len() - from,
        forall|j: int| 0 <= j < r@.len() ==> r@[j]@ == ps@[j + from]@,
{
    let mut out: Vec<AskCodeOrValue> = Vec::new();
    let n = ps.len();
    let mut i: usize = from;
    while i < n
        invariant
            from <= i <= n,
            n == ps@.len(),
            out@.len() == i - from,
            forall|j: int| 0 <= j < out@.len() ==> out@[j]@ == ps@[j + from]@,
        decreases n - i,
    {
        let item = ps[i].clone();
        out.push(item);
        i += 1;
    }
    out
}

/// An error anywhere in a projected list fails the whole list with the
/// earliest error.
proof fn lemma_node_list_err(
    env: SpecEnv,
    items: Seq<SpecValue>,
    children: Seq<SpecCode>,
    fuel: nat,
    i: int,
    e: SpecEvalError,
)
    requires
        0 <= i < items.len(),
        sp_node_list(env, items.take(i), children, fuel) is Ok,
        sp_process_val(env, items[i], children, fuel) == Result::<
            SpecValue,
            SpecEvalError,
        >::Err(e),
    ensures
        sp_node_list(env, items, children, fuel) == Result::<
            Seq<SpecValue>,
            SpecEvalError,
        >::Err(e),
    decreases items.len(),
{
    if i == items.len() - 1 {
        assert(items.drop_last() =~= items.take(i));
        assert(items.last() == items[i]);
    } else {
        assert(items.drop_last().take(i) =~= items.take(i));
        assert(items.drop_last()[i] == items[i]);
        lemma_node_list_err(env, items.drop_last(), children, fuel, i, e);
    }
}

/// An error at any field child fails the whole field list with the earliest
/// error.
proof fn lemma_fields_err(
    env: SpecEnv,
    obj: SpecValue,
    children: Seq<SpecCode>,
    fuel: nat,
    i: int,
    e: SpecEvalError,
)
    requires
        0 <= i < children.len(),
        sp_fields(env, obj, children.take(i), fuel) is Ok,
        children[i] matches SpecCode::Value(_),
        e == SpecEvalError::MalformedProjectionField,
    ensures
        sp_fields(env, obj, children, fuel) == Result::<
            Seq<(Seq<char>, SpecValue)>,
            SpecEvalError,
        >::Err(e),
    decreases children.len(),
{
    if i == children.len() - 1 {
        assert(children.drop_last() =~= children.take(i));
        assert(children.last() == children[i]);
    } else {
        assert(children.drop_last().take(i) =~= children.take(i));
        assert(children.drop_last()[i] == children[i]);
        lemma_fields_err(env, obj, children.drop_last(), fuel, i, e);
    }
}

/// The scope a projection binds from its first argument, as
/// `sp_args_to_scope` says.
fn args_to_scope_rec(args: &Option<Vec<Value>>) -> (r: Option<Vec<(String, AskCodeOrValue)>>)
    ensures
        match (r, sp_args_to_scope(view_args_ref(args))) {
            (Option::Some(v), Option::Some(sv)) => view_bindings(v@) == sv,
            (Option::None, Option::None) => true,
            _ => false,
        },
{
    broadcast use lemma_view_items, lemma_view_entries;

    match args {
        Option::Some(a) => {
            if a.len() == 0 {
                return None;
            }
            match &a[0] {
                Value::Object(entries) => {
                    let mut out: Vec<(String, AskCodeOrValue)> = Vec::new();
                    let n = entries.len();
                    let mut j: usize = 0;
                    while j < n
                        invariant
                            j <= n,
                            n == entries@.len(),
                            out@.len() == j as int,
                            forall|k: int|
                                0 <= k < j ==> out@[k].0@ == entries@[k].0@ && out@[k].1@
                                    == SpecCode::Value(entries@[k].1@),
                        decreases n - j,
                    {
                        let key = entries[j].0.clone();
                        let val = entries[j].1.clone();
                        out.push((key, AskCodeOrValue::Value(val)));
                        j += 1;
                    }
                    proof {
                        let sentries = view_entries(entries@);
                        assert(view_bindings(out@) =~= Seq::new(
                            sentries.len(),
                            |i: int| (sentries[i].0, SpecCode::Value(sentries[i].1)),
                        ));
                    }
                    Some(out)
                },
                _ => None,
            }
        },
        Option::None => None,
    }
}

/// The model of an optional borrowed argument list.
pub open spec fn view_args_ref(a: &Option<Vec<Value>>) -> Option<Seq<SpecValue>> {
    match a {
        Option::None => Option::None,
        Option::Some(v) => Option::Some(view_items(v@)),
    }
}

/// One evaluation step, as `sp_run` says.
#[verifier::loop_isolation(false)]
fn run_rec(
    opts: &RunOptions,
    code: &AskCodeOrValue,
    args: Option<Vec<Value>>,
    scope: Option<&Vec<(String, AskCodeOrValue)>>,
    fuel: u64,
) -> (r: Result<Value, EvalError>)
    ensures
        rr_matches(r, sp_run(opts@, code@, view_args(args), view_scope(scope), fuel as nat)),
    decreases fuel, 9int,
{
    if fuel == 0 {
        return Err(EvalError::DepthExceeded);
    }
    match code {
        AskCodeOrValue::Value(v) => match v {
            Value::Number(n) => {
                if n.is_float() {
                    let bits = match n.to_float() {
                        Ok(b) => b,
                        Err(_) => FLOAT_ZERO,
                    };
                    Ok(Value::Float(bits))
                } else {
                    let x = match n.to_int() {
                        Ok(x) => x,
                        Err(_) => 0,
                    };
                    Ok(Value::Int(x))
                }
            },
            other => Ok(other.clone()),
        },
        AskCodeOrValue::AskCode(c) => {
            if let Some(m) = scope {
                match assoc_code(m, &c.name) {
                    Some(bound) => {
                        return run_rec(opts, &bound, args, None, fuel - 1);
                    },
                    None => {},
                }
            }
            match assoc_kind(&opts.resources, &c.name) {
                Some(kind) => compute_rec(opts, kind, c, args, scope, fuel),
                None => match assoc_code(&opts.values, &c.name) {
                    Some(v) => run_rec(opts, &v, args, None, fuel - 1),
                    None => Err(EvalError::UnknownIdentifier(c.name.clone())),
                },
            }
        },
    }
}

/// Dispatch to a built-in resource, as `sp_compute` says.
fn compute_rec(
    opts: &RunOptions,
    kind: ResourceKind,
    c: &AskCode,
    args: Option<Vec<Value>>,
    scope: Option<&Vec<(String, AskCodeOrValue)>>,
    fuel: u64,
) -> (r: Result<Value, EvalError>)
    requires
        fuel >= 1,
    ensures
        rr_matches(
            r,
            sp_compute(opts@, kind, c@, view_args(args), view_scope(scope), fuel as nat),
        ),
    decreases fuel, 8int,
{
    let ghost goal = sp_compute(opts@, kind, c@, view_args(args), view_scope(scope), fuel as nat);
    match kind {
        ResourceKind::Ask => {
            let r = fun_rec(opts, c, scope, fuel);
            proof {
                assert(goal == sp_fun(opts@, c@, view_scope(scope), fuel as nat));
            }
            r
        },
        ResourceKind::Fragment => {
            let r = fun_rec(opts, c, scope, fuel);
            proof {
                assert(goal == sp_fun(opts@, c@, view_scope(scope), fuel as nat));
            }
            r
        },
        ResourceKind::Call => {
            let r = call_rec(opts, c, args, scope, fuel);
            proof {
                assert(goal == sp_call_res(
                    opts@,
                    c@,
                    view_args(args),
                    view_scope(scope),
                    fuel as nat,
                ));
            }
            r
        },
        ResourceKind::Get => {
            let r = get_rec(opts, c, args, scope, fuel);
            proof {
                assert(goal == sp_get(opts@, c@, view_args(args), view_scope(scope), fuel as nat));
            }
            r
        },
        ResourceKind::Query => {
            let r = query_rec(opts, c, fuel);
            proof {
                assert(rr_matches(r, sp_query(opts@, c@, view_scope(scope), fuel as nat)));
                assert(goal == sp_query(opts@, c@, view_scope(scope), fuel as nat));
            }
            r
        },
        ResourceKind::Node => {
            let r = node_rec(opts, c, args, fuel);
            proof {
                assert(goal == sp_node(opts@, c@, view_args(args), fuel as nat));
            }
            r
        },
        _ => {
            let r = default_rec(opts, kind, c, args, fuel);
            proof {
                assert(goal == sp_default(opts@, kind, c@, view_args(args), fuel as nat));
            }
            r
        },
    }
}

/// The default block behaviour, as `sp_fun` says.
#[verifier::loop_isolation(false)]
fn fun_rec(
    opts: &RunOptions,
    c: &AskCode,
    scope: Option<&Vec<(String, AskCodeOrValue)>>,
    fuel: u64,
) -> (r: Result<Value, EvalError>)
    requires
        fuel >= 1,
    ensures
        rr_matches(r, sp_fun(opts@, c@, view_scope(scope), fuel as nat)),
    decreases fuel, 7int,
{
    broadcast use lemma_view_codes;

    let stmts: Vec<AskCodeOrValue> = match &c.params {
        Some(ps) => {
            let r = clone_codes_from(ps, 0);
            proof {
                lemma_view_codes(r@);
                lemma_view_codes(ps@);
                assert(c@.params == Option::Some(view_codes(ps@)));
                assert(view_codes(r@) =~= view_codes(ps@));
            }
            r
        },
        None => {
            let r: Vec<AskCodeOrValue> = Vec::new();
            proof {
                assert(c@.params is None);
                assert(view_codes(r@) =~= Seq::<SpecCode>::empty());
            }
            r
        },
    };
    let ghost sstmts = sp_params_of(c@);
    proof {
        assert(view_codes(stmts@) =~= sstmts);
    }
    let mut last = Value::Null;
    let n = stmts.len();
    let mut i: usize = 0;
    proof {
        assert(sstmts.take(0) =~= Seq::<SpecCode>::empty());
    }
    while i < n
        invariant
            i <= n,
            n == sstmts.len(),
            last@ == sp_fun_seq(opts@, sstmts.take(i as int), view_scope(scope), fuel as nat),
        decreases n - i,
    {
        proof {
            assert(sstmts.take(i + 1).drop_last() =~= sstmts.take(i as int));
            assert(sstmts.take(i + 1).last() == stmts@[i as int]@);
        }
        match run_rec(opts, &stmts[i], None, scope, fuel - 1) {
            Ok(v) => {
                last = v;
            },
            Err(_) => {},
        }
        i += 1;
    }
    proof {
        assert(sstmts.take(n as int) =~= sstmts);
    }
    Ok(last)
}

/// The values of an expression list, as `sp_eval_list` says.
#[verifier::loop_isolation(false)]
fn eval_list_rec(
    opts: &RunOptions,
    items: &Vec<AskCodeOrValue>,
    scope: Option<&Vec<(String, AskCodeOrValue)>>,
    fuel: u64,
) -> (r: Vec<Value>)
    requires
        fuel >= 1,
    ensures
        view_items(r@) == sp_eval_list(opts@, view_codes(items@), view_scope(scope), fuel as nat),
    decreases fuel, 2int,
{
    broadcast use lemma_view_codes, lemma_view_items;

    let ghost sitems = view_codes(items@);
    let mut out: Vec<Value> = Vec::new();
    let n = items.len();
    let mut i: usize = 0;
    proof {
        assert(sitems.take(0) =~= Seq::<SpecCode>::empty());
        assert(view_items(out@) =~= sp_eval_list(opts@, sitems.take(0), view_scope(scope), fuel as nat));
    }
    while i < n
        invariant
            i <= n,
            n == sitems.len(),
            view_items(out@) == sp_eval_list(
                opts@,
                sitems.take(i as int),
                view_scope(scope),
                fuel as nat,
            ),
        decreases n - i,
    {
        proof {
            assert(sitems.take(i + 1).drop_last() =~= sitems.take(i as int));
            assert(sitems.take(i + 1).last() == items@[i as int]@);
        }
        let ghost opre = out@;
        match run_rec(opts, &items[i], None, scope, fuel - 1) {
            Ok(v) => {
                let ghost vv = v@;
                out.push(v);
                proof {
                    lemma_view_items(opre);
                    lemma_view_items(out@);
                    assert(view_items(out@) =~= view_items(opre).push(vv));
                }
            },
            Err(_) => {},
        }
        i += 1;
    }
    proof {
        assert(sitems.take(n as int) =~= sitems);
    }
    out
}

/// The invocation resource, as `sp_call_res` says.
fn call_rec(
    opts: &RunOptions,
    c: &AskCode,
    args: Option<Vec<Value>>,
    scope: Option<&Vec<(String, AskCodeOrValue)>>,
    fuel: u64,
) -> (r: Result<Value, EvalError>)
    requires
        fuel >= 1,
    ensures
        rr_matches(r, sp_call_res(opts@, c@, view_args(args), view_scope(scope), fuel as nat)),
    decreases fuel, 7int,
{
    broadcast use lemma_view_codes, lemma_view_items;

    let statements: Vec<AskCodeOrValue> = match &c.params {
        Some(ps) => {
            let r = clone_codes_from(ps, 0);
            proof {
                lemma_view_codes(r@);
                lemma_view_codes(ps@);
                assert(c@.params == Option::Some(view_codes(ps@)));
                assert(view_codes(r@) =~= view_codes(ps@));
            }
            r
        },
        None => match args {
            Some(a) => {
                let mut out: Vec<AskCodeOrValue> = Vec::new();
                let n = a.len();
                let mut i: usize = 0;
                while i < n
                    invariant
                        i <= n,
                        n == a@.len(),
                        out@.len() == i as int,
                        forall|j: int|
                            0 <= j < i ==> out@[j]@ == SpecCode::Value(a@[j]@),
                    decreases n - i,
                {
                    let v = a[i].clone();
                    out.push(AskCodeOrValue::Value(v));
                    i += 1;
                }
                out
            },
            None => Vec::new(),
        },
    };
    let ghost sstatements = (
    match c@.params {
        Option::Some(ps) => ps,
        Option::None => match view_args(args) {
            Option::Some(a) => Seq::new(a.len(), |i: int| SpecCode::Value(a[i])),
            Option::None => Seq::empty(),
        },
    });
    proof {
        assert(view_codes(statements@) =~= sstatements);
    }
    if statements.len() == 0 {
        return Ok(Value::Null);
    }
    let mut statements = statements;
    let fun_child = statements.remove(0);
    proof {
        assert(view_codes(statements@) =~= sstatements.skip(1));
        assert(fun_child@ == sstatements[0]);
    }
    let vals = eval_list_rec(opts, &statements, scope, fuel);
    match run_rec(opts, &fun_child, Some(vals), scope, fuel - 1) {
        Ok(v) => Ok(v),
        Err(_) => Ok(Value::Null),
    }
}

/// The indirection resource, as `sp_get` says.
fn get_rec(
    opts: &RunOptions,
    c: &AskCode,
    args: Option<Vec<Value>>,
    scope: Option<&Vec<(String, AskCodeOrValue)>>,
    fuel: u64,
) -> (r: Result<Value, EvalError>)
    requires
        fuel >= 1,
    ensures
        rr_matches(r, sp_get(opts@, c@, view_args(args), view_scope(scope), fuel as nat)),
    decreases fuel, 7int,
{
    broadcast use lemma_view_codes;

    match &c.params {
        Some(ps) => {
            proof {
                lemma_view_codes(ps@);
                assert(c@.params == Option::Some(view_codes(ps@)));
            }
            if ps.len() == 0 {
                return Ok(Value::Null);
            }
            match run_rec(opts, &ps[0], None, scope, fuel - 1) {
                Ok(Value::String(name)) => {
                    let target = AskCodeOrValue::AskCode(AskCode { name, params: None });
                    match run_rec(opts, &target, args, scope, fuel - 1) {
                        Ok(v) => Ok(v),
                        Err(_) => Ok(Value::Null),
                    }
                },
                _ => Ok(Value::Null),
            }
        },
        None => Ok(Value::Null),
    }
}

/// The projection sugar, as `sp_query` says.
#[verifier::loop_isolation(false)]
fn query_rec(opts: &RunOptions, c: &AskCode, fuel: u64) -> (r: Result<Value, EvalError>)
    requires
        fuel >= 1,
    ensures
        forall|scope: Option<Seq<(Seq<char>, SpecCode)>>|
            rr_matches(r, #[trigger] sp_query(opts@, c@, scope, fuel as nat)),
    decreases fuel, 7int,
{
    broadcast use lemma_view_codes;

    match &c.params {
        Some(children) => {
            let mut ps: Vec<AskCodeOrValue> = Vec::new();
            ps.push(AskCodeOrValue::Value(Value::String("value".to_owned())));
            ps.push(AskCodeOrValue::Value(Value::Object(Vec::new())));
            let n = children.len();
            let mut i: usize = 0;
            while i < n
                invariant
                    i <= n,
                    n == children@.len(),
                    ps@.len() == i + 2,
                    ps@[0]@ == SpecCode::Value(SpecValue::String("value"@)),
                    ps@[1]@ == SpecCode::Value(SpecValue::Object(Seq::empty())),
                    forall|j: int| 0 <= j < i ==> ps@[j + 2]@ == children@[j]@,
                decreases n - i,
            {
                let item = children[i].clone();
                ps.push(item);
                i += 1;
            }
            let node_code = AskCode { name: "node".to_owned(), params: Some(ps) };
            proof {
                assert(view_codes(node_code.params->Some_0@) =~= seq![
                    SpecCode::Value(SpecValue::String("value"@)),
                    SpecCode::Value(SpecValue::Object(Seq::empty())),
                ] + view_codes(children@));
            }
            node_rec(opts, &node_code, None, fuel)
        },
        None => {
            let node_code = AskCode { name: "node".to_owned(), params: None };
            node_rec(opts, &node_code, None, fuel)
        },
    }
}

/// The projection resource, as `sp_node` says.
#[verifier::loop_isolation(false)]
fn node_rec(opts: &RunOptions, c: &AskCode, args: Option<Vec<Value>>, fuel: u64) -> (r: Result<
    Value,
    EvalError,
>)
    requires
        fuel >= 1,
    ensures
        rr_matches(r, sp_node(opts@, c@, view_args(args), fuel as nat)),
    decreases fuel, 6int,
{
    broadcast use lemma_view_codes, lemma_view_items;

    match &c.params {
        None => Ok(Value::Null),
        Some(ps) => {
            proof {
                lemma_view_codes(ps@);
                assert(c@.params == Option::Some(view_codes(ps@)));
            }
            if ps.len() < 2 {
                return Ok(Value::Null);
            }
            let children = clone_codes_from(ps, 2);
            let ghost schildren = view_codes(ps@).skip(2);
            proof {
                lemma_view_codes(children@);
                assert(view_codes(children@) =~= schildren);
            }
            let ext = args_to_scope_rec(&args);
            let extref = match &ext {
                Some(v) => Some(v),
                None => None,
            };
            let value = match run_rec(opts, &ps[1], None, extref, fuel - 1) {
                Ok(v) => v,
                Err(_) => Value::Null,
            };
            match value {
                Value::List(items) => {
                    let ghost sitems = view_items(items@);
                    let mut outs: Vec<Value> = Vec::new();
                    let n = items.len();
                    let mut i: usize = 0;
                    proof {
                        assert(sitems.take(0) =~= Seq::<SpecValue>::empty());
                        assert(view_items(outs@) =~= Seq::<SpecValue>::empty());
                    }
                    while i < n
                        invariant
                            i <= n,
                            n == sitems.len(),
                            sp_node_list(opts@, sitems.take(i as int), schildren, fuel as nat)
                                == Result::<Seq<SpecValue>, SpecEvalError>::Ok(
                                view_items(outs@),
                            ),
                        decreases n - i,
                    {
                        proof {
                            assert(sitems.take(i + 1).drop_last() =~= sitems.take(i as int));
                            assert(sitems.take(i + 1).last() == items@[i as int]@);
                        }
                        let item = items[i].clone();
                        match process_val_rec(opts, item, &children, fuel) {
                            Ok(v) => {
                                let ghost opre = outs@;
                                let ghost vv = v@;
                                outs.push(v);
                                proof {
                                    lemma_view_items(opre);
                                    lemma_view_items(outs@);
                                    assert(view_items(outs@) =~= view_items(opre).push(vv));
                                }
                            },
                            Err(e) => {
                                proof {
                                    lemma_node_list_err(
                                        opts@,
                                        sitems,
                                        schildren,
                                        fuel as nat,
                                        i as int,
                                        sp_process_val(
                                            opts@,
                                            sitems[i as int],
                                            schildren,
                                            fuel as nat,
                                        )->Err_0,
                                    );
                                }
                                return Err(e);
                            },
                        }
                        i += 1;
                    }
                    proof {
                        assert(sitems.take(n as int) =~= sitems);
                    }
                    Ok(Value::List(outs))
                },
                v => process_val_rec(opts, v, &children, fuel),
            }
        },
    }
}

/// The projection of one resolved value, as `sp_process_val` says.
#[verifier::loop_isolation(false)]
fn process_val_rec(
    opts: &RunOptions,
    value: Value,
    children: &Vec<AskCodeOrValue>,
    fuel: u64,
) -> (r: Result<Value, EvalError>)
    requires
        fuel >= 1,
    ensures
        rr_matches(r, sp_process_val(opts@, value@, view_codes(children@), fuel as nat)),
    decreases fuel, 4int,
{
    broadcast use lemma_view_codes, lemma_view_items, lemma_view_entries;

    let is_obj = value.is_object();
    if !is_obj {
        return Ok(value);
    }
    let ghost objv = value@;
    let ghost schildren = view_codes(children@);
    let mut acc: Vec<(String, Value)> = Vec::new();
    let n = children.len();
    let mut i: usize = 0;
    proof {
        assert(schildren.take(0) =~= Seq::<SpecCode>::empty());
        assert(view_entries(acc@) =~= Seq::<(Seq<char>, SpecValue)>::empty());
    }
    while i < n
        invariant
            i <= n,
            n == schildren.len(),
            sp_fields(opts@, objv, schildren.take(i as int), fuel as nat) == Result::<
                Seq<(Seq<char>, SpecValue)>,
                SpecEvalError,
            >::Ok(view_entries(acc@)),
        decreases n - i,
    {
        proof {
            assert(schildren.take(i + 1).drop_last() =~= schildren.take(i as int));
            assert(schildren.take(i + 1).last() == children@[i as int]@);
        }
        match &children[i] {
            AskCodeOrValue::Value(_) => {
                proof {
                    lemma_fields_err(
                        opts@,
                        objv,
                        schildren,
                        fuel as nat,
                        i as int,
                        SpecEvalError::MalformedProjectionField,
                    );
                }
                return Err(EvalError::MalformedProjectionField);
            },
            AskCodeOrValue::AskCode(cc) => {
                proof {
                    assert(children@[i as int]@ == SpecCode::AskCode(cc@));
                }
                match &cc.params {
                    Some(cps) => {
                        proof {
                            lemma_view_codes(cps@);
                            assert(cc@.params == Option::Some(view_codes(cps@)));
                        }
                        if cps.len() > 0 {
                            let name_args = vec![value.clone()];
                            proof {
                                lemma_view_items(name_args@);
                                assert(view_items(name_args@) =~= seq![objv]);
                            }
                            let namev = match run_rec(
                                opts,
                                &cps[0],
                                Some(name_args),
                                None,
                                fuel - 1,
                            ) {
                                Ok(v) => v,
                                Err(_) => Value::Null,
                            };
                            let val_args = vec![value.clone()];
                            proof {
                                lemma_view_items(val_args@);
                                assert(view_items(val_args@) =~= seq![objv]);
                            }
                            let node_expr = AskCodeOrValue::AskCode(cc.clone());
                            let valv = match run_rec(
                                opts,
                                &node_expr,
                                Some(val_args),
                                None,
                                fuel - 1,
                            ) {
                                Ok(v) => v,
                                Err(_) => Value::Null,
                            };
                            match namev {
                                Value::String(k) => {
                                    let ghost accpre = view_entries(acc@);
                                    let ghost kv = k@;
                                    let ghost vv = valv@;
                                    acc = entries_insert(acc, k, valv);
                                    proof {
                                        assert(view_entries(acc@) == spec_entries_insert(
                                            accpre,
                                            kv,
                                            vv,
                                        ));
                                    }
                                },
                                _ => {},
                            }
                        }
                    },
                    None => {},
                }
            },
        }
        i += 1;
    }
    proof {
        assert(schildren.take(n as int) =~= schildren);
    }
    Ok(Value::Object(acc))
}

/// The default resource behaviour, as `sp_default` says.
fn default_rec(
    opts: &RunOptions,
    kind: ResourceKind,
    c: &AskCode,
    args: Option<Vec<Value>>,
    fuel: u64,
) -> (r: Result<Value, EvalError>)
    requires
        fuel >= 1,
    ensures
        rr_matches(r, sp_default(opts@, kind, c@, view_args(args), fuel as nat)),
    decreases fuel, 7int,
{
    broadcast use lemma_view_codes;

    let vals: Vec<Value> = match args {
        Some(a) => a,
        None => match &c.params {
            Some(ps) => eval_list_rec(opts, ps, None, fuel),
            None => {
                let empty_params: Vec<AskCodeOrValue> = Vec::new();
                let r = eval_list_rec(opts, &empty_params, None, fuel);
                proof {
                    assert(view_codes(empty_params@) =~= sp_params_of(c@));
                }
                r
            },
        },
    };
    Ok(resolve(kind, vals))
}

/// The evaluator: a read-only environment shared by every evaluation.
pub struct AskVm {
    options: RunOptions,
}

impl View for AskVm {
    type V = SpecEnv;

    closed spec fn view(&self) -> SpecEnv {
        self.options@
    }
}

/// The model of an optional owned scope.
pub open spec fn view_scope_owned(s: Option<Vec<(String, AskCodeOrValue)>>) -> Option<
    Seq<(Seq<char>, SpecCode)>,
> {
    match s {
        Option::None => Option::None,
        Option::Some(v) => Option::Some(view_bindings(v@)),
    }
}

impl AskVm {
    pub fn new(options: RunOptions) -> (r: Self)
        ensures
            r@ == options@,
    {
        AskVm { options }
    }

    /// Evaluates an AST node against the VM's environment, with optional
    /// bound argument values and optional lexical scope overrides, exactly
    /// as `sp_run` says with `MAX_DEPTH` fuel.
    pub fn run(
        &self,
        code: AskCodeOrValue,
        args: Option<Vec<Value>>,
        extended_options: Option<Vec<(String, AskCodeOrValue)>>,
    ) -> (r: Result<Value, EvalError>)
        ensures
            rr_matches(
                r,
                sp_run(
                    self@,
                    code@,
                    view_args(args),
                    view_scope_owned(extended_options),
                    MAX_DEPTH as nat,
                ),
            ),
    {
        let scope = match &extended_options {
            Some(v) => Some(v),
            None => None,
        };
        run_rec(&self.options, &code, args, scope, MAX_DEPTH)
    }
}

} // verus!
