//! The parser: a character-indexed recursive descent over the grammar, generic
//! over a `Reducer` that builds the output representation. Every production is
//! mirrored by a spec function, and the executable parser returns exactly what
//! the mirror says.

use vstd::prelude::*;
use vstd::string::*;

use crate::numeric::is_digit;
use crate::numeric::spec_uint_chars;
use crate::numeric::uint_chars;
use crate::strutil::string_from_chars;
use crate::value::SpecValue;
use crate::value::Value;

verus! {

/// Why a parse failed. The whole parse fails on the first error.
#[derive(Debug, PartialEq, Eq)]
pub enum ParseError {
    ExceedMaxStpes(usize),
    Expecting(char),
    Unknown(String),
    EmptyProgram,
}

/// The model of a parse failure.
#[verifier::ext_equal]
pub enum SpecParseError {
    ExceedMaxStpes(int),
    Expecting(char),
    Unknown(Seq<char>),
    EmptyProgram,
}

/// Whether an executable parse error is the modelled one.
pub open spec fn perr_matches(e: ParseError, s: SpecParseError) -> bool {
    match (e, s) {
        (ParseError::ExceedMaxStpes(n), SpecParseError::ExceedMaxStpes(m)) => n as int == m,
        (ParseError::Expecting(c), SpecParseError::Expecting(d)) => c == d,
        (ParseError::Unknown(t), SpecParseError::Unknown(u)) => t@ == u,
        (ParseError::EmptyProgram, SpecParseError::EmptyProgram) => true,
        _ => false,
    }
}

/// The construction contract the parser emits through: build a named node,
/// a bare identifier, or wrap a scalar. The spec functions say what each
/// operation builds, and the executable operations must agree with them.
pub trait Reducer<T: View>: Sized {
    spec fn node_spec(&self, name: Seq<char>, children: Option<Seq<T::V>>) -> T::V;

    spec fn id_spec(&self, name: Seq<char>) -> T::V;

    spec fn value_spec(&self, value: SpecValue) -> T::V;

    fn node(&self, name: String, children: Option<Vec<T>>) -> (r: T)
        ensures
            r@ == self.node_spec(name@, opt_views(children)),
    ;

    fn id(&self, name: String) -> (r: T)
        ensures
            r@ == self.id_spec(name@),
    ;

    fn value(&self, value: Value) -> (r: T)
        ensures
            r@ == self.value_spec(value@),
    ;
}

/// The views of a sequence of built nodes.
pub open spec fn views_of<T: View>(s: Seq<T>) -> Seq<T::V> {
    Seq::new(s.len(), |i: int| s[i]@)
}

/// The views of an optional child list.
pub open spec fn opt_views<T: View>(children: Option<Vec<T>>) -> Option<Seq<T::V>> {
    match children {
        Option::None => Option::None,
        Option::Some(v) => Option::Some(views_of(v@)),
    }
}

/// Whether `c` may appear in an identifier.
pub open spec fn is_id_char(c: char) -> bool {
    c == '_' || ('a' <= c && c <= 'z') || ('A' <= c && c <= 'Z') || is_digit(c)
}

/// Whether `c` may appear in a numeric literal run.
pub open spec fn is_num_char(c: char) -> bool {
    is_digit(c) || c == '.' || c == '-'
}

/// Whether `c` is skippable whitespace.
pub open spec fn is_ws_char(c: char) -> bool {
    c == ' ' || c == '\n'
}

/// The first position at or after `i` that does not hold whitespace.
pub open spec fn sp_skip_ws(code: Seq<char>, i: int) -> int
    decreases code.len() - i,
    when 0 <= i <= code.len()
{
    if i < code.len() && is_ws_char(code[i]) {
        sp_skip_ws(code, i + 1)
    } else {
        i
    }
}

/// Where the identifier run starting at `i` ends.
pub open spec fn sp_scan_id(code: Seq<char>, i: int) -> int
    decreases code.len() - i,
    when 0 <= i <= code.len()
{
    if i < code.len() && is_id_char(code[i]) {
        sp_scan_id(code, i + 1)
    } else {
        i
    }
}

/// Where the numeric-literal run starting at `i` ends.
pub open spec fn sp_scan_num(code: Seq<char>, i: int) -> int
    decreases code.len() - i,
    when 0 <= i <= code.len()
{
    if i < code.len() && is_num_char(code[i]) {
        sp_scan_num(code, i + 1)
    } else {
        i
    }
}

/// Where the string body scan starting at `i` stops: at the first occurrence
/// of `quote` whose immediately preceding character is not a backslash, or at
/// the end of input.
pub open spec fn sp_scan_str(code: Seq<char>, i: int, quote: char) -> int
    decreases code.len() - i,
    when 1 <= i <= code.len()
{
    if i < code.len() && !(code[i - 1] != '\\' && code[i] == quote) {
        sp_scan_str(code, i + 1, quote)
    } else {
        i
    }
}

/// Every scan stays within the input and never moves backwards.
pub proof fn lemma_skip_ws_bounds(code: Seq<char>, i: int)
    requires
        0 <= i <= code.len(),
    ensures
        i <= sp_skip_ws(code, i) <= code.len(),
    decreases code.len() - i,
{
    if i < code.len() && is_ws_char(code[i]) {
        lemma_skip_ws_bounds(code, i + 1);
    }
}

/// See `lemma_skip_ws_bounds`.
pub proof fn lemma_scan_id_bounds(code: Seq<char>, i: int)
    requires
        0 <= i <= code.len(),
    ensures
        i <= sp_scan_id(code, i) <= code.len(),
    decreases code.len() - i,
{
    if i < code.len() && is_id_char(code[i]) {
        lemma_scan_id_bounds(code, i + 1);
    }
}

/// See `lemma_skip_ws_bounds`.
pub proof fn lemma_scan_num_bounds(code: Seq<char>, i: int)
    requires
        0 <= i <= code.len(),
    ensures
        i <= sp_scan_num(code, i) <= code.len(),
    decreases code.len() - i,
{
    if i < code.len() && is_num_char(code[i]) {
        lemma_scan_num_bounds(code, i + 1);
    }
}

/// One unit of parser work: against an optional budget, an exhausted budget
/// fails with `ExceedMaxStpes`.
pub open spec fn sp_step(st: int, bd: Option<int>) -> Result<int, SpecParseError> {
    match bd {
        Option::Some(b) => if st >= b {
            Result::Err(SpecParseError::ExceedMaxStpes(b))
        } else {
            Result::Ok(st + 1)
        },
        Option::None => Result::Ok(st),
    }
}

/// Consuming one expected character: `Expecting` when it is not there.
pub open spec fn sp_process(code: Seq<char>, i: int, st: int, bd: Option<int>, c: char) -> Result<
    (int, int),
    SpecParseError,
> {
    if !(i < code.len() && code[i] == c) {
        Result::Err(SpecParseError::Expecting(c))
    } else {
        match sp_step(st, bd) {
            Result::Err(e) => Result::Err(e),
            Result::Ok(st1) => Result::Ok((i + 1, st1)),
        }
    }
}

/// The parse error message that names a position.
pub open spec fn sp_idx_msg(prefix: Seq<char>, i: int) -> Seq<char> {
    prefix + spec_uint_chars(i)
}

/// An identifier: whitespace, then a nonempty run of identifier characters.
pub open spec fn sp_id(code: Seq<char>, i: int, st: int, bd: Option<int>) -> Result<
    (Seq<char>, int, int),
    SpecParseError,
>
    recommends
        0 <= i <= code.len(),
{
    let i1 = sp_skip_ws(code, i);
    match sp_step(st, bd) {
        Result::Err(e) => Result::Err(e),
        Result::Ok(st1) => {
            let end = sp_scan_id(code, i1);
            if end == i1 {
                Result::Err(
                    SpecParseError::Unknown(sp_idx_msg("id error at index: "@, i1)),
                )
            } else {
                Result::Ok((code.subrange(i1, end), end, st1))
            }
        },
    }
}

/// The spec budget of an executable budget.
pub open spec fn view_budget(bd: Option<usize>) -> Option<int> {
    match bd {
        Option::None => Option::None,
        Option::Some(b) => Option::Some(b as int),
    }
}

/// Skips whitespace, as `sp_skip_ws` says.
pub fn skip_ws(code: &Vec<char>, i: usize) -> (r: usize)
    requires
        i <= code@.len(),
    ensures
        r == sp_skip_ws(code@, i as int),
        i <= r <= code@.len(),
{
    let mut j = i;
    while j < code.len() && (code[j] == ' ' || code[j] == '\n')
        invariant
            i <= j <= code@.len(),
            sp_skip_ws(code@, i as int) == sp_skip_ws(code@, j as int),
        decreases code@.len() - j,
    {
        j += 1;
    }
    j
}

/// Scans an identifier run, as `sp_scan_id` says.
pub fn scan_id(code: &Vec<char>, i: usize) -> (r: usize)
    requires
        i <= code@.len(),
    ensures
        r == sp_scan_id(code@, i as int),
        i <= r <= code@.len(),
{
    let mut j = i;
    while j < code.len() && (code[j] == '_' || ('a' <= code[j] && code[j] <= 'z') || ('A' <= code[j]
        && code[j] <= 'Z') || ('0' <= code[j] && code[j] <= '9'))
        invariant
            i <= j <= code@.len(),
            sp_scan_id(code@, i as int) == sp_scan_id(code@, j as int),
        decreases code@.len() - j,
    {
        j += 1;
    }
    j
}

/// Scans a numeric-literal run, as `sp_scan_num` says.
pub fn scan_num(code: &Vec<char>, i: usize) -> (r: usize)
    requires
        i <= code@.len(),
    ensures
        r == sp_scan_num(code@, i as int),
        i <= r <= code@.len(),
{
    let mut j = i;
    while j < code.len() && (('0' <= code[j] && code[j] <= '9') || code[j] == '.' || code[j] == '-')
        invariant
            i <= j <= code@.len(),
            sp_scan_num(code@, i as int) == sp_scan_num(code@, j as int),
        decreases code@.len() - j,
    {
        j += 1;
    }
    j
}

/// Scans a string body, as `sp_scan_str` says.
pub fn scan_str(code: &Vec<char>, i: usize, quote: char) -> (r: usize)
    requires
        1 <= i <= code@.len(),
    ensures
        r == sp_scan_str(code@, i as int, quote),
        i <= r <= code@.len(),
{
    let mut j = i;
    while j < code.len() && !(code[j - 1] != '\\' && code[j] == quote)
        invariant
            1 <= j,
            i <= j <= code@.len(),
            sp_scan_str(code@, i as int, quote) == sp_scan_str(code@, j as int, quote),
        decreases code@.len() - j,
    {
        j += 1;
    }
    j
}

/// One unit of parser work, as `sp_step` says.
pub fn do_step(st: usize, bd: Option<usize>) -> (r: Result<usize, ParseError>)
    ensures
        match (r, sp_step(st as int, view_budget(bd))) {
            (Result::Ok(s), Result::Ok(t)) => s as int == t,
            (Result::Err(e), Result::Err(se)) => perr_matches(e, se),
            _ => false,
        },
{
    match bd {
        Option::Some(b) => {
            if st >= b {
                Err(ParseError::ExceedMaxStpes(b))
            } else {
                Ok(st + 1)
            }
        },
        Option::None => {
            // An unbudgeted parse counts no steps: the count is observable
            // only through the budget.
            Ok(st)
        },
    }
}

/// The characters from `from` to `to`.
pub fn subrange_chars(code: &Vec<char>, from: usize, to: usize) -> (r: Vec<char>)
    requires
        from <= to <= code@.len(),
    ensures
        r@ == code@.subrange(from as int, to as int),
{
    let mut out: Vec<char> = Vec::new();
    let mut j = from;
    while j < to
        invariant
            from <= j <= to <= code@.len(),
            out@ == code@.subrange(from as int, j as int),
        decreases to - j,
    {
        let c = code[j];
        let ghost pre = out@;
        out.push(c);
        proof {
            assert(out@ =~= code@.subrange(from as int, j + 1));
        }
        j += 1;
    }
    out
}

/// The parse error message that names a position.
pub fn idx_msg(prefix: &str, i: usize) -> (r: String)
    ensures
        r@ == sp_idx_msg(prefix@, i as int),
{
    let mut s = prefix.to_owned();
    let digits = uint_chars(i as u64);
    let tail = string_from_chars(&digits);
    s.append(tail.as_str());
    s
}

/// A numeric literal: the run of numeric characters, kept as deferred text.
pub open spec fn sp_number<T: View, R: Reducer<T>>(
    red: &R,
    code: Seq<char>,
    i: int,
    st: int,
    bd: Option<int>,
) -> Result<(T::V, int, int), SpecParseError>
    recommends
        0 <= i <= code.len(),
{
    match sp_step(st, bd) {
        Result::Err(e) => Result::Err(e),
        Result::Ok(st1) => {
            let end = sp_scan_num(code, i);
            Result::Ok(
                (red.value_spec(SpecValue::Number(code.subrange(i, end))), end, st1),
            )
        },
    }
}

/// A string literal: the characters between the quote at `i` and the next
/// occurrence of that quote not immediately preceded by a backslash.
pub open spec fn sp_string<T: View, R: Reducer<T>>(
    red: &R,
    code: Seq<char>,
    i: int,
    st: int,
    bd: Option<int>,
) -> Result<(T::V, int, int), SpecParseError>
    recommends
        0 <= i < code.len(),
{
    match sp_step(st, bd) {
        Result::Err(e) => Result::Err(e),
        Result::Ok(st1) => {
            let quote = code[i];
            match sp_process(code, i, st1, bd, quote) {
                Result::Err(e) => Result::Err(e),
                Result::Ok((i1, st2)) => {
                    let end = sp_scan_str(code, i1, quote);
                    if end == code.len() {
                        Result::Err(
                            SpecParseError::Unknown(
                                sp_idx_msg("string error at index: "@, end),
                            ),
                        )
                    } else {
                        match sp_process(code, end, st2, bd, quote) {
                            Result::Err(e) => Result::Err(e),
                            Result::Ok((i2, st3)) => Result::Ok(
                                (
                                    red.value_spec(
                                        SpecValue::String(code.subrange(i1, end)),
                                    ),
                                    i2,
                                    st3,
                                ),
                            ),
                        }
                    }
                },
            }
        },
    }
}

/// The separator expected after the item at position `m` of a bracketed list:
/// the odd separator after even-positioned items, so that object syntax
/// alternates `:` and `,`.
pub open spec fn sp_sep_of(m: int, sep: char, oddsep: char) -> char {
    if m % 2 == 0 {
        oddsep
    } else {
        sep
    }
}

/// An expression: a string or numeric literal, a bracketed list or object, or
/// a call.
pub open spec fn sp_expression<T: View, R: Reducer<T>>(
    red: &R,
    code: Seq<char>,
    i: int,
    st: int,
    bd: Option<int>,
) -> Result<(T::V, int, int), SpecParseError>
    decreases code.len() - i, 3int,
    when 0 <= i <= code.len()
{
    let iw = sp_skip_ws(code, i);
    proof {
        lemma_skip_ws_bounds(code, i);
    }
    match sp_step(st, bd) {
        Result::Err(e) => Result::Err(e),
        Result::Ok(st1) => {
            if iw < code.len() && (code[iw] == '"' || code[iw] == '\'') {
                sp_string(red, code, iw, st1, bd)
            } else if iw < code.len() && is_num_char(code[iw]) {
                sp_number(red, code, iw, st1, bd)
            } else if iw < code.len() && code[iw] == '[' {
                sp_expression_list(red, "list"@, '[', ']', ',', ',', code, iw, st1, bd)
            } else if iw < code.len() && code[iw] == '{' {
                sp_expression_list(red, "object"@, '{', '}', ',', ':', code, iw, st1, bd)
            } else {
                sp_call(red, code, iw, st1, bd)
            }
        },
    }
}

/// A call: an identifier, then optionally a parenthesised argument list; a
/// bare identifier reduces through the reducer's `id` operation.
pub open spec fn sp_call<T: View, R: Reducer<T>>(
    red: &R,
    code: Seq<char>,
    i: int,
    st: int,
    bd: Option<int>,
) -> Result<(T::V, int, int), SpecParseError>
    decreases code.len() - i, 1int,
    when 0 <= i <= code.len()
{
    match sp_id(code, i, st, bd) {
        Result::Err(e) => Result::Err(e),
        Result::Ok((name, i1, st1)) => {
            proof {
                lemma_skip_ws_bounds(code, i);
                lemma_scan_id_bounds(code, sp_skip_ws(code, i));
                lemma_skip_ws_bounds(code, i1);
            }
            let i2 = sp_skip_ws(code, i1);
            if !(i2 < code.len() && code[i2] == '(') {
                Result::Ok((red.id_spec(name), i2, st1))
            } else {
                sp_expression_list(red, name, '(', ')', ',', ',', code, i2, st1, bd)
            }
        },
    }
}

/// A bracketed expression list: the open character, items separated as
/// `sp_sep_of` says, then the close character, reduced to a named node.
pub open spec fn sp_expression_list<T: View, R: Reducer<T>>(
    red: &R,
    name: Seq<char>,
    open: char,
    close: char,
    sep: char,
    oddsep: char,
    code: Seq<char>,
    i: int,
    st: int,
    bd: Option<int>,
) -> Result<(T::V, int, int), SpecParseError>
    decreases code.len() - i, 2int,
    when 0 <= i <= code.len()
{
    match sp_process(code, i, st, bd, open) {
        Result::Err(e) => Result::Err(e),
        Result::Ok((i1, st1)) => {
            proof {
                lemma_skip_ws_bounds(code, i1);
            }
            let i2 = sp_skip_ws(code, i1);
            match sp_items(red, code, i2, st1, bd, close, sep, oddsep, 0) {
                Result::Err(e) => Result::Err(e),
                Result::Ok((vs, i3, st3)) => match sp_process(code, i3, st3, bd, close) {
                    Result::Err(e) => Result::Err(e),
                    Result::Ok((i4, st4)) => Result::Ok(
                        (red.node_spec(name, Option::Some(vs)), i4, st4),
                    ),
                },
            }
        },
    }
}

/// The items of a bracketed list, from position `i`, with `m` items already
/// read. The branch for an expression that consumed nothing cannot be
/// reached; it stands because the termination measure needs it.
pub open spec fn sp_items<T: View, R: Reducer<T>>(
    red: &R,
    code: Seq<char>,
    i: int,
    st: int,
    bd: Option<int>,
    close: char,
    sep: char,
    oddsep: char,
    m: int,
) -> Result<(Seq<T::V>, int, int), SpecParseError>
    decreases code.len() - i, 4int,
    when 0 <= i <= code.len()
{
    if i >= code.len() || code[i] == close {
        Result::Ok((Seq::empty(), i, st))
    } else {
        match sp_expression(red, code, i, st, bd) {
            Result::Err(e) => Result::Err(e),
            Result::Ok((v, i1, st1)) => {
                if !(i < i1 && i1 <= code.len()) {
                    Result::Err(
                        SpecParseError::Unknown(sp_idx_msg("list error at index: "@, i)),
                    )
                } else {
                    match sp_step(st1, bd) {
                        Result::Err(e) => Result::Err(e),
                        Result::Ok(st2) => {
                            proof {
                                lemma_skip_ws_bounds(code, i1);
                            }
                            let i2 = sp_skip_ws(code, i1);
                            if i2 < code.len() && code[i2] == close {
                                Result::Ok((seq![v], i2, st2))
                            } else {
                                match sp_process(
                                    code,
                                    i2,
                                    st2,
                                    bd,
                                    sp_sep_of(m, sep, oddsep),
                                ) {
                                    Result::Err(e) => Result::Err(e),
                                    Result::Ok((i3, st3)) => match sp_items(
                                        red,
                                        code,
                                        i3,
                                        st3,
                                        bd,
                                        close,
                                        sep,
                                        oddsep,
                                        m + 1,
                                    ) {
                                        Result::Err(e) => Result::Err(e),
                                        Result::Ok((rest, i4, st4)) => Result::Ok(
                                            (seq![v] + rest, i4, st4),
                                        ),
                                    },
                                }
                            }
                        },
                    }
                }
            },
        }
    }
}

/// A whole program: one expression with nothing but whitespace after it.
pub open spec fn sp_program<T: View, R: Reducer<T>>(
    red: &R,
    code: Seq<char>,
    bd: Option<int>,
) -> Result<(T::V, int, int), SpecParseError> {
    match sp_expression(red, code, 0, 0, bd) {
        Result::Err(e) => Result::Err(e),
        Result::Ok((v, i1, st1)) => {
            let i2 = sp_skip_ws(code, i1);
            if i2 < code.len() {
                Result::Err(
                    SpecParseError::Unknown(sp_idx_msg("program error at index: "@, i2)),
                )
            } else {
                Result::Ok((v, i2, st1))
            }
        },
    }
}

/// A whole parse: an empty input is `EmptyProgram`; otherwise a program.
pub open spec fn sp_reduce<T: View, R: Reducer<T>>(
    red: &R,
    code: Seq<char>,
    bd: Option<int>,
) -> Result<(T::V, int, int), SpecParseError> {
    if code.len() == 0 {
        Result::Err(SpecParseError::EmptyProgram)
    } else {
        sp_program(red, code, bd)
    }
}

/// Whether an executable outcome is the modelled one.
pub open spec fn out_matches<T: View>(
    r: Result<(T, usize, usize), ParseError>,
    s: Result<(T::V, int, int), SpecParseError>,
) -> bool {
    match (r, s) {
        (Result::Ok((t, i, st)), Result::Ok((v, si, sst))) => t@ == v && i as int == si && st
            as int == sst,
        (Result::Err(e), Result::Err(se)) => perr_matches(e, se),
        _ => false,
    }
}

/// Reads an identifier, as `sp_id` says.
fn p_id(code: &Vec<char>, i: usize, st: usize, bd: Option<usize>) -> (r: Result<
    (String, usize, usize),
    ParseError,
>)
    requires
        i <= code@.len(),
    ensures
        match (r, sp_id(code@, i as int, st as int, view_budget(bd))) {
            (Result::Ok((name, i1, st1)), Result::Ok((sn, si, sst))) => name@ == sn && i1 as int
                == si && st1 as int == sst,
            (Result::Err(e), Result::Err(se)) => perr_matches(e, se),
            _ => false,
        },
        r matches Ok(o) ==> i < o.1 <= code@.len(),
{
    let i1 = skip_ws(code, i);
    match do_step(st, bd) {
        Err(e) => Err(e),
        Ok(st1) => {
            let end = scan_id(code, i1);
            if end == i1 {
                Err(ParseError::Unknown(idx_msg("id error at index: ", i1)))
            } else {
                let sub = subrange_chars(code, i1, end);
                let name = string_from_chars(&sub);
                Ok((name, end, st1))
            }
        },
    }
}

/// Reads a numeric literal, as `sp_number` says.
fn p_number<T: View, R: Reducer<T>>(
    red: &R,
    code: &Vec<char>,
    i: usize,
    st: usize,
    bd: Option<usize>,
) -> (r: Result<(T, usize, usize), ParseError>)
    requires
        i < code@.len(),
        is_num_char(code@[i as int]),
    ensures
        out_matches::<T>(r, sp_number(red, code@, i as int, st as int, view_budget(bd))),
        r matches Ok(o) ==> i < o.1 <= code@.len(),
{
    match do_step(st, bd) {
        Err(e) => Err(e),
        Ok(st1) => {
            let end = scan_num(code, i);
            proof {
                assert(sp_scan_num(code@, i as int) == sp_scan_num(code@, i + 1));
                lemma_scan_num_bounds(code@, i + 1);
            }
            let sub = subrange_chars(code, i, end);
            let text = string_from_chars(&sub);
            let v = red.value(Value::Number(crate::value::Number(text)));
            Ok((v, end, st1))
        },
    }
}

/// Reads a string literal, as `sp_string` says.
fn p_string<T: View, R: Reducer<T>>(
    red: &R,
    code: &Vec<char>,
    i: usize,
    st: usize,
    bd: Option<usize>,
) -> (r: Result<(T, usize, usize), ParseError>)
    requires
        i < code@.len(),
    ensures
        out_matches::<T>(r, sp_string(red, code@, i as int, st as int, view_budget(bd))),
        r matches Ok(o) ==> i < o.1 <= code@.len(),
{
    match do_step(st, bd) {
        Err(e) => Err(e),
        Ok(st1) => {
            let quote = code[i];
            match p_process(code, i, st1, bd, quote) {
                Err(e) => Err(e),
                Ok((i1, st2)) => {
                    let end = scan_str(code, i1, quote);
                    if end == code.len() {
                        Err(ParseError::Unknown(idx_msg("string error at index: ", end)))
                    } else {
                        match p_process(code, end, st2, bd, quote) {
                            Err(e) => Err(e),
                            Ok((i2, st3)) => {
                                let sub = subrange_chars(code, i1, end);
                                let text = string_from_chars(&sub);
                                let v = red.value(Value::String(text));
                                Ok((v, i2, st3))
                            },
                        }
                    }
                },
            }
        },
    }
}

/// Consumes one expected character, as `sp_process` says.
fn p_process(code: &Vec<char>, i: usize, st: usize, bd: Option<usize>, c: char) -> (r: Result<
    (usize, usize),
    ParseError,
>)
    requires
        i <= code@.len(),
    ensures
        match (r, sp_process(code@, i as int, st as int, view_budget(bd), c)) {
            (Result::Ok((i1, st1)), Result::Ok((si, sst))) => i1 as int == si && st1 as int
                == sst,
            (Result::Err(e), Result::Err(se)) => perr_matches(e, se),
            _ => false,
        },
        r matches Ok(o) ==> o.0 == i + 1,
{
    if !(i < code.len() && code[i] == c) {
        Err(ParseError::Expecting(c))
    } else {
        match do_step(st, bd) {
            Err(e) => Err(e),
            Ok(st1) => Ok((i + 1, st1)),
        }
    }
}

/// Reads an expression, as `sp_expression` says.
fn p_expression<T: View, R: Reducer<T>>(
    red: &R,
    code: &Vec<char>,
    i: usize,
    st: usize,
    bd: Option<usize>,
) -> (r: Result<(T, usize, usize), ParseError>)
    requires
        i <= code@.len(),
    ensures
        out_matches::<T>(r, sp_expression(red, code@, i as int, st as int, view_budget(bd))),
        r matches Ok(o) ==> i < o.1 <= code@.len(),
    decreases code@.len() - i, 3int,
{
    let iw = skip_ws(code, i);
    match do_step(st, bd) {
        Err(e) => Err(e),
        Ok(st1) => {
            if iw < code.len() && (code[iw] == '"' || code[iw] == '\'') {
                p_string(red, code, iw, st1, bd)
            } else if iw < code.len() && (('0' <= code[iw] && code[iw] <= '9') || code[iw] == '.'
                || code[iw] == '-') {
                p_number(red, code, iw, st1, bd)
            } else if iw < code.len() && code[iw] == '[' {
                let name = "list".to_owned();
                p_expression_list(red, name, '[', ']', ',', ',', code, iw, st1, bd)
            } else if iw < code.len() && code[iw] == '{' {
                let name = "object".to_owned();
                p_expression_list(red, name, '{', '}', ',', ':', code, iw, st1, bd)
            } else {
                p_call(red, code, iw, st1, bd)
            }
        },
    }
}

/// Reads a call, as `sp_call` says.
fn p_call<T: View, R: Reducer<T>>(
    red: &R,
    code: &Vec<char>,
    i: usize,
    st: usize,
    bd: Option<usize>,
) -> (r: Result<(T, usize, usize), ParseError>)
    requires
        i <= code@.len(),
    ensures
        out_matches::<T>(r, sp_call(red, code@, i as int, st as int, view_budget(bd))),
        r matches Ok(o) ==> i < o.1 <= code@.len(),
    decreases code@.len() - i, 1int,
{
    match p_id(code, i, st, bd) {
        Err(e) => Err(e),
        Ok((name, i1, st1)) => {
            let i2 = skip_ws(code, i1);
            if !(i2 < code.len() && code[i2] == '(') {
                let v = red.id(name);
                Ok((v, i2, st1))
            } else {
                p_expression_list(red, name, '(', ')', ',', ',', code, i2, st1, bd)
            }
        },
    }
}

/// Reads a bracketed expression list, as `sp_expression_list` says.
fn p_expression_list<T: View, R: Reducer<T>>(
    red: &R,
    name: String,
    open: char,
    close: char,
    sep: char,
    oddsep: char,
    code: &Vec<char>,
    i: usize,
    st: usize,
    bd: Option<usize>,
) -> (r: Result<(T, usize, usize), ParseError>)
    requires
        i <= code@.len(),
    ensures
        out_matches::<T>(
            r,
            sp_expression_list(
                red,
                name@,
                open,
                close,
                sep,
                oddsep,
                code@,
                i as int,
                st as int,
                view_budget(bd),
            ),
        ),
        r matches Ok(o) ==> i < o.1 <= code@.len(),
    decreases code@.len() - i, 2int,
{
    match p_process(code, i, st, bd, open) {
        Err(e) => Err(e),
        Ok((i1, st1)) => {
            let i2 = skip_ws(code, i1);
            match p_items(red, code, i2, st1, bd, close, sep, oddsep, 0) {
                Err(e) => Err(e),
                Ok((vs, i3, st3)) => match p_process(code, i3, st3, bd, close) {
                    Err(e) => Err(e),
                    Ok((i4, st4)) => {
                        let v = red.node(name, Some(vs));
                        Ok((v, i4, st4))
                    },
                },
            }
        },
    }
}

/// Reads the items of a bracketed list, as `sp_items` says.
fn p_items<T: View, R: Reducer<T>>(
    red: &R,
    code: &Vec<char>,
    i: usize,
    st: usize,
    bd: Option<usize>,
    close: char,
    sep: char,
    oddsep: char,
    m: usize,
) -> (r: Result<(Vec<T>, usize, usize), ParseError>)
    requires
        i <= code@.len(),
        m <= i,
    ensures
        match (r, sp_items(red, code@, i as int, st as int, view_budget(bd), close, sep, oddsep, m as int)) {
            (Result::Ok((vs, i1, st1)), Result::Ok((svs, si, sst))) => views_of(vs@) == svs && i1
                as int == si && st1 as int == sst,
            (Result::Err(e), Result::Err(se)) => perr_matches(e, se),
            _ => false,
        },
        r matches Ok(o) ==> i <= o.1 <= code@.len(),
    decreases code@.len() - i, 4int,
{
    if i >= code.len() || code[i] == close {
        let vs: Vec<T> = Vec::new();
        proof {
            assert(views_of(vs@) =~= Seq::<T::V>::empty());
        }
        return Ok((vs, i, st));
    }
    match p_expression(red, code, i, st, bd) {
        Err(e) => Err(e),
        Ok((v, i1, st1)) => {
            match do_step(st1, bd) {
                Err(e) => Err(e),
                Ok(st2) => {
                    let i2 = skip_ws(code, i1);
                    if i2 < code.len() && code[i2] == close {
                        let mut vs: Vec<T> = Vec::new();
                        vs.push(v);
                        proof {
                            assert(views_of(vs@) =~= seq![vs@[0]@]);
                        }
                        Ok((vs, i2, st2))
                    } else {
                        let sc = if m % 2 == 0 {
                            oddsep
                        } else {
                            sep
                        };
                        match p_process(code, i2, st2, bd, sc) {
                            Err(e) => Err(e),
                            Ok((i3, st3)) => {
                                match p_items(red, code, i3, st3, bd, close, sep, oddsep, m + 1) {
                                    Err(e) => Err(e),
                                    Ok((rest, i4, st4)) => {
                                        let mut out = rest;
                                        let ghost restv = out@;
                                        out.insert(0, v);
                                        proof {
                                            assert(views_of(out@) =~= seq![v@] + views_of(
                                                restv,
                                            ));
                                        }
                                        Ok((out, i4, st4))
                                    },
                                }
                            },
                        }
                    }
                },
            }
        },
    }
}

/// Reads a whole program, as `sp_program` says.
fn p_program<T: View, R: Reducer<T>>(red: &R, code: &Vec<char>, bd: Option<usize>) -> (r: Result<
    (T, usize, usize),
    ParseError,
>)
    ensures
        out_matches::<T>(r, sp_program(red, code@, view_budget(bd))),
{
    match p_expression(red, code, 0, 0, bd) {
        Err(e) => Err(e),
        Ok((v, i1, st1)) => {
            let i2 = skip_ws(code, i1);
            if i2 < code.len() {
                Err(ParseError::Unknown(idx_msg("program error at index: ", i2)))
            } else {
                Ok((v, i2, st1))
            }
        },
    }
}

/// The parser state: the input as characters, the read position, the count of
/// work units spent, and the optional ceiling on them.
pub struct Parser {
    code: Vec<char>,
    index: usize,
    steps: usize,
    stop_after_steps: Option<usize>,
}

/// The model of a parser: its input and its step budget.
#[verifier::ext_equal]
pub struct SpecParser {
    pub code: Seq<char>,
    pub budget: Option<int>,
}

impl View for Parser {
    type V = SpecParser;

    closed spec fn view(&self) -> SpecParser {
        SpecParser { code: self.code@, budget: view_budget(self.stop_after_steps) }
    }
}

impl Parser {
    /// A parser over `code`, optionally stopping after a step budget.
    pub fn new(code: String, stop_after_steps: Option<usize>) -> (r: Self)
        ensures
            r@ == (SpecParser { code: code@, budget: view_budget(stop_after_steps) }),
    {
        Parser {
            code: crate::strutil::chars_of(code.as_str()),
            index: 0,
            steps: 0,
            stop_after_steps,
        }
    }

    /// Parses the whole input through `reducer`, exactly as `sp_reduce` says:
    /// an empty input fails with `EmptyProgram`; trailing input fails with
    /// `Unknown`.
    pub fn reduce<T: View, R: Reducer<T>>(&mut self, reducer: R) -> (r: Result<T, ParseError>)
        ensures
            match (r, sp_reduce(&reducer, old(self)@.code, old(self)@.budget)) {
                (Result::Ok(t), Result::Ok(o)) => t@ == o.0,
                (Result::Err(e), Result::Err(se)) => perr_matches(e, se),
                _ => false,
            },
    {
        if self.code.len() == 0 {
            return Err(ParseError::EmptyProgram);
        }
        match p_program(&reducer, &self.code, self.stop_after_steps) {
            Err(e) => Err(e),
            Ok((v, i, st)) => {
                self.index = i;
                self.steps = st;
                Ok(v)
            },
        }
    }
}

} // verus!
