//! Numeric text handling: classifying a numeric literal as integer or float,
//! reading an `i32` from decimal text, and printing an `i32` as decimal text.

use vstd::prelude::*;

verus! {

/// Whether `c` is a decimal digit.
pub open spec fn is_digit(c: char) -> bool {
    '0' <= c && c <= '9'
}

/// The value of a decimal digit.
pub open spec fn digit_val(c: char) -> int {
    if c == '0' {
        0
    } else if c == '1' {
        1
    } else if c == '2' {
        2
    } else if c == '3' {
        3
    } else if c == '4' {
        4
    } else if c == '5' {
        5
    } else if c == '6' {
        6
    } else if c == '7' {
        7
    } else if c == '8' {
        8
    } else {
        9
    }
}

/// The value of a decimal digit character.
pub fn digit_of(c: char) -> (d: u64)
    requires
        is_digit(c),
    ensures
        d == digit_val(c),
        d <= 9,
{
    if c == '0' {
        0
    } else if c == '1' {
        1
    } else if c == '2' {
        2
    } else if c == '3' {
        3
    } else if c == '4' {
        4
    } else if c == '5' {
        5
    } else if c == '6' {
        6
    } else if c == '7' {
        7
    } else if c == '8' {
        8
    } else {
        9
    }
}

/// The decimal digit character for `d`.
pub open spec fn digit_char(d: int) -> char {
    if d == 0 {
        '0'
    } else if d == 1 {
        '1'
    } else if d == 2 {
        '2'
    } else if d == 3 {
        '3'
    } else if d == 4 {
        '4'
    } else if d == 5 {
        '5'
    } else if d == 6 {
        '6'
    } else if d == 7 {
        '7'
    } else if d == 8 {
        '8'
    } else {
        '9'
    }
}

/// Whether every character of `s` is a decimal digit.
pub open spec fn all_digits(s: Seq<char>) -> bool {
    forall|i: int| 0 <= i < s.len() ==> is_digit(s[i])
}

/// The number denoted by a sequence of decimal digits.
pub open spec fn spec_digits_val(s: Seq<char>) -> int
    decreases s.len(),
{
    if s.len() == 0 {
        0
    } else {
        spec_digits_val(s.drop_last()) * 10 + digit_val(s.last())
    }
}

/// What `str::parse::<i32>` accepts and returns: an optional sign followed by
/// at least one digit, denoting a value within the range of `i32`.
pub open spec fn spec_parse_i32(s: Seq<char>) -> Option<i32> {
    let t = if s.len() > 0 && (s[0] == '+' || s[0] == '-') {
        s.skip(1)
    } else {
        s
    };
    let neg = s.len() > 0 && s[0] == '-';
    if t.len() == 0 || !all_digits(t) {
        None
    } else {
        let v = if neg {
            -spec_digits_val(t)
        } else {
            spec_digits_val(t)
        };
        if -0x8000_0000 <= v && v <= 0x7fff_ffff {
            Some(v as i32)
        } else {
            None
        }
    }
}

/// A digit string is worth at least as much as any of its prefixes.
proof fn lemma_digits_val_bounds(s: Seq<char>, i: int)
    requires
        all_digits(s),
        0 <= i <= s.len(),
    ensures
        0 <= spec_digits_val(s.take(i)) <= spec_digits_val(s),
    decreases s.len() - i,
{
    if i == s.len() {
        assert(s.take(i) =~= s);
        lemma_digits_val_nonneg(s);
    } else {
        lemma_digits_val_bounds(s, i + 1);
        assert(s.take(i + 1).drop_last() =~= s.take(i));
        assert(s.take(i + 1).last() == s[i]);
        assert(is_digit(s[i]));
        assert(digit_val(s[i]) >= 0);
        assert(spec_digits_val(s.take(i + 1)) == spec_digits_val(s.take(i)) * 10 + digit_val(
            s[i],
        ));
        assert(0 <= spec_digits_val(s.take(i))) by {
            assert(all_digits(s.take(i)));
            lemma_digits_val_nonneg(s.take(i));
        }
        assert(spec_digits_val(s.take(i)) <= spec_digits_val(s.take(i + 1)));
    }
}

proof fn lemma_digits_val_nonneg(s: Seq<char>)
    requires
        all_digits(s),
    ensures
        spec_digits_val(s) >= 0,
    decreases s.len(),
{
    if s.len() > 0 {
        assert(all_digits(s.drop_last()));
        lemma_digits_val_nonneg(s.drop_last());
    }
}

/// Reads an `i32` from decimal text, exactly as `str::parse::<i32>` does.
#[verifier::loop_isolation(false)]
pub fn parse_i32_chars(chars: &Vec<char>) -> (r: Option<i32>)
    ensures
        r == spec_parse_i32(chars@),
{
    let s = chars;
    let len = s.len();
    let mut pos: usize = 0;
    let mut neg = false;
    if len > 0 && (s[0] == '+' || s[0] == '-') {
        neg = s[0] == '-';
        pos = 1;
    }
    let ghost t: Seq<char> = if pos == 1 {
        s@.skip(1)
    } else {
        s@
    };
    if pos >= len {
        return None;
    }
    let mut acc: u64 = 0;
    let mut i: usize = pos;
    while i < len
        invariant
            pos <= i <= len,
            t.len() == len - pos,
            forall|j: int| 0 <= j < t.len() ==> t[j] == s@[j + pos],
            all_digits(t.take(i - pos)),
            acc == spec_digits_val(t.take(i - pos)),
            acc <= 0x8000_0000,
        decreases len - i,
    {
        let c = s[i];
        if c < '0' || c > '9' {
            proof {
                assert(t[i - pos] == c);
                assert(!is_digit(t[i - pos]));
                assert(!all_digits(t));
            }
            return None;
        }
        let d = digit_of(c);
        acc = acc * 10 + d;
        proof {
            assert(t.take(i + 1 - pos).drop_last() =~= t.take(i - pos));
            assert(t.take(i + 1 - pos).last() == c);
        }
        if acc > 0x8000_0000 {
            proof {
                if all_digits(t) {
                    lemma_digits_val_bounds(t, i + 1 - pos);
                }
            }
            return None;
        }
        i += 1;
    }
    proof {
        assert(t.take(len - pos) =~= t);
    }
    if neg {
        if acc == 0 {
            Some(0)
        } else {
            let v = -(acc as i64);
            Some(v as i32)
        }
    } else {
        if acc > 0x7fff_ffff {
            None
        } else {
            Some(acc as i32)
        }
    }
}

/// Whether `t` is digits with a decimal point at position `i`.
pub open spec fn dot_at(t: Seq<char>, i: int) -> bool {
    &&& 0 <= i < t.len()
    &&& t[i] == '.'
    &&& forall|j: int| 0 <= j < t.len() && j != i ==> is_digit(t[j])
}

/// Numeric literal text with its sign, if any, removed.
pub open spec fn spec_unsigned_tail(s: Seq<char>) -> Seq<char> {
    if s.len() > 0 && (s[0] == '+' || s[0] == '-') {
        s.skip(1)
    } else {
        s
    }
}

/// Whether numeric literal text denotes a floating-point value: an optional
/// sign, then digits with exactly one decimal point among them.
pub open spec fn spec_is_float_text(s: Seq<char>) -> bool {
    exists|i: int| #[trigger] dot_at(spec_unsigned_tail(s), i)
}

/// Classifies numeric literal text, exactly as `spec_is_float_text` says.
#[verifier::loop_isolation(false)]
pub fn is_float_text(chars: &Vec<char>) -> (r: bool)
    ensures
        r == spec_is_float_text(chars@),
{
    let s = chars;
    let len = s.len();
    let mut pos: usize = 0;
    if len > 0 && (s[0] == '+' || s[0] == '-') {
        pos = 1;
    }
    let ghost t: Seq<char> = if pos == 1 {
        s@.skip(1)
    } else {
        s@
    };
    let mut i: usize = pos;
    let mut dot: usize = 0;
    let mut seen_dot = false;
    while i < len
        invariant
            pos <= i <= len,
            t.len() == len - pos,
            forall|j: int| 0 <= j < t.len() ==> t[j] == s@[j + pos],
            seen_dot ==> pos <= dot < i && s@[dot as int] == '.',
            forall|j: int|
                pos <= j < i && (!seen_dot || j != dot) ==> is_digit(s@[j]) && s@[j] != '.',
        decreases len - i,
    {
        let c = s[i];
        if c == '.' {
            if seen_dot {
                proof {
                    assert forall|k: int| !dot_at(t, k) by {
                        if 0 <= k < t.len() && t[k] == '.' {
                            if k == dot - pos {
                                assert(t[i - pos] == '.');
                                assert(0 <= i - pos < t.len() && i - pos != k && !is_digit(
                                    t[i - pos],
                                ));
                            } else {
                                assert(t[dot - pos] == '.');
                                assert(0 <= dot - pos < t.len() && dot - pos != k && !is_digit(
                                    t[dot - pos],
                                ));
                            }
                        }
                    }
                    assert(!spec_is_float_text(chars@));
                }
                return false;
            }
            dot = i;
            seen_dot = true;
        } else {
            if c < '0' || c > '9' {
                proof {
                    assert(t[i - pos] == c);
                    assert forall|k: int| !dot_at(t, k) by {
                        if 0 <= k < t.len() && t[k] == '.' {
                            assert(t[i - pos] != '.');
                            assert(0 <= i - pos < t.len() && i - pos != k && !is_digit(
                                t[i - pos],
                            ));
                        }
                    }
                    assert(!spec_is_float_text(chars@));
                }
                return false;
            }
        }
        i += 1;
    }
    proof {
        if seen_dot {
            assert(t[dot - pos] == '.');
            assert forall|j: int| 0 <= j < t.len() && j != dot - pos implies is_digit(t[j]) by {
                assert(t[j] == s@[j + pos]);
                assert(pos <= j + pos < len && j + pos != dot);
            }
            assert(t == spec_unsigned_tail(chars@));
            assert(dot_at(spec_unsigned_tail(chars@), dot - pos));
            assert(spec_is_float_text(chars@));
        } else {
            assert forall|k: int| !dot_at(t, k) by {
                if 0 <= k < t.len() {
                    assert(t[k] == s@[k + pos]);
                    assert(t[k] != '.');
                }
            }
            assert(!spec_is_float_text(chars@));
        }
    }
    seen_dot
}

/// The decimal digits of `n`, most significant first.
pub open spec fn spec_uint_chars(n: int) -> Seq<char>
    decreases n,
    when n >= 0
{
    if n < 10 {
        seq![digit_char(n)]
    } else {
        spec_uint_chars(n / 10).push(digit_char(n % 10))
    }
}

/// The decimal text of `v`, with a leading minus sign when negative.
pub open spec fn spec_int_chars(v: int) -> Seq<char> {
    if v < 0 {
        seq!['-'] + spec_uint_chars(-v)
    } else {
        spec_uint_chars(v)
    }
}

/// Prints an `i32` as decimal text, as the standard formatter does.
pub fn int_chars(v: i32) -> (r: Vec<char>)
    ensures
        r@ == spec_int_chars(v as int),
{
    let neg = v < 0;
    let mag: u64 = if v < 0 {
        (-(v as i64)) as u64
    } else {
        v as u64
    };
    let mut digits = uint_chars(mag);
    if neg {
        digits.insert(0, '-');
        proof {
            assert(digits@ =~= seq!['-'] + spec_uint_chars(mag as int));
        }
    }
    digits
}

/// Prints a `u64` as decimal text, as the standard formatter does.
pub fn uint_chars(v: u64) -> (r: Vec<char>)
    ensures
        r@ == spec_uint_chars(v as int),
{
    let mut mag: u64 = v;
    let ghost mag0: int = mag as int;
    let mut digits: Vec<char> = Vec::new();
    loop
        invariant_except_break
            mag >= 0,
            spec_uint_chars(mag0) =~= spec_uint_chars(mag as int) + digits@,
        ensures
            digits@ == spec_uint_chars(mag0),
        decreases mag,
    {
        if mag < 10 {
            let ghost dpre = digits@;
            let c = digit_char_of(mag);
            digits.insert(0, c);
            proof {
                assert(spec_uint_chars(mag as int) == seq![digit_char(mag as int)]);
                assert(digits@ =~= seq![digit_char(mag as int)] + dpre);
                assert(digits@ =~= spec_uint_chars(mag0));
            }
            break;
        }
        let ghost dpre = digits@;
        let d = mag % 10;
        let c = digit_char_of(d);
        digits.insert(0, c);
        proof {
            assert(spec_uint_chars(mag as int) == spec_uint_chars(mag as int / 10).push(
                digit_char(mag as int % 10),
            ));
            assert(digits@ =~= seq![digit_char(mag as int % 10)] + dpre);
            assert(spec_uint_chars(mag0) =~= spec_uint_chars(mag as int / 10) + digits@);
        }
        mag = mag / 10;
    }
    digits
}

/// The digit character of `d`, for `d < 10`.
fn digit_char_of(d: u64) -> (c: char)
    requires
        d < 10,
    ensures
        c == digit_char(d as int),
{
    if d == 0 {
        '0'
    } else if d == 1 {
        '1'
    } else if d == 2 {
        '2'
    } else if d == 3 {
        '3'
    } else if d == 4 {
        '4'
    } else if d == 5 {
        '5'
    } else if d == 6 {
        '6'
    } else if d == 7 {
        '7'
    } else if d == 8 {
        '8'
    } else {
        '9'
    }
}

} // verus!
