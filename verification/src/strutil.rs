//! String helpers: character access, lexicographic order, and the trusted
//! case-conversion calls.

use vstd::prelude::*;

verus! {

/// Relies on `str::chars`: the characters of a string, in order, are its view.
#[verifier::external_body]
pub fn chars_of(s: &str) -> (r: Vec<char>)
    ensures
        r@ == s@,
{
    s.chars().collect()
}

/// Relies on `String::from_iter` over `char`: collecting characters builds the
/// string of exactly those characters.
#[verifier::external_body]
pub fn string_from_chars(v: &Vec<char>) -> (r: String)
    ensures
        r@ == v@,
{
    v.iter().collect()
}

/// Lexicographic order on character sequences, comparing code points from
/// position `i` on. This matches the order `BTreeMap<String, _>` iterates in,
/// because the byte order of UTF-8 agrees with code-point order.
pub open spec fn spec_str_lt_from(a: Seq<char>, b: Seq<char>, i: int) -> bool
    decreases b.len() - i,
    when 0 <= i
{
    if i >= b.len() {
        false
    } else if i >= a.len() {
        true
    } else if a[i] < b[i] {
        true
    } else if a[i] == b[i] {
        spec_str_lt_from(a, b, i + 1)
    } else {
        false
    }
}

/// Strict lexicographic order on character sequences.
pub open spec fn spec_str_lt(a: Seq<char>, b: Seq<char>) -> bool {
    spec_str_lt_from(a, b, 0)
}

/// Whether `a` orders strictly before `b`.
pub fn str_lt(a: &String, b: &String) -> (r: bool)
    ensures
        r == spec_str_lt(a@, b@),
{
    let ac = chars_of(a.as_str());
    let bc = chars_of(b.as_str());
    let mut i: usize = 0;
    loop
        invariant
            i <= ac@.len(),
            i <= bc@.len(),
            ac@ == a@,
            bc@ == b@,
            spec_str_lt(a@, b@) == spec_str_lt_from(a@, b@, i as int),
        decreases bc@.len() - i,
    {
        if i >= bc.len() {
            return false;
        }
        if i >= ac.len() {
            return true;
        }
        let x = ac[i];
        let y = bc[i];
        if x < y {
            return true;
        }
        if x != y {
            return false;
        }
        proof {
            assert(!(x < y) && x == y);
        }
        i += 1;
    }
}

/// Lexicographic order is transitive.
pub proof fn lemma_str_lt_from_trans(a: Seq<char>, b: Seq<char>, c: Seq<char>, i: int)
    requires
        0 <= i,
        spec_str_lt_from(a, b, i),
        spec_str_lt_from(b, c, i),
    ensures
        spec_str_lt_from(a, c, i),
    decreases c.len() - i,
{
    if i < a.len() && i < b.len() && i < c.len() {
        if a[i] == b[i] && b[i] == c[i] {
            lemma_str_lt_from_trans(a, b, c, i + 1);
        }
    }
}

/// Lexicographic order is transitive.
pub proof fn lemma_str_lt_trans(a: Seq<char>, b: Seq<char>, c: Seq<char>)
    requires
        spec_str_lt(a, b),
        spec_str_lt(b, c),
    ensures
        spec_str_lt(a, c),
{
    lemma_str_lt_from_trans(a, b, c, 0);
}

proof fn lemma_str_lt_from_connected(a: Seq<char>, b: Seq<char>, i: int)
    requires
        0 <= i <= a.len(),
        0 <= i <= b.len(),
        !spec_str_lt_from(a, b, i),
        !spec_str_lt_from(b, a, i),
    ensures
        a.skip(i) =~= b.skip(i),
    decreases a.len() - i,
{
    if i < a.len() && i < b.len() {
        assert(a[i] == b[i]);
        lemma_str_lt_from_connected(a, b, i + 1);
        assert forall|j: int| 0 <= j < a.skip(i).len() implies a.skip(i)[j] == b.skip(i)[j] by {
            if j > 0 {
                assert(a.skip(i + 1)[j - 1] == b.skip(i + 1)[j - 1]);
            }
        }
    }
}

/// Two character sequences neither of which orders before the other are equal.
pub proof fn lemma_str_lt_connected(a: Seq<char>, b: Seq<char>)
    requires
        !spec_str_lt(a, b),
        !spec_str_lt(b, a),
    ensures
        a == b,
{
    lemma_str_lt_from_connected(a, b, 0);
    assert(a.skip(0) =~= a);
    assert(b.skip(0) =~= b);
}

/// Of two distinct character sequences, one orders strictly before the other.
pub proof fn lemma_str_lt_connected_ne(a: Seq<char>, b: Seq<char>)
    requires
        !spec_str_lt(a, b),
        a != b,
    ensures
        spec_str_lt(b, a),
{
    if !spec_str_lt(b, a) {
        lemma_str_lt_connected(a, b);
    }
}

/// What `str::to_lowercase` returns: a function of the characters alone.
pub uninterp spec fn lower_of(s: Seq<char>) -> Seq<char>;

/// What `str::to_uppercase` returns: a function of the characters alone.
pub uninterp spec fn upper_of(s: Seq<char>) -> Seq<char>;

/// Relies on `str::to_lowercase`: Unicode lowercasing, determined by the
/// characters of the input alone.
#[verifier::external_body]
pub fn to_lowercase(s: &String) -> (r: String)
    ensures
        r@ == lower_of(s@),
{
    s.to_lowercase()
}

/// Relies on `str::to_uppercase`: Unicode uppercasing, determined by the
/// characters of the input alone.
#[verifier::external_body]
pub fn to_uppercase(s: &String) -> (r: String)
    ensures
        r@ == upper_of(s@),
{
    s.to_uppercase()
}

} // verus!
