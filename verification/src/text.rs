//! Text primitives shared by the lexer and the diagnostic reporter: the
//! byte length of a character's encoding, decimal rendering of numbers, and
//! conversions between `str`/`String` and `Vec<char>`.

use vstd::prelude::*;

verus! {

broadcast use vstd::std_specs::vec::group_vec_axioms, vstd::seq::group_seq_axioms;

/// Number of bytes of the UTF-8 encoding of `c`.
pub open spec fn byte_len(c: char) -> nat {
    if (c as u32) < 0x80 {
        1
    } else if (c as u32) < 0x800 {
        2
    } else if (c as u32) < 0x10000 {
        3
    } else {
        4
    }
}

/// Total bytes of the UTF-8 encodings of the first `n` characters of `cs`.
pub open spec fn bytes_upto(cs: Seq<char>, n: int) -> nat
    decreases n,
{
    if n <= 0 {
        0
    } else {
        bytes_upto(cs, n - 1) + byte_len(cs[n - 1])
    }
}

pub proof fn lemma_bytes_upto_mono(cs: Seq<char>, a: int, b: int)
    requires
        a <= b,
    ensures
        bytes_upto(cs, a) <= bytes_upto(cs, b),
    decreases b - a,
{
    if a < b {
        lemma_bytes_upto_mono(cs, a, b - 1);
    }
}

pub fn byte_len_of(c: char) -> (n: usize)
    ensures
        n == byte_len(c),
{
    let u = c as u32;
    if u < 0x80 {
        1
    } else if u < 0x800 {
        2
    } else if u < 0x10000 {
        3
    } else {
        4
    }
}

/// Relies on `str::chars` (std): it yields exactly the characters of the
/// string in order.  The bound holds because the summed UTF-8 lengths of the
/// characters equal the string's byte length, which is at most `isize::MAX`.
#[verifier::external_body]
pub fn str_chars(s: &str) -> (v: Vec<char>)
    ensures
        v@ == s@,
        bytes_upto(v@, v@.len() as int) <= usize::MAX / 2,
{
    s.chars().collect()
}

/// Relies on `String::from_iter` (std): collecting characters builds the
/// string of exactly those characters in order.
#[verifier::external_body]
pub fn chars_to_string(v: &Vec<char>) -> (s: String)
    ensures
        s@ == v@,
{
    v.iter().collect()
}

pub open spec fn digit_char(d: nat) -> char {
    if d == 0 {
        '0'
    } else if d == 1 {
        '1'
    } else if d == 2 {
        '2'
    } else if d == 3 {
        '3'
    } else if d == 4 {
        '4'
    } else if d == 5 {
        '5'
    } else if d == 6 {
        '6'
    } else if d == 7 {
        '7'
    } else if d == 8 {
        '8'
    } else {
        '9'
    }
}

/// The decimal numeral of `n`, most significant digit first, no leading zeros.
pub open spec fn dec_digits(n: nat) -> Seq<char>
    decreases n,
{
    if n < 10 {
        seq![digit_char(n)]
    } else {
        dec_digits(n / 10).push(digit_char(n % 10))
    }
}

/// Relies on the std `Display` implementation for `usize`: formatting writes
/// the decimal numeral of the value, most significant digit first, without
/// leading zeros.
#[verifier::external_body]
pub fn usize_to_string(n: usize) -> (s: String)
    ensures
        s@ == dec_digits(n as nat),
{
    format!("{}", n)
}

/// Extending a subrange by one index appends that character.
pub proof fn lemma_subrange_push(s: Seq<char>, a: int, b: int)
    requires
        0 <= a <= b < s.len(),
    ensures
        s.subrange(a, b + 1) == s.subrange(a, b).push(s[b]),
{
    assert(s.subrange(a, b + 1) =~= s.subrange(a, b).push(s[b]));
}

} // verus!
