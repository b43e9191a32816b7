//! Decimal rendering of integers as character sequences.

use vstd::prelude::*;

verus! {

/// The character for a single decimal digit.
pub open spec fn digit_char(d: nat) -> char {
    if d == 0 {
        '0'
    } else if d == 1 {
        '1'
    } else if d == 2 {
        '2'
    } else if d == 3 {
        '3'
    } else if d == 4 {
        '4'
    } else if d == 5 {
        '5'
    } else if d == 6 {
        '6'
    } else if d == 7 {
        '7'
    } else if d == 8 {
        '8'
    } else {
        '9'
    }
}

/// Decimal rendering of a non-negative integer, most significant digit
/// first, with no leading zeros (zero itself renders as "0").
pub open spec fn dec_chars(n: nat) -> Seq<char>
    decreases n,
{
    if n < 10 {
        seq![digit_char(n)]
    } else {
        dec_chars(n / 10).push(digit_char(n % 10))
    }
}

/// Decimal rendering of a signed integer: a leading '-' for negative values.
pub open spec fn int_chars(n: int) -> Seq<char> {
    if n < 0 {
        seq!['-'] + dec_chars((-n) as nat)
    } else {
        dec_chars(n as nat)
    }
}

fn digit_to_char(d: u64) -> (c: char)
    requires
        d < 10,
    ensures
        c == digit_char(d as nat),
{
    if d == 0 {
        '0'
    } else if d == 1 {
        '1'
    } else if d == 2 {
        '2'
    } else if d == 3 {
        '3'
    } else if d == 4 {
        '4'
    } else if d == 5 {
        '5'
    } else if d == 6 {
        '6'
    } else if d == 7 {
        '7'
    } else if d == 8 {
        '8'
    } else {
        '9'
    }
}

/// Renders `n` in decimal, most significant digit first.
pub fn u64_to_chars(n: u64) -> (v: Vec<char>)
    ensures
        v@ == dec_chars(n as nat),
{
    let mut rem: u64 = n;
    let mut v: Vec<char> = Vec::new();
    while rem >= 10
        invariant
            dec_chars(n as nat) == dec_chars(rem as nat) + v@,
        decreases rem,
    {
        let ghost v0 = v@;
        let d = digit_to_char(rem % 10);
        v.insert(0, d);
        proof {
            let r = rem as nat;
            assert(dec_chars(r) == dec_chars(r / 10).push(digit_char(r % 10)));
            assert(v@ =~= seq![digit_char(r % 10)] + v0);
            assert(dec_chars(r / 10) + v@ =~= dec_chars(r / 10).push(digit_char(r % 10)) + v0);
        }
        rem = rem / 10;
    }
    let ghost v1 = v@;
    let d = digit_to_char(rem);
    v.insert(0, d);
    proof {
        assert(v@ =~= seq![digit_char(rem as nat)] + v1);
        assert(dec_chars(rem as nat) =~= seq![digit_char(rem as nat)]);
        assert(dec_chars(n as nat) =~= v@);
    }
    v
}

/// Renders `n` in decimal, with a leading '-' when `n` is negative.
pub fn i32_to_chars(n: &i32) -> (v: Vec<char>)
    ensures
        v@ == int_chars(*n as int),
{
    if *n < 0 {
        let wide: i64 = *n as i64;
        let mag: u64 = (-wide) as u64;
        let mut v = u64_to_chars(mag);
        let ghost v0 = v@;
        v.insert(0, '-');
        proof {
            assert(v@ =~= seq!['-'] + v0);
            assert(mag as nat == (-(*n as int)) as nat);
        }
        v
    } else {
        let v = u64_to_chars(*n as u64);
        v
    }
}

/// Renders `n` in decimal.
pub fn usize_to_chars(n: usize) -> (v: Vec<char>)
    ensures
        v@ == dec_chars(n as nat),
{
    u64_to_chars(n as u64)
}

} // verus!
