//! Decimal rendering of unsigned numbers, for derived identifiers such as
//! the row ids of child-scoped views.

use vstd::prelude::*;

verus! {

pub open spec fn dec_digit(d: int) -> char {
    if d == 0 {
        '0'
    } else if d == 1 {
        '1'
    } else if d == 2 {
        '2'
    } else if d == 3 {
        '3'
    } else if d == 4 {
        '4'
    } else if d == 5 {
        '5'
    } else if d == 6 {
        '6'
    } else if d == 7 {
        '7'
    } else if d == 8 {
        '8'
    } else {
        '9'
    }
}

/// The decimal text of a non-negative number, most significant digit first.
pub open spec fn dec_of(n: int) -> Seq<char>
    recommends
        n >= 0,
    decreases n,
{
    if n < 10 {
        seq![dec_digit(n)]
    } else {
        dec_of(n / 10).push(dec_digit(n % 10))
    }
}

/// Relies on `String::push`: it appends the given character to the end of
/// the string.
#[verifier::external_body]
fn push_char(s: &mut String, c: char)
    ensures
        final (s)@ == old(s)@.push(c),
{
    s.push(c);
}

fn dec_digit_char(d: usize) -> (r: char)
    requires
        d < 10,
    ensures
        r == dec_digit(d as int),
{
    if d == 0 {
        '0'
    } else if d == 1 {
        '1'
    } else if d == 2 {
        '2'
    } else if d == 3 {
        '3'
    } else if d == 4 {
        '4'
    } else if d == 5 {
        '5'
    } else if d == 6 {
        '6'
    } else if d == 7 {
        '7'
    } else if d == 8 {
        '8'
    } else {
        '9'
    }
}

/// Render a number as decimal text.
pub fn dec_string(n: usize) -> (r: String)
    ensures
        r@ == dec_of(n as int),
{
    let mut digits: Vec<char> = Vec::new();
    let mut m = n;
    while m >= 10
        invariant
            m >= 0,
            dec_of(n as int) =~= dec_of(m as int) + digits@,
        decreases m,
    {
        let d = m % 10;
        digits.insert(0, dec_digit_char(d));
        proof {
            assert(dec_of(m as int) == dec_of(m as int / 10).push(dec_digit(m as int % 10)));
            assert(dec_of((m / 10) as int) + digits@ =~= dec_of(m as int / 10).push(
                dec_digit(m as int % 10),
            ) + digits@.skip(1));
        }
        m = m / 10;
    }
    let mut s = String::new();
    push_char(&mut s, dec_digit_char(m));
    let k = digits.len();
    let mut i: usize = 0;
    while i < k
        invariant
            k == digits@.len(),
            0 <= i <= k,
            s@ =~= seq![dec_digit(m as int)] + digits@.take(i as int),
        decreases k - i,
    {
        push_char(&mut s, digits[i]);
        proof {
            assert(seq![dec_digit(m as int)] + digits@.take(i + 1) =~= (seq![dec_digit(m as int)]
                + digits@.take(i as int)).push(digits@[i as int]));
        }
        i = i + 1;
    }
    proof {
        assert(digits@.take(k as int) =~= digits@);
        assert(dec_of(m as int) == seq![dec_digit(m as int)]);
        assert(s@ =~= dec_of(n as int));
    }
    s
}

} // verus!
