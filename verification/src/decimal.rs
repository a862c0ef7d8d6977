//! Decimal text of a 32-bit register value reinterpreted as a signed
//! integer: the specification of the digit string and a verified conversion
//! used by the machine's number-output instruction.

use vstd::prelude::*;

verus! {

/// The character for one decimal digit.
pub open spec fn digit_char(d: int) -> char {
    if d == 0 {
        '0'
    } else if d == 1 {
        '1'
    } else if d == 2 {
        '2'
    } else if d == 3 {
        '3'
    } else if d == 4 {
        '4'
    } else if d == 5 {
        '5'
    } else if d == 6 {
        '6'
    } else if d == 7 {
        '7'
    } else if d == 8 {
        '8'
    } else {
        '9'
    }
}

/// The decimal digits of `n`, most significant first, without a sign and
/// without leading zeros (`0` is written as one digit).
pub open spec fn dec_digits(n: nat) -> Seq<char>
    decreases n,
{
    if n < 10 {
        seq![digit_char(n as int)]
    } else {
        dec_digits(n / 10).push(digit_char((n % 10) as int))
    }
}

/// The decimal text of `v` reinterpreted as a signed 32-bit integer: values
/// of `0x8000_0000` and above are negative, written as a minus sign followed
/// by the digits of their magnitude `0x1_0000_0000 - v`.
pub open spec fn i32_dec_chars(v: u32) -> Seq<char> {
    if v < 0x8000_0000 {
        dec_digits(v as nat)
    } else {
        seq!['-'] + dec_digits((0x1_0000_0000 - v) as nat)
    }
}

/// The character for one decimal digit, executably.
fn digit(d: u32) -> (c: char)
    requires
        d < 10,
    ensures
        c == digit_char(d as int),
{
    if d == 0 {
        '0'
    } else if d == 1 {
        '1'
    } else if d == 2 {
        '2'
    } else if d == 3 {
        '3'
    } else if d == 4 {
        '4'
    } else if d == 5 {
        '5'
    } else if d == 6 {
        '6'
    } else if d == 7 {
        '7'
    } else if d == 8 {
        '8'
    } else {
        '9'
    }
}

/// The decimal text of `v` reinterpreted as a signed 32-bit integer.
pub fn i32_chars(v: u32) -> (r: Vec<char>)
    ensures
        r@ == i32_dec_chars(v),
{
    let mut r: Vec<char> = Vec::new();
    let mag: u32;
    if v >= 0x8000_0000 {
        r.push('-');
        mag = ((0x1_0000_0000u64 - v as u64) as u32);
    } else {
        mag = v;
    }
    let ghost head: Seq<char> = r@;
    assert(head + dec_digits(mag as nat) =~= i32_dec_chars(v));

    // Collect the digits of `mag`, least significant first.
    let mut tmp: Vec<char> = Vec::new();
    let mut x: u32 = mag;
    loop
        invariant_except_break
            dec_digits(mag as nat) =~= dec_digits(x as nat) + tmp@.reverse(),
        ensures
            dec_digits(mag as nat) =~= tmp@.reverse(),
        decreases x,
    {
        let d: u32 = x % 10;
        let ghost old_tmp = tmp@;
        let ghost old_x = x;
        tmp.push(digit(d));
        assert(tmp@.reverse() =~= seq![digit_char(d as int)] + old_tmp.reverse());
        x = x / 10;
        if x == 0 {
            assert(old_x < 10);
            assert(dec_digits(old_x as nat) =~= seq![digit_char(d as int)]);
            assert(dec_digits(mag as nat) =~= tmp@.reverse());
            break;
        }
        assert(old_x >= 10);
        assert(dec_digits(old_x as nat) =~= dec_digits(x as nat).push(digit_char(d as int)));
        assert(dec_digits(x as nat) + tmp@.reverse() =~= dec_digits(old_x as nat) + old_tmp.reverse());
    }

    // Emit them most significant first.
    let mut j: usize = tmp.len();
    while j > 0
        invariant
            j <= tmp@.len(),
            dec_digits(mag as nat) =~= tmp@.reverse(),
            r@ == head + tmp@.reverse().take(tmp@.len() - j),
        decreases j,
    {
        let ghost old_r = r@;
        r.push(tmp[j - 1]);
        assert(tmp@.reverse()[tmp@.len() - j] == tmp@[j - 1]);
        assert(r@ =~= head + tmp@.reverse().take(tmp@.len() - (j - 1)));
        j = j - 1;
    }
    assert(tmp@.reverse().take(tmp@.len() as int) =~= tmp@.reverse());
    assert(r@ =~= head + dec_digits(mag as nat));
    r
}

} // verus!
