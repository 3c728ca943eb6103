//! Verified decimal rendering of integers, the base of the textual forms that
//! matrices, counter stores and errors expose.
use vstd::prelude::*;

verus! {

/// The decimal digit character for `d`.
pub open spec fn digit_char(d: int) -> char {
    if d == 0 {
        '0'
    } else if d == 1 {
        '1'
    } else if d == 2 {
        '2'
    } else if d == 3 {
        '3'
    } else if d == 4 {
        '4'
    } else if d == 5 {
        '5'
    } else if d == 6 {
        '6'
    } else if d == 7 {
        '7'
    } else if d == 8 {
        '8'
    } else {
        '9'
    }
}

/// The decimal digits of `n`, most significant first, with no sign and no
/// leading zeros (a single `'0'` for zero).
pub open spec fn dec_digits(n: nat) -> Seq<char>
    decreases n,
{
    if n < 10 {
        seq![digit_char(n as int)]
    } else {
        dec_digits(n / 10).push(digit_char((n % 10) as int))
    }
}

/// The decimal rendering of `n`: a leading `'-'` for negative values,
/// followed by the digits of the magnitude.
pub open spec fn int_str(n: int) -> Seq<char> {
    if n < 0 {
        seq!['-'] + dec_digits((-n) as nat)
    } else {
        dec_digits(n as nat)
    }
}

/// Appends the digit character for `d` to `s`.
fn append_digit(s: &mut String, d: u64)
    requires
        d < 10,
    ensures
        final(s)@ == old(s)@.push(digit_char(d as int)),
{
    let c: &str = if d == 0 {
        "0"
    } else if d == 1 {
        "1"
    } else if d == 2 {
        "2"
    } else if d == 3 {
        "3"
    } else if d == 4 {
        "4"
    } else if d == 5 {
        "5"
    } else if d == 6 {
        "6"
    } else if d == 7 {
        "7"
    } else if d == 8 {
        "8"
    } else {
        "9"
    };
    proof {
        reveal_strlit("0");
        reveal_strlit("1");
        reveal_strlit("2");
        reveal_strlit("3");
        reveal_strlit("4");
        reveal_strlit("5");
        reveal_strlit("6");
        reveal_strlit("7");
        reveal_strlit("8");
        reveal_strlit("9");
    }
    assert(c@ =~= seq![digit_char(d as int)]);
    s.append(c);
    assert(s@ =~= old(s)@.push(digit_char(d as int)));
}

/// Appends the decimal digits of `n` to `s`.
pub fn append_u64(s: &mut String, n: u64)
    ensures
        final(s)@ == old(s)@ + dec_digits(n as nat),
    decreases n,
{
    if n < 10 {
        append_digit(s, n);
        assert(s@ =~= old(s)@ + dec_digits(n as nat));
    } else {
        append_u64(s, n / 10);
        append_digit(s, n % 10);
        assert((n / 10) as nat == n as nat / 10);
        assert((n % 10) as nat == n as nat % 10);
        assert(s@ =~= old(s)@ + dec_digits(n as nat));
    }
}

/// Appends the decimal rendering of `n` to `s`, sign included.
pub fn append_i64(s: &mut String, n: i64)
    ensures
        final(s)@ == old(s)@ + int_str(n as int),
{
    if n < 0 {
        proof {
            reveal_strlit("-");
        }
        s.append("-");
        assert(s@ =~= old(s)@ + seq!['-']);
        let m: u64 = (-(n as i128)) as u64;
        assert(m as nat == (-(n as int)) as nat);
        append_u64(s, m);
        assert(s@ =~= old(s)@ + int_str(n as int));
    } else {
        append_u64(s, n as u64);
    }
}

} // verus!
