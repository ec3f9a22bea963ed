//! Small helpers shared by the flag decoders.

use vstd::prelude::*;
use vstd::string::StringExecFns;

verus! {

/// Checks if the given unary flag is set within the given binary encoding
/// of a list of flags.
pub fn flag_is_set(flag_to_check: u16, flags: u16) -> (r: bool)
    ensures
        r == (flags & flag_to_check != 0),
{
    let check = flags & flag_to_check;
    check > 0
}

/// Append `a` to `v` exactly when `cond` holds; the contract states the
/// effect as a sequence concatenation, which keeps flag-list construction
/// linear for the verifier.
pub(crate) fn append_if<T>(v: &mut Vec<T>, cond: bool, a: T)
    ensures
        final(v)@ == old(v)@ + (if cond {
            seq![a]
        } else {
            Seq::<T>::empty()
        }),
{
    if cond {
        v.push(a);
        proof {
            assert(final(v)@ =~= old(v)@ + seq![a]);
        }
    } else {
        proof {
            assert(final(v)@ =~= old(v)@ + Seq::<T>::empty());
        }
    }
}

/// The character of one decimal digit.
pub open spec fn dec_digit(d: int) -> char {
    if d == 0 {
        '0'
    } else if d == 1 {
        '1'
    } else if d == 2 {
        '2'
    } else if d == 3 {
        '3'
    } else if d == 4 {
        '4'
    } else if d == 5 {
        '5'
    } else if d == 6 {
        '6'
    } else if d == 7 {
        '7'
    } else if d == 8 {
        '8'
    } else {
        '9'
    }
}

/// The decimal digit string of a non-negative number, most significant
/// digit first, with no leading zeroes (a single `0` for zero).
pub open spec fn dec_chars(n: int) -> Seq<char>
    recommends
        n >= 0,
    decreases n,
{
    if n < 10 {
        seq![dec_digit(n)]
    } else {
        dec_chars(n / 10) + seq![dec_digit(n % 10)]
    }
}

/// The one-character string of a decimal digit.
fn digit_str(d: u32) -> (r: &'static str)
    requires
        d < 10,
    ensures
        r@ == seq![dec_digit(d as int)],
{
    proof {
        reveal_strlit("0");
        reveal_strlit("1");
        reveal_strlit("2");
        reveal_strlit("3");
        reveal_strlit("4");
        reveal_strlit("5");
        reveal_strlit("6");
        reveal_strlit("7");
        reveal_strlit("8");
        reveal_strlit("9");
    }
    if d == 0 {
        "0"
    } else if d == 1 {
        "1"
    } else if d == 2 {
        "2"
    } else if d == 3 {
        "3"
    } else if d == 4 {
        "4"
    } else if d == 5 {
        "5"
    } else if d == 6 {
        "6"
    } else if d == 7 {
        "7"
    } else if d == 8 {
        "8"
    } else {
        "9"
    }
}

/// Append the decimal digit string of `n` to `s`.
pub fn push_dec(s: &mut String, n: u32)
    ensures
        final(s)@ == old(s)@ + dec_chars(n as int),
    decreases n,
{
    if n >= 10 {
        push_dec(s, n / 10);
        let ghost mid = s@;
        s.append(digit_str(n % 10));
        proof {
            assert(s@ =~= old(s)@ + (dec_chars((n / 10) as int) + seq![
                dec_digit((n % 10) as int),
            ]));
        }
    } else {
        s.append(digit_str(n));
    }
}

} // verus!
