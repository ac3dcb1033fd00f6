//! Decimal rendering of unsigned integers.

use vstd::prelude::*;
use vstd::string::*;

verus! {

/// The decimal digit for `d < 10`.
pub open spec fn digit_char(d: int) -> char {
    ('0' as int + d) as char
}

/// The decimal digits of `n`, at least `width` of them, zero-padded on the left.
pub open spec fn padded_digits(n: nat, width: nat) -> Seq<char>
    decreases width, n,
{
    if n < 10 && width <= 1 {
        seq![digit_char(n as int)]
    } else {
        padded_digits(n / 10, if width > 0 {
            (width - 1) as nat
        } else {
            0
        }).push(digit_char((n % 10) as int))
    }
}

/// The decimal digits of `n`, without leading zeros.
pub open spec fn decimal_digits(n: nat) -> Seq<char> {
    padded_digits(n, 1)
}

/// The decimal digits of `n`, zero-padded on the left to at least `width`.
pub fn zero_padded(n: u64, width: usize) -> (r: String)
    ensures
        r@ == padded_digits(n as nat, width as nat),
    decreases width, n,
{
    if n < 10 && width <= 1 {
        let mut s = String::new();
        s.append(digit_str(n as u8));
        s
    } else {
        let mut s = zero_padded(n / 10, if width > 0 {
            width - 1
        } else {
            0
        });
        s.append(digit_str((n % 10) as u8));
        s
    }
}

/// The decimal digits of `n`.
pub fn decimal(n: u64) -> (r: String)
    ensures
        r@ == decimal_digits(n as nat),
{
    zero_padded(n, 1)
}

fn digit_str(d: u8) -> (c: &'static str)
    requires
        d < 10,
    ensures
        c@ == seq![digit_char(d as int)],
{
    proof {
        reveal_strlit("0");
        reveal_strlit("1");
        reveal_strlit("2");
        reveal_strlit("3");
        reveal_strlit("4");
        reveal_strlit("5");
        reveal_strlit("6");
        reveal_strlit("7");
        reveal_strlit("8");
        reveal_strlit("9");
    }
    if d == 0 {
        "0"
    } else if d == 1 {
        "1"
    } else if d == 2 {
        "2"
    } else if d == 3 {
        "3"
    } else if d == 4 {
        "4"
    } else if d == 5 {
        "5"
    } else if d == 6 {
        "6"
    } else if d == 7 {
        "7"
    } else if d == 8 {
        "8"
    } else {
        proof {
            assert("9"@ =~= seq![digit_char(d as int)]);
        }
        "9"
    }
}

} // verus!
