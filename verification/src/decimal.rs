//! Decimal rendering of whole numbers and fixed-point values.
//!
//! The report writes every number in its natural decimal form: a whole
//! number as its plain digits, and a fixed-point value as its integer part
//! followed, when the fractional part is not zero, by a point and the
//! fractional digits with trailing zeros trimmed.

use vstd::prelude::*;
use vstd::string::StringExecFns;

use crate::engine::SCALE;

verus! {

/// The decimal digit character for `d` (0 through 9).
pub open spec fn digit_char(d: int) -> char {
    if d == 0 {
        '0'
    } else if d == 1 {
        '1'
    } else if d == 2 {
        '2'
    } else if d == 3 {
        '3'
    } else if d == 4 {
        '4'
    } else if d == 5 {
        '5'
    } else if d == 6 {
        '6'
    } else if d == 7 {
        '7'
    } else if d == 8 {
        '8'
    } else {
        '9'
    }
}

/// The usual decimal digits of `n`, most significant first, with no
/// leading zeros (a single `'0'` for zero itself).
pub open spec fn dec_rep(n: nat) -> Seq<char>
    decreases n,
{
    if n < 10 {
        seq![digit_char(n as int)]
    } else {
        dec_rep(n / 10) + seq![digit_char((n % 10) as int)]
    }
}

/// Exactly `width` decimal digits of `n`, zero-padded on the left.
pub open spec fn padded_rep(n: nat, width: nat) -> Seq<char>
    decreases width,
{
    if width == 0 {
        seq![]
    } else {
        padded_rep(n / 10, (width - 1) as nat) + seq![digit_char((n % 10) as int)]
    }
}

/// `s` with every trailing `'0'` character removed.
pub open spec fn trim_trailing_zeros(s: Seq<char>) -> Seq<char>
    decreases s.len(),
{
    if s.len() > 0 && s.last() == '0' {
        trim_trailing_zeros(s.drop_last())
    } else {
        s
    }
}

/// The natural decimal string of the fixed-point value `v` (scaled by
/// `SCALE`): the integer part alone when the fractional part is zero, and
/// otherwise the integer part, a point, and the fractional digits with
/// trailing zeros trimmed.
pub open spec fn fixed_rep(v: nat) -> Seq<char> {
    let whole = v / SCALE as nat;
    let frac = v % SCALE as nat;
    if frac == 0 {
        dec_rep(whole)
    } else {
        dec_rep(whole) + seq!['.'] + trim_trailing_zeros(padded_rep(frac, 9))
    }
}

/// Powers of ten.
pub open spec fn pow10(w: nat) -> nat
    decreases w,
{
    if w == 0 {
        1
    } else {
        10 * pow10((w - 1) as nat)
    }
}

/// The single-character string for the decimal digit `d`.
fn digit_str(d: u64) -> (s: &'static str)
    requires
        d < 10,
    ensures
        s@ == seq![digit_char(d as int)],
{
    proof {
        reveal_strlit("0");
        reveal_strlit("1");
        reveal_strlit("2");
        reveal_strlit("3");
        reveal_strlit("4");
        reveal_strlit("5");
        reveal_strlit("6");
        reveal_strlit("7");
        reveal_strlit("8");
        reveal_strlit("9");
    }
    let s = if d == 0 {
        "0"
    } else if d == 1 {
        "1"
    } else if d == 2 {
        "2"
    } else if d == 3 {
        "3"
    } else if d == 4 {
        "4"
    } else if d == 5 {
        "5"
    } else if d == 6 {
        "6"
    } else if d == 7 {
        "7"
    } else if d == 8 {
        "8"
    } else {
        "9"
    };
    proof {
        assert(s@ =~= seq![digit_char(d as int)]);
    }
    s
}

/// The decimal digits of `n`, as a string.
pub fn u64_to_string(n: u64) -> (s: String)
    ensures
        s@ == dec_rep(n as nat),
    decreases n,
{
    if n < 10 {
        let mut s = String::new();
        s.append(digit_str(n));
        proof {
            assert(s@ =~= dec_rep(n as nat));
        }
        s
    } else {
        let mut s = u64_to_string(n / 10);
        s.append(digit_str(n % 10));
        s
    }
}

/// Exactly `width` decimal digits of `n`, zero-padded, as a string.
fn padded_to_string(n: u64, width: usize) -> (s: String)
    ensures
        s@ == padded_rep(n as nat, width as nat),
    decreases width,
{
    if width == 0 {
        let s = String::new();
        proof {
            assert(s@ =~= padded_rep(n as nat, 0));
        }
        s
    } else {
        let mut s = padded_to_string(n / 10, width - 1);
        s.append(digit_str(n % 10));
        s
    }
}

/// The natural decimal string of the fixed-point value `v`.
pub fn fixed_to_string(v: u64) -> (s: String)
    ensures
        s@ == fixed_rep(v as nat),
{
    let whole: u64 = v / SCALE;
    let frac0: u64 = v % SCALE;
    let mut s = u64_to_string(whole);
    if frac0 > 0 {
        let mut frac: u64 = frac0;
        let mut width: usize = 9;
        proof {
            reveal_with_fuel(pow10, 10);
            assert(pow10(9) == 1000000000);
        }
        while frac % 10 == 0
            invariant
                1 <= frac,
                1 <= width <= 9,
                frac < pow10(width as nat),
                trim_trailing_zeros(padded_rep(frac0 as nat, 9)) == trim_trailing_zeros(
                    padded_rep(frac as nat, width as nat),
                ),
            decreases width,
        {
            proof {
                let w = width as nat;
                let f = frac as nat;
                assert(padded_rep(f, w) == padded_rep(f / 10, (w - 1) as nat) + seq![
                    digit_char((f % 10) as int),
                ]);
                assert(padded_rep(f, w).last() == '0');
                assert(padded_rep(f, w).drop_last() =~= padded_rep(f / 10, (w - 1) as nat));
                assert(f / 10 < pow10((w - 1) as nat) && f / 10 >= 1) by (nonlinear_arith)
                    requires
                        f % 10 == 0,
                        1 <= f,
                        f < pow10(w),
                        w >= 1,
                        pow10(w) == 10 * pow10((w - 1) as nat),
                ;
            }
            frac = frac / 10;
            width = width - 1;
        }
        proof {
            let w = width as nat;
            let f = frac as nat;
            assert(padded_rep(f, w) == padded_rep(f / 10, (w - 1) as nat) + seq![
                digit_char((f % 10) as int),
            ]);
            assert(padded_rep(f, w).last() == digit_char((f % 10) as int));
            assert(digit_char((f % 10) as int) != '0');
            assert(trim_trailing_zeros(padded_rep(f, w)) == padded_rep(f, w));
            reveal_strlit(".");
        }
        s.append(".");
        let tail = padded_to_string(frac, width);
        s.append(tail.as_str());
        proof {
            assert(s@ =~= fixed_rep(v as nat));
        }
    }
    s
}

} // verus!
