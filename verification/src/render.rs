//! Exact decimal rendering of the engine's numbers.
//!
//! Report fragments print every indicator with four decimal places. The
//! text is specified character by character, so the report body is a pure
//! function of the validators that produced it.

use crate::numeric::Ratio;
use crate::numeric::DEN_CAP;
use crate::numeric::NUM_CAP;
use vstd::prelude::*;
use vstd::string::StringExecFns;

verus! {

/// The character for one decimal digit.
pub open spec fn digit_char(d: int) -> char {
    if d == 0 {
        '0'
    } else if d == 1 {
        '1'
    } else if d == 2 {
        '2'
    } else if d == 3 {
        '3'
    } else if d == 4 {
        '4'
    } else if d == 5 {
        '5'
    } else if d == 6 {
        '6'
    } else if d == 7 {
        '7'
    } else if d == 8 {
        '8'
    } else {
        '9'
    }
}

/// The decimal digits of a nonnegative integer.
pub open spec fn spec_dec(n: int) -> Seq<char>
    decreases n,
{
    if n < 10 {
        seq![digit_char(n)]
    } else {
        spec_dec(n / 10).push(digit_char(n % 10))
    }
}

/// Four zero-padded digits for a fraction numerator below ten thousand.
pub open spec fn spec_frac4(f: int) -> Seq<char> {
    seq![
        digit_char(f / 1000),
        digit_char(f / 100 % 10),
        digit_char(f / 10 % 10),
        digit_char(f % 10),
    ]
}

/// The fraction `num / den` rounded towards zero to four decimal places:
/// an optional sign, the whole part, a point, four fraction digits.
pub open spec fn spec_dec4(num: int, den: int) -> Seq<char>
    recommends
        den > 0,
{
    let m = if num < 0 {
        -num
    } else {
        num
    };
    let sign: Seq<char> = if num < 0 {
        seq!['-']
    } else {
        Seq::empty()
    };
    sign + spec_dec(m / den) + seq!['.'] + spec_frac4(m % den * 10000 / den)
}

/// One decimal digit as text.
fn digit_str(d: u128) -> (s: &'static str)
    requires
        d < 10,
    ensures
        s@ == seq![digit_char(d as int)],
{
    let s: &'static str = if d == 0 {
        "0"
    } else if d == 1 {
        "1"
    } else if d == 2 {
        "2"
    } else if d == 3 {
        "3"
    } else if d == 4 {
        "4"
    } else if d == 5 {
        "5"
    } else if d == 6 {
        "6"
    } else if d == 7 {
        "7"
    } else if d == 8 {
        "8"
    } else {
        "9"
    };
    proof {
        reveal_strlit("0");
        reveal_strlit("1");
        reveal_strlit("2");
        reveal_strlit("3");
        reveal_strlit("4");
        reveal_strlit("5");
        reveal_strlit("6");
        reveal_strlit("7");
        reveal_strlit("8");
        reveal_strlit("9");
        assert(s@ =~= seq![digit_char(d as int)]);
    }
    s
}

/// The decimal digits of a nonnegative integer, as a `String`.
pub fn dec_u128(n: u128) -> (s: String)
    ensures
        s@ == spec_dec(n as int),
    decreases n,
{
    if n < 10 {
        let mut s = String::new();
        s.append(digit_str(n));
        proof {
            assert(s@ =~= spec_dec(n as int));
        }
        s
    } else {
        let mut s = dec_u128(n / 10);
        s.append(digit_str(n % 10));
        proof {
            assert(s@ =~= spec_dec(n as int));
        }
        s
    }
}

/// The decimal digits of a dataset length, as a `String`.
pub fn dec_usize(n: usize) -> (s: String)
    ensures
        s@ == spec_dec(n as int),
{
    dec_u128(n as u128)
}

/// Four zero-padded fraction digits, as a `String`.
fn frac4_string(f: u128) -> (s: String)
    requires
        f < 10000,
    ensures
        s@ == spec_frac4(f as int),
{
    let mut s = String::new();
    s.append(digit_str(f / 1000));
    s.append(digit_str(f / 100 % 10));
    s.append(digit_str(f / 10 % 10));
    s.append(digit_str(f % 10));
    proof {
        assert(s@ =~= spec_frac4(f as int));
    }
    s
}

/// Renders `num / den` with four decimal places.
pub fn frac_dec4(num: i128, den: i128) -> (s: String)
    requires
        0 < den,
        num != i128::MIN,
        -NUM_CAP <= num <= NUM_CAP,
        den <= DEN_CAP,
    ensures
        s@ == spec_dec4(num as int, den as int),
{
    let m: i128 = if num < 0 {
        -num
    } else {
        num
    };
    let q: i128 = m / den;
    let rem: i128 = m % den;
    assert(0 <= rem < den && 0 <= q <= m) by (nonlinear_arith)
        requires
            m >= 0,
            den > 0,
            q == m / den,
            rem == m % den,
    ;
    assert(0 <= (rem as int) * 10000 / (den as int) < 10000 && (rem as int) * 10000 <= DEN_CAP
        * 10000) by (nonlinear_arith)
        requires
            0 <= rem < den <= DEN_CAP,
    ;
    let f: i128 = rem * 10000 / den;
    let mut s = String::new();
    if num < 0 {
        s.append("-");
    }
    let whole = dec_u128(q as u128);
    s.append(whole.as_str());
    s.append(".");
    let frac = frac4_string(f as u128);
    s.append(frac.as_str());
    proof {
        reveal_strlit("-");
        reveal_strlit(".");
        assert(s@ =~= spec_dec4(num as int, den as int));
    }
    s
}

/// Renders an exact rational with four decimal places.
pub fn ratio_dec4(r: &Ratio) -> (s: String)
    ensures
        s@ == spec_dec4(r.spec_num(), r.spec_den()),
{
    frac_dec4(r.num(), r.den())
}

} // verus!
