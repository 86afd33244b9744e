//! Credit amounts: non-negative decimal numbers, held exactly.
use vstd::prelude::*;
use vstd::string::*;
use crate::error::{GuideError, GuideErrorView};
use crate::text::MAX_FRACTION_DIGITS;

verus! {

/// The number `units / 10^scale`, as written with `scale` digits after the
/// decimal point.
#[derive(Clone, Copy, Debug, PartialEq, Eq, Structural)]
pub struct Amount {
    pub units: u64,
    pub scale: u32,
}

/// What a left-to-right reading of a number token has seen.
pub struct NumberScan {
    /// The digits read so far, as one integer, the point ignored.
    pub value: nat,
    /// How many digits were read.
    pub digits: nat,
    /// How many decimal points were read.
    pub dots: nat,
    /// How many digits came after the first decimal point.
    pub fraction: nat,
    /// Whether a character that is neither a digit nor a point was read.
    pub stray: bool,
}

/// Whether `c` is one of the ASCII digits `0` to `9`.
pub open spec fn is_digit(c: char) -> bool {
    48 <= c as u32 <= 57
}

/// The value of an ASCII digit.
pub open spec fn digit_value(c: char) -> nat {
    (c as u32 - 48) as nat
}

/// Reads the characters of `t` in order.
pub open spec fn scan_number(t: Seq<char>) -> NumberScan
    decreases t.len(),
{
    if t.len() == 0 {
        NumberScan { value: 0, digits: 0, dots: 0, fraction: 0, stray: false }
    } else {
        let s = scan_number(t.drop_last());
        let c = t.last();
        if is_digit(c) {
            NumberScan {
                value: 10 * s.value + digit_value(c),
                digits: s.digits + 1,
                dots: s.dots,
                fraction: if s.dots > 0 {
                    s.fraction + 1
                } else {
                    s.fraction
                },
                stray: s.stray,
            }
        } else if c == '.' {
            NumberScan {
                value: s.value,
                digits: s.digits,
                dots: s.dots + 1,
                fraction: s.fraction,
                stray: s.stray,
            }
        } else {
            NumberScan {
                value: s.value,
                digits: s.digits,
                dots: s.dots,
                fraction: s.fraction,
                stray: true,
            }
        }
    }
}

/// The amount a token writes: digits with at most one decimal point, at least
/// one digit, all digits together at most `u64::MAX`, and at most
/// `MAX_FRACTION_DIGITS` digits after the point.
pub open spec fn amount_of(t: Seq<char>) -> Option<Amount> {
    let s = scan_number(t);
    if s.stray || s.dots > 1 || s.digits == 0 || s.value > u64::MAX || s.fraction
        > MAX_FRACTION_DIGITS {
        None
    } else {
        Some(Amount { units: s.value as u64, scale: s.fraction as u32 })
    }
}

/// Reads a credit amount such as `34`, `0.5` or `12.25`.
pub fn parse_amount(token: &str) -> (r: Result<Amount, GuideError>)
    ensures
        match amount_of(token@) {
            Some(a) => r == Ok::<Amount, GuideError>(a),
            None => r matches Err(e) && e@ == GuideErrorView::InvalidNumber(token@),
        },
{
    let n = token.unicode_len();
    let ghost t = token@;
    let mut acc: u64 = 0;
    let mut big = false;
    let mut digits: usize = 0;
    let mut dots: usize = 0;
    let mut fraction: usize = 0;
    let mut stray = false;
    let mut i: usize = 0;
    while i < n
        invariant
            n == t.len(),
            t == token@,
            i <= n,
            ({
                let s = scan_number(t.take(i as int));
                &&& !big ==> acc == s.value
                &&& big ==> s.value > u64::MAX
                &&& digits == s.digits
                &&& dots == s.dots
                &&& fraction == s.fraction
                &&& stray == s.stray
                &&& digits <= i
                &&& dots <= i
                &&& fraction <= i
            }),
        decreases n - i,
    {
        let c = token.get_char(i);
        assert(t.take(i + 1).drop_last() =~= t.take(i as int));
        assert(t.take(i + 1).last() == c);
        let u = c as u32;
        if 48 <= u && u <= 57 {
            if !big {
                let next = acc as u128 * 10 + (u - 48) as u128;
                if next > u64::MAX as u128 {
                    big = true;
                } else {
                    acc = next as u64;
                }
            }
            digits = digits + 1;
            if dots > 0 {
                fraction = fraction + 1;
            }
        } else if c == '.' {
            dots = dots + 1;
        } else {
            stray = true;
        }
        i = i + 1;
    }
    assert(t.take(n as int) =~= t);
    if stray || dots > 1 || digits == 0 || big || fraction > MAX_FRACTION_DIGITS as usize {
        Err(GuideError::InvalidNumber { token: String::from_str(token) })
    } else {
        Ok(Amount { units: acc, scale: fraction as u32 })
    }
}

} // verus!
