//! Turning a sequence of Roman letters into a decimal value.
use vstd::prelude::*;
use crate::error::{GuideError, GuideErrorView, outcome_view};
use crate::roman::Roman;

verus! {

/// The signed contribution of the letter at `i`: negative when the next
/// letter is worth more, positive otherwise.
pub open spec fn term(s: Seq<Roman>, i: int) -> int {
    if i + 1 < s.len() && s[i + 1].spec_value() > s[i].spec_value() {
        -(s[i].spec_value() as int)
    } else {
        s[i].spec_value() as int
    }
}

/// The sum of the contributions of the first `n` letters of `s`.
pub open spec fn partial_total(s: Seq<Roman>, n: nat) -> int
    decreases n,
{
    if n == 0 {
        0
    } else {
        partial_total(s, (n - 1) as nat) + term(s, n - 1)
    }
}

/// The signed total of a whole letter sequence.
pub open spec fn total(s: Seq<Roman>) -> int {
    partial_total(s, s.len())
}

/// What resolving a letter sequence gives: its total, which must be positive
/// and fit in 64 bits.
pub open spec fn resolve_spec(s: Seq<Roman>) -> Result<u64, GuideErrorView> {
    if s.len() == 0 {
        Err(GuideErrorView::EmptySequence)
    } else if total(s) <= 0 {
        Err(GuideErrorView::NegativeResult)
    } else if total(s) > u64::MAX {
        Err(GuideErrorView::ValueOutOfRange)
    } else {
        Ok(total(s) as u64)
    }
}

/// Converts letters to their decimal value by the single-lookahead
/// subtractive rule.
pub fn resolve(letters: &[Roman]) -> (r: Result<u64, GuideError>)
    ensures
        outcome_view(r) == resolve_spec(letters@),
{
    let n = letters.len();
    if n == 0 {
        return Err(GuideError::EmptySequence);
    }
    let mut sum: i128 = 0;
    let mut i: usize = 0;
    while i < n
        invariant
            n == letters@.len(),
            i <= n,
            sum == partial_total(letters@, i as nat),
            -1000 * (i as int) <= sum <= 1000 * (i as int),
        decreases n - i,
    {
        let v = letters[i].value() as i128;
        if i + 1 < n && letters[i + 1].value() > letters[i].value() {
            sum = sum - v;
        } else {
            sum = sum + v;
        }
        i = i + 1;
    }
    if sum <= 0 {
        Err(GuideError::NegativeResult)
    } else if sum > u64::MAX as i128 {
        Err(GuideError::ValueOutOfRange)
    } else {
        Ok(sum as u64)
    }
}

} // verus!
