//! The seven Roman letters and their values.
use vstd::prelude::*;
use vstd::string::*;
use crate::error::GuideError;

verus! {

/// One of the seven Roman-numeral letters.
#[derive(Clone, Copy, Debug, PartialEq, Eq, Structural)]
pub enum Roman {
    I,
    V,
    X,
    L,
    C,
    D,
    M,
}

impl Roman {
    /// The fixed value of a letter.
    pub open spec fn spec_value(self) -> nat {
        match self {
            Roman::I => 1,
            Roman::V => 5,
            Roman::X => 10,
            Roman::L => 50,
            Roman::C => 100,
            Roman::D => 500,
            Roman::M => 1000,
        }
    }

    /// The value of this letter: I=1, V=5, X=10, L=50, C=100, D=500, M=1000.
    pub fn value(self) -> (r: u16)
        ensures
            r == self.spec_value(),
    {
        match self {
            Roman::I => 1,
            Roman::V => 5,
            Roman::X => 10,
            Roman::L => 50,
            Roman::C => 100,
            Roman::D => 500,
            Roman::M => 1000,
        }
    }

    /// Reads a token that must be exactly one uppercase Roman letter.
    pub fn from_token(token: &str) -> (r: Result<Roman, GuideError>)
        ensures
            match roman_of(token@) {
                Some(l) => r == Ok::<Roman, GuideError>(l),
                None => r matches Err(e) && e@ == crate::error::GuideErrorView::InvalidNumeral(token@),
            },
    {
        if token.unicode_len() == 1 {
            let c = token.get_char(0);
            assert(token@ =~= seq![c]);
            match c {
                'I' => { return Ok(Roman::I); },
                'V' => { return Ok(Roman::V); },
                'X' => { return Ok(Roman::X); },
                'L' => { return Ok(Roman::L); },
                'C' => { return Ok(Roman::C); },
                'D' => { return Ok(Roman::D); },
                'M' => { return Ok(Roman::M); },
                _ => {},
            }
        }
        Err(GuideError::InvalidNumeral { token: String::from_str(token) })
    }
}

/// The letter that a one-character token names, if any.
pub open spec fn letter_of(c: char) -> Option<Roman> {
    match c {
        'I' => Some(Roman::I),
        'V' => Some(Roman::V),
        'X' => Some(Roman::X),
        'L' => Some(Roman::L),
        'C' => Some(Roman::C),
        'D' => Some(Roman::D),
        'M' => Some(Roman::M),
        _ => None,
    }
}

/// The letter a token stands for: a token of one letter character, and no other.
pub open spec fn roman_of(token: Seq<char>) -> Option<Roman> {
    if token.len() == 1 {
        letter_of(token[0])
    } else {
        None
    }
}

impl core::str::FromStr for Roman {
    type Err = String;

    /// Reads one Roman letter; any other token is refused with the message
    /// `invalid input <token>`.
    fn from_str(ch: &str) -> (r: Result<Roman, String>)
        ensures
            match roman_of(ch@) {
                Some(l) => r == Ok::<Roman, String>(l),
                None => r matches Err(m) && m@ == "invalid input "@ + ch@,
            },
    {
        match Roman::from_token(ch) {
            Ok(r) => Ok(r),
            Err(e) => Err(e.message()),
        }
    }
}

impl From<Roman> for u16 {
    fn from(r: Roman) -> u16 {
        r.value()
    }
}

impl vstd::std_specs::convert::FromSpecImpl<Roman> for u16 {
    open spec fn obeys_from_spec() -> bool {
        true
    }

    open spec fn from_spec(r: Roman) -> u16 {
        r.spec_value() as u16
    }
}

} // verus!
