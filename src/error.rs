//! The errors of the interpreter. Each one is fatal to a run.
use vstd::prelude::*;
use vstd::string::*;

verus! {

/// What can go wrong while reading or answering a line.
#[derive(Debug)]
pub enum GuideError {
    /// A token that must be one Roman letter is not one of `I V X L C D M`.
    InvalidNumeral { token: String },
    /// The credit amount of a price definition is not a non-negative decimal
    /// number that the interpreter can hold.
    InvalidNumber { token: String },
    /// The line has none of the statement shapes.
    UnparseableLine { line: String },
    /// A symbol was used before any definition bound it to a letter.
    UnboundSymbol { symbol: String },
    /// A price was asked for a product that has none.
    UnknownProduct { product: String },
    /// A numeral without letters.
    EmptySequence,
    /// A numeral whose signed total is zero or below.
    NegativeResult,
    /// A numeral whose total does not fit in 64 bits.
    ValueOutOfRange,
}

/// The mathematical value of a [`GuideError`]: texts as character sequences.
pub enum GuideErrorView {
    InvalidNumeral(Seq<char>),
    InvalidNumber(Seq<char>),
    UnparseableLine(Seq<char>),
    UnboundSymbol(Seq<char>),
    UnknownProduct(Seq<char>),
    EmptySequence,
    NegativeResult,
    ValueOutOfRange,
}

impl View for GuideError {
    type V = GuideErrorView;

    open spec fn view(&self) -> GuideErrorView {
        match self {
            GuideError::InvalidNumeral { token } => GuideErrorView::InvalidNumeral(token@),
            GuideError::InvalidNumber { token } => GuideErrorView::InvalidNumber(token@),
            GuideError::UnparseableLine { line } => GuideErrorView::UnparseableLine(line@),
            GuideError::UnboundSymbol { symbol } => GuideErrorView::UnboundSymbol(symbol@),
            GuideError::UnknownProduct { product } => GuideErrorView::UnknownProduct(product@),
            GuideError::EmptySequence => GuideErrorView::EmptySequence,
            GuideError::NegativeResult => GuideErrorView::NegativeResult,
            GuideError::ValueOutOfRange => GuideErrorView::ValueOutOfRange,
        }
    }
}

/// The view of an outcome: the value's view, or the error's.
pub open spec fn outcome_view<T: View>(r: Result<T, GuideError>) -> Result<T::V, GuideErrorView> {
    match r {
        Ok(v) => Ok(v@),
        Err(e) => Err(e@),
    }
}

/// The human-readable text of an error.
pub open spec fn message_text(e: GuideErrorView) -> Seq<char> {
    match e {
        GuideErrorView::InvalidNumeral(t) => "invalid input "@ + t,
        GuideErrorView::InvalidNumber(t) => "invalid number "@ + t,
        GuideErrorView::UnparseableLine(l) => "unparseable line: "@ + l,
        GuideErrorView::UnboundSymbol(s) => "unbound symbol "@ + s,
        GuideErrorView::UnknownProduct(p) => "unknown product "@ + p,
        GuideErrorView::EmptySequence => "empty numeral"@,
        GuideErrorView::NegativeResult => "numeral is not positive"@,
        GuideErrorView::ValueOutOfRange => "numeral is too large"@,
    }
}

fn prefixed(prefix: &str, detail: &String) -> (r: String)
    ensures
        r@ == prefix@ + detail@,
{
    let mut m = String::from_str(prefix);
    m.append(detail.as_str());
    m
}

impl GuideError {
    /// The message that describes this error to a user.
    pub fn message(&self) -> (r: String)
        ensures
            r@ == message_text(self@),
    {
        match self {
            GuideError::InvalidNumeral { token } => prefixed("invalid input ", token),
            GuideError::InvalidNumber { token } => prefixed("invalid number ", token),
            GuideError::UnparseableLine { line } => prefixed("unparseable line: ", line),
            GuideError::UnboundSymbol { symbol } => prefixed("unbound symbol ", symbol),
            GuideError::UnknownProduct { product } => prefixed("unknown product ", product),
            GuideError::EmptySequence => String::from_str("empty numeral"),
            GuideError::NegativeResult => String::from_str("numeral is not positive"),
            GuideError::ValueOutOfRange => String::from_str("numeral is too large"),
        }
    }
}

} // verus!
