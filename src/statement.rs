//! The five shapes of a line, and how a line is classified.
use vstd::prelude::*;
use vstd::string::*;
use crate::amount::{Amount, amount_of, parse_amount};
use crate::error::{GuideError, GuideErrorView, outcome_view};
use crate::roman::{Roman, roman_of};
use crate::text::{split_words, words};

verus! {

/// One classified line.
#[derive(Debug)]
pub enum Statement {
    /// `<symbol> is <letter>`
    SymbolDefinition { symbol: String, letter: Roman },
    /// `<symbol>+ <product> is <amount> Credits`
    PriceDefinition { symbols: Vec<String>, product: String, credits: Amount },
    /// `how much is <symbol>+ ?`
    ValueQuery { symbols: Vec<String> },
    /// `how many Credits is <symbol>+ <product> ?`
    PriceQuery { symbols: Vec<String>, product: String },
    /// Any other `how much ... ?`
    UnrecognizedQuery,
}

/// The mathematical value of a [`Statement`].
pub enum StatementView {
    SymbolDefinition { symbol: Seq<char>, letter: Roman },
    PriceDefinition { symbols: Seq<Seq<char>>, product: Seq<char>, credits: Amount },
    ValueQuery { symbols: Seq<Seq<char>> },
    PriceQuery { symbols: Seq<Seq<char>>, product: Seq<char> },
    UnrecognizedQuery,
}

impl View for Statement {
    type V = StatementView;

    open spec fn view(&self) -> StatementView {
        match self {
            Statement::SymbolDefinition { symbol, letter } => StatementView::SymbolDefinition {
                symbol: symbol@,
                letter: *letter,
            },
            Statement::PriceDefinition { symbols, product, credits } =>
                StatementView::PriceDefinition {
                symbols: symbols.deep_view(),
                product: product@,
                credits: *credits,
            },
            Statement::ValueQuery { symbols } => StatementView::ValueQuery {
                symbols: symbols.deep_view(),
            },
            Statement::PriceQuery { symbols, product } => StatementView::PriceQuery {
                symbols: symbols.deep_view(),
                product: product@,
            },
            Statement::UnrecognizedQuery => StatementView::UnrecognizedQuery,
        }
    }
}

/// What a line says, by the first shape that its words `w` take:
/// a symbol definition, a price definition, a value query, a price query, or
/// another `how much` question; any other line is refused.
pub open spec fn statement_of(line: Seq<char>) -> Result<StatementView, GuideErrorView> {
    let w = words(line);
    let n = w.len();
    if n == 3 && w[1] == "is"@ {
        match roman_of(w[2]) {
            Some(l) => Ok(StatementView::SymbolDefinition { symbol: w[0], letter: l }),
            None => Err(GuideErrorView::InvalidNumeral(w[2])),
        }
    } else if n >= 5 && w[n - 1] == "Credits"@ && w[n - 3] == "is"@ {
        match amount_of(w[n - 2]) {
            Some(a) => Ok(
                StatementView::PriceDefinition {
                    symbols: w.take(n - 4),
                    product: w[n - 4],
                    credits: a,
                },
            ),
            None => Err(GuideErrorView::InvalidNumber(w[n - 2])),
        }
    } else if n >= 5 && w[0] == "how"@ && w[1] == "much"@ && w[2] == "is"@ && w[n - 1] == "?"@ {
        Ok(StatementView::ValueQuery { symbols: w.subrange(3, n - 1) })
    } else if n >= 7 && w[0] == "how"@ && w[1] == "many"@ && w[2] == "Credits"@ && w[3] == "is"@
        && w[n - 1] == "?"@ {
        Ok(StatementView::PriceQuery { symbols: w.subrange(4, n - 2), product: w[n - 2] })
    } else if n >= 3 && w[0] == "how"@ && w[1] == "much"@ && w[n - 1] == "?"@ {
        Ok(StatementView::UnrecognizedQuery)
    } else {
        Err(GuideErrorView::UnparseableLine(line))
    }
}

fn is_word(w: &String, k: &str) -> (r: bool)
    ensures
        r == (w@ == k@),
{
    *w == String::from_str(k)
}

fn copy_words(ws: &Vec<String>, from: usize, to: usize) -> (r: Vec<String>)
    requires
        from <= to <= ws@.len(),
    ensures
        r.deep_view() == ws.deep_view().subrange(from as int, to as int),
{
    let mut out: Vec<String> = Vec::new();
    let mut i: usize = from;
    while i < to
        invariant
            from <= i <= to <= ws@.len(),
            out.deep_view() == ws.deep_view().subrange(from as int, i as int),
        decreases to - i,
    {
        let ghost before = out.deep_view();
        out.push(ws[i].clone());
        assert(out.deep_view() =~= before.push(ws[i as int]@));
        assert(ws.deep_view().subrange(from as int, i + 1) =~= ws.deep_view().subrange(
            from as int,
            i as int,
        ).push(ws[i as int]@));
        i = i + 1;
    }
    out
}

/// Classifies one line.
pub fn classify(line: &str) -> (r: Result<Statement, GuideError>)
    ensures
        outcome_view(r) == statement_of(line@),
{
    let w = split_words(line);
    let ghost v = w.deep_view();
    let n = w.len();
    assert(forall|i: int| 0 <= i < n ==> v[i] == w@[i]@);
    if n == 3 && is_word(&w[1], "is") {
        return match Roman::from_token(w[2].as_str()) {
            Ok(l) => Ok(Statement::SymbolDefinition { symbol: w[0].clone(), letter: l }),
            Err(e) => Err(e),
        };
    }
    if n >= 5 && is_word(&w[n - 1], "Credits") && is_word(&w[n - 3], "is") {
        return match parse_amount(w[n - 2].as_str()) {
            Ok(a) => Ok(
                Statement::PriceDefinition {
                    symbols: copy_words(&w, 0, n - 4),
                    product: w[n - 4].clone(),
                    credits: a,
                },
            ),
            Err(e) => Err(e),
        };
    }
    let how_much = n >= 3 && is_word(&w[0], "how") && is_word(&w[1], "much") && is_word(
        &w[n - 1],
        "?",
    );
    if n >= 5 && how_much && is_word(&w[2], "is") {
        return Ok(Statement::ValueQuery { symbols: copy_words(&w, 3, n - 1) });
    }
    if n >= 7 && is_word(&w[0], "how") && is_word(&w[1], "many") && is_word(&w[2], "Credits")
        && is_word(&w[3], "is") && is_word(&w[n - 1], "?") {
        return Ok(
            Statement::PriceQuery { symbols: copy_words(&w, 4, n - 2), product: w[n - 2].clone() },
        );
    }
    if how_much {
        return Ok(Statement::UnrecognizedQuery);
    }
    Err(GuideError::UnparseableLine { line: String::from_str(line) })
}

} // verus!
