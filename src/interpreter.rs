//! The interpreter: its two tables, and what each line does to them.
use vstd::prelude::*;
use vstd::string::*;
use crate::amount::Amount;
use crate::error::{GuideError, GuideErrorView, outcome_view};
use crate::numeral::{resolve, resolve_spec};
use crate::roman::Roman;
use crate::statement::{Statement, StatementView, classify, statement_of};
use crate::table::Table;
use crate::text::{
    lemma_quotient_text_scaled,
    MAX_FRACTION_DIGITS,
    decimal,
    joined,
    max_denominator,
    push_decimal,
    push_joined,
    push_quotient,
    quotient_text,
};

verus! {

/// The price of one decimal unit of a product: `numerator / denominator` credits.
/// It is held as an exact fraction, so a price reads back as it was defined.
#[derive(Clone, Copy, Debug, PartialEq, Eq, Structural)]
pub struct UnitPrice {
    pub numerator: u64,
    pub denominator: u128,
}

/// The mathematical state of an interpreter: which letter each symbol stands
/// for, and the unit price of each product.
pub struct InterpreterView {
    pub symbols: Map<Seq<char>, Roman>,
    pub prices: Map<Seq<char>, UnitPrice>,
}

/// The state before any line.
pub open spec fn initial_state() -> InterpreterView {
    InterpreterView { symbols: Map::empty(), prices: Map::empty() }
}

/// `m` with `k` bound to `v`, unless `k` is bound already.
pub open spec fn first_wins<V>(m: Map<Seq<char>, V>, k: Seq<char>, v: V) -> Map<Seq<char>, V> {
    if m.contains_key(k) {
        m
    } else {
        m.insert(k, v)
    }
}

/// The letters that `syms` stand for; the first unbound symbol is an error.
pub open spec fn letters_of(syms: Seq<Seq<char>>, table: Map<Seq<char>, Roman>) -> Result<
    Seq<Roman>,
    GuideErrorView,
>
    decreases syms.len(),
{
    if syms.len() == 0 {
        Ok(seq![])
    } else {
        match letters_of(syms.drop_last(), table) {
            Err(e) => Err(e),
            Ok(ls) => if table.contains_key(syms.last()) {
                Ok(ls.push(table[syms.last()]))
            } else {
                Err(GuideErrorView::UnboundSymbol(syms.last()))
            },
        }
    }
}

/// The decimal value of a symbol sequence.
pub open spec fn value_of(syms: Seq<Seq<char>>, table: Map<Seq<char>, Roman>) -> Result<
    u64,
    GuideErrorView,
> {
    match letters_of(syms, table) {
        Err(e) => Err(e),
        Ok(ls) => resolve_spec(ls),
    }
}

/// Ten to the power `k`.
pub open spec fn pow10(k: nat) -> nat
    decreases k,
{
    if k == 0 {
        1
    } else {
        10 * pow10((k - 1) as nat)
    }
}

/// The price of one unit when `credits` buy as many units as `value` says.
pub open spec fn unit_price(credits: Amount, value: u64) -> UnitPrice {
    UnitPrice {
        numerator: credits.units,
        denominator: (pow10(credits.scale as nat) * value) as u128,
    }
}

/// Whether a stored price can be used: a positive denominator that the
/// decimal writer accepts.
pub open spec fn price_ok(p: UnitPrice) -> bool {
    0 < p.denominator <= max_denominator()
}

/// The answer to a value query.
pub open spec fn value_answer(syms: Seq<Seq<char>>, value: u64) -> Seq<char> {
    joined(syms) + " is "@ + decimal(value as nat)
}

/// The answer to a price query: `value` units at price `p`.
pub open spec fn price_answer(
    syms: Seq<Seq<char>>,
    product: Seq<char>,
    value: u64,
    p: UnitPrice,
) -> Seq<char> {
    joined(syms) + " "@ + product + " is "@ + quotient_text(
        (value * p.numerator) as nat,
        p.denominator as nat,
    ) + " Credits"@
}

/// The answer to a question that has no answer.
pub open spec fn no_idea() -> Seq<char> {
    "I have no idea what you are talking about"@
}

/// What one line does: the next state, and either the reply (a line of
/// output or none) or the error that stops the run. On an error the state is
/// the one before the line.
pub open spec fn step(st: InterpreterView, line: Seq<char>) -> (
    InterpreterView,
    Result<Option<Seq<char>>, GuideErrorView>,
) {
    match statement_of(line) {
        Err(e) => (st, Err(e)),
        Ok(StatementView::SymbolDefinition { symbol, letter }) => (
            InterpreterView {
                symbols: first_wins(st.symbols, symbol, letter),
                prices: st.prices,
            },
            Ok(None),
        ),
        Ok(StatementView::PriceDefinition { symbols, product, credits }) => {
            if st.prices.contains_key(product) {
                (st, Ok(None))
            } else {
                match value_of(symbols, st.symbols) {
                    Err(e) => (st, Err(e)),
                    Ok(v) => (
                        InterpreterView {
                            symbols: st.symbols,
                            prices: st.prices.insert(product, unit_price(credits, v)),
                        },
                        Ok(None),
                    ),
                }
            }
        },
        Ok(StatementView::ValueQuery { symbols }) => match value_of(symbols, st.symbols) {
            Err(e) => (st, Err(e)),
            Ok(v) => (st, Ok(Some(value_answer(symbols, v)))),
        },
        Ok(StatementView::PriceQuery { symbols, product }) => {
            if !st.prices.contains_key(product) {
                (st, Err(GuideErrorView::UnknownProduct(product)))
            } else {
                match value_of(symbols, st.symbols) {
                    Err(e) => (st, Err(e)),
                    Ok(v) => (st, Ok(Some(price_answer(symbols, product, v, st.prices[product])))),
                }
            }
        },
        Ok(StatementView::UnrecognizedQuery) => (st, Ok(Some(no_idea()))),
    }
}

/// The view of a reply.
pub open spec fn reply_view(r: Result<Option<String>, GuideError>) -> Result<
    Option<Seq<char>>,
    GuideErrorView,
> {
    match r {
        Ok(Some(s)) => Ok(Some(s@)),
        Ok(None) => Ok(None),
        Err(e) => Err(e@),
    }
}

/// Reads lines one by one and answers the queries among them.
pub struct Interpreter {
    symbols: Table<Roman>,
    prices: Table<UnitPrice>,
}

impl View for Interpreter {
    type V = InterpreterView;

    closed spec fn view(&self) -> InterpreterView {
        InterpreterView { symbols: self.symbols@, prices: self.prices@ }
    }
}

proof fn lemma_pow10_monotonic(a: nat, b: nat)
    requires
        a <= b,
    ensures
        1 <= pow10(a) <= pow10(b),
    decreases b,
{
    if a < b {
        lemma_pow10_monotonic(a, (b - 1) as nat);
    } else if a > 0 {
        lemma_pow10_monotonic((a - 1) as nat, (a - 1) as nat);
    }
}

fn scale_factor(k: u32) -> (r: u64)
    requires
        k <= MAX_FRACTION_DIGITS,
    ensures
        r == pow10(k as nat),
        1 <= r <= 1_000_000_000_000_000_000,
{
    proof {
        reveal_with_fuel(pow10, 19);
        lemma_pow10_monotonic(k as nat, 18);
    }
    let mut r: u64 = 1;
    let mut i: u32 = 0;
    while i < k
        invariant
            i <= k <= MAX_FRACTION_DIGITS,
            r == pow10(i as nat),
            pow10(k as nat) <= 1_000_000_000_000_000_000,
        decreases k - i,
    {
        proof {
            lemma_pow10_monotonic((i + 1) as nat, k as nat);
        }
        r = r * 10;
        i = i + 1;
    }
    r
}

impl Interpreter {
    #[verifier::type_invariant]
    spec fn prices_usable(&self) -> bool {
        forall|k: Seq<char>| #[trigger] self.prices@.contains_key(k) ==> price_ok(self.prices@[k])
    }

    /// An interpreter with no symbols and no prices.
    pub fn new() -> (r: Interpreter)
        ensures
            r@ == initial_state(),
    {
        Interpreter { symbols: Table::new(), prices: Table::new() }
    }

    /// The letters that `syms` stand for.
    fn letters(&self, syms: &Vec<String>) -> (r: Result<Vec<Roman>, GuideError>)
        ensures
            outcome_view(r) == letters_of(syms.deep_view(), self@.symbols),
    {
        let ghost v = syms.deep_view();
        let mut out: Vec<Roman> = Vec::new();
        let mut i: usize = 0;
        while i < syms.len()
            invariant
                v == syms.deep_view(),
                i <= v.len(),
                letters_of(v.take(i as int), self@.symbols) == Ok::<
                    Seq<Roman>,
                    GuideErrorView,
                >(out@),
            decreases v.len() - i,
        {
            assert(v.take(i + 1).drop_last() =~= v.take(i as int));
            assert(v.take(i + 1).last() == syms@[i as int]@);
            match self.symbols.get(&syms[i]) {
                Some(l) => out.push(l),
                None => {
                    assert(v.take(i + 1).drop_last() =~= v.take(i as int));
                    let e = GuideError::UnboundSymbol { symbol: syms[i].clone() };
                    proof {
                        lemma_letters_error_persists(v, (i + 1) as nat, v.len(), self@.symbols);
                        assert(v.take(v.len() as int) =~= v);
                    }
                    return Err(e);
                },
            }
            i = i + 1;
        }
        assert(v.take(v.len() as int) =~= v);
        Ok(out)
    }

    /// The decimal value of a symbol sequence.
    fn value(&self, syms: &Vec<String>) -> (r: Result<u64, GuideError>)
        ensures
            outcome_view(r) == value_of(syms.deep_view(), self@.symbols),
    {
        match self.letters(syms) {
            Err(e) => Err(e),
            Ok(ls) => resolve(ls.as_slice()),
        }
    }

    /// Processes one line: a definition changes the tables and gives no
    /// output, a query gives one line of output, and a line in error leaves
    /// the tables as they were.
    pub fn process_line(&mut self, line: &str) -> (r: Result<Option<String>, GuideError>)
        ensures
            final(self)@ == step(old(self)@, line@).0,
            reply_view(r) == step(old(self)@, line@).1,
    {
        proof {
            use_type_invariant(&*self);
        }
        let st = classify(line);
        match st {
            Err(e) => Err(e),
            Ok(Statement::SymbolDefinition { symbol, letter }) => {
                let mut taken = Interpreter::new();
                core::mem::swap(self, &mut taken);
                proof {
                    use_type_invariant(&taken);
                }
                let Interpreter { mut symbols, prices } = taken;
                symbols.define(symbol, letter);
                *self = Interpreter { symbols, prices };
                Ok(None)
            },
            Ok(Statement::PriceDefinition { symbols, product, credits }) => {
                if self.prices.contains(&product) {
                    return Ok(None);
                }
                let v = match self.value(&symbols) {
                    Err(e) => {
                        return Err(e);
                    },
                    Ok(v) => v,
                };
                let f = scale_factor(credits.scale);
                assert(f as int * v as int <= max_denominator()) by (nonlinear_arith)
                    requires
                        f <= 1_000_000_000_000_000_000,
                        v <= u64::MAX,
                ;
                assert(f as int * v as int > 0) by (nonlinear_arith)
                    requires
                        f >= 1,
                        v >= 1,
                ;
                let price = UnitPrice { numerator: credits.units, denominator: f as u128 * v as u128 };
                let mut taken = Interpreter::new();
                core::mem::swap(self, &mut taken);
                proof {
                    use_type_invariant(&taken);
                }
                let Interpreter { symbols: table, mut prices } = taken;
                prices.define(product, price);
                *self = Interpreter { symbols: table, prices };
                Ok(None)
            },
            Ok(Statement::ValueQuery { symbols }) => {
                let v = match self.value(&symbols) {
                    Err(e) => {
                        return Err(e);
                    },
                    Ok(v) => v,
                };
                let mut out = String::new();
                push_joined(&mut out, &symbols);
                out.append(" is ");
                push_decimal(&mut out, v as u128);
                Ok(Some(out))
            },
            Ok(Statement::PriceQuery { symbols, product }) => {
                let p = match self.prices.get(&product) {
                    None => {
                        return Err(GuideError::UnknownProduct { product });
                    },
                    Some(p) => p,
                };
                let v = match self.value(&symbols) {
                    Err(e) => {
                        return Err(e);
                    },
                    Ok(v) => v,
                };
                assert(v as int * p.numerator as int <= u128::MAX) by (nonlinear_arith)
                    requires
                        v <= u64::MAX,
                        p.numerator <= u64::MAX,
                ;
                let mut out = String::new();
                push_joined(&mut out, &symbols);
                out.append(" ");
                out.append(product.as_str());
                out.append(" is ");
                push_quotient(&mut out, v as u128 * p.numerator as u128, p.denominator);
                out.append(" Credits");
                Ok(Some(out))
            },
            Ok(Statement::UnrecognizedQuery) => Ok(
                Some(String::from_str("I have no idea what you are talking about")),
            ),
        }
    }
}

proof fn lemma_letters_error_persists(
    syms: Seq<Seq<char>>,
    n: nat,
    m: nat,
    table: Map<Seq<char>, Roman>,
)
    requires
        n <= m <= syms.len(),
        (letters_of(syms.take(n as int), table) is Err),
    ensures
        letters_of(syms.take(m as int), table) == letters_of(syms.take(n as int), table),
    decreases m - n,
{
    if n < m {
        lemma_letters_error_persists(syms, n, (m - 1) as nat, table);
        assert(syms.take(m as int).drop_last() =~= syms.take(m - 1));
    }
}

proof fn lemma_letters_of_outcome(syms: Seq<Seq<char>>, table: Map<Seq<char>, Roman>)
    ensures
        letters_of(syms, table) is Ok <==> forall|i: int|
            0 <= i < syms.len() ==> table.contains_key(#[trigger] syms[i]),
        letters_of(syms, table) is Err ==> (letters_of(syms, table) matches Err(
            GuideErrorView::UnboundSymbol(s),
        ) && syms.contains(s) && !table.contains_key(s)),
    decreases syms.len(),
{
    if syms.len() > 0 {
        let init = syms.drop_last();
        lemma_letters_of_outcome(init, table);
        assert forall|i: int| 0 <= i < init.len() implies #[trigger] init[i] == syms[i] by {}
        if letters_of(init, table) is Err {
            let s = letters_of(init, table)->Err_0->UnboundSymbol_0;
            let j = choose|j: int| 0 <= j < init.len() && init[j] == s;
            assert(syms[j] == s);
        } else if !table.contains_key(syms.last()) {
            assert(syms[syms.len() - 1] == syms.last());
        } else {
            assert forall|i: int| 0 <= i < syms.len() implies table.contains_key(#[trigger] syms[i]) by {
                if i < syms.len() - 1 {
                    assert(init[i] == syms[i]);
                }
            }
        }
    }
}

proof fn lemma_value_of_unbound(syms: Seq<Seq<char>>, table: Map<Seq<char>, Roman>, i: int)
    requires
        0 <= i < syms.len(),
        !table.contains_key(syms[i]),
    ensures
        value_of(syms, table) matches Err(GuideErrorView::UnboundSymbol(s)) && syms.contains(s)
            && !table.contains_key(s),
{
    lemma_letters_of_outcome(syms, table);
}

proof fn lemma_price_definition_scale(line: Seq<char>)
    requires
        (statement_of(line) is Ok),
        (statement_of(line)->Ok_0 is PriceDefinition),
    ensures
        statement_of(line)->Ok_0->PriceDefinition_credits.scale <= MAX_FRACTION_DIGITS,
{
}

/// The first definition of a symbol wins: once a line has bound a symbol, a
/// later line that defines the same symbol leaves the state as it is and
/// gives no output, so the symbol keeps its first letter.
pub proof fn lemma_first_symbol_definition_wins(
    st: InterpreterView,
    first: Seq<char>,
    second: Seq<char>,
    symbol: Seq<char>,
    letter: Roman,
    other: Roman,
)
    requires
        statement_of(first) == Ok::<StatementView, GuideErrorView>(
            StatementView::SymbolDefinition { symbol, letter },
        ),
        statement_of(second) == Ok::<StatementView, GuideErrorView>(
            StatementView::SymbolDefinition { symbol, letter: other },
        ),
    ensures
        ({
            let after = step(st, first).0;
            &&& step(st, first).1 == Ok::<Option<Seq<char>>, GuideErrorView>(None)
            &&& after.symbols.contains_key(symbol)
            &&& after.symbols[symbol] == (if st.symbols.contains_key(symbol) {
                st.symbols[symbol]
            } else {
                letter
            })
            &&& step(after, second) == (after, Ok::<Option<Seq<char>>, GuideErrorView>(None))
        }),
{
    let after = step(st, first).0;
    assert(first_wins(after.symbols, symbol, other) == after.symbols);
}

/// The first price of a product wins: a price definition for a product that
/// has a price leaves the state as it is and gives no output.
pub proof fn lemma_first_price_definition_wins(
    st: InterpreterView,
    line: Seq<char>,
    symbols: Seq<Seq<char>>,
    product: Seq<char>,
    credits: Amount,
)
    requires
        statement_of(line) == Ok::<StatementView, GuideErrorView>(
            StatementView::PriceDefinition { symbols, product, credits },
        ),
        st.prices.contains_key(product),
    ensures
        step(st, line) == (st, Ok::<Option<Seq<char>>, GuideErrorView>(None)),
{
}

/// A price reads back as it was defined: after a price definition whose
/// symbols have value `v`, a price query whose symbols have the same value
/// answers with the defined amount, written exactly.
pub proof fn lemma_price_round_trip(
    st: InterpreterView,
    definition: Seq<char>,
    query: Seq<char>,
    symbols: Seq<Seq<char>>,
    product: Seq<char>,
    credits: Amount,
    asked: Seq<Seq<char>>,
)
    requires
        statement_of(definition) == Ok::<StatementView, GuideErrorView>(
            StatementView::PriceDefinition { symbols, product, credits },
        ),
        statement_of(query) == Ok::<StatementView, GuideErrorView>(
            StatementView::PriceQuery { symbols: asked, product },
        ),
        !st.prices.contains_key(product),
        (value_of(symbols, st.symbols) is Ok),
        value_of(asked, st.symbols) == value_of(symbols, st.symbols),
    ensures
        step(st, definition).1 == Ok::<Option<Seq<char>>, GuideErrorView>(None),
        step(step(st, definition).0, query) == (
            step(st, definition).0,
            Ok::<Option<Seq<char>>, GuideErrorView>(
                Some(
                    joined(asked) + " "@ + product + " is "@ + quotient_text(
                        credits.units as nat,
                        pow10(credits.scale as nat),
                    ) + " Credits"@,
                ),
            ),
        ),
{
    let v = value_of(symbols, st.symbols)->Ok_0;
    let k = credits.scale as nat;
    let n = credits.units as nat;
    lemma_price_definition_scale(definition);
    lemma_pow10_monotonic(k, 18);
    assert(pow10(18) == 1_000_000_000_000_000_000) by {
        reveal_with_fuel(pow10, 19);
    }
    assert(0 < v);
    assert(0 < pow10(k) * v <= u128::MAX) by (nonlinear_arith)
        requires
            1 <= pow10(k) <= 1_000_000_000_000_000_000,
            1 <= v <= u64::MAX,
    ;
    let p = unit_price(credits, v);
    assert(p.denominator == pow10(k) * v);
    assert(v * pow10(k) == pow10(k) * v) by (nonlinear_arith);
    lemma_quotient_text_scaled(n, pow10(k), v as nat);
}

/// A value query that names a symbol that no line has bound fails with an
/// unbound-symbol error for a symbol of the query that is not bound, and
/// changes nothing.
pub proof fn lemma_value_query_unbound_symbol(
    st: InterpreterView,
    line: Seq<char>,
    symbols: Seq<Seq<char>>,
    i: int,
)
    requires
        statement_of(line) == Ok::<StatementView, GuideErrorView>(
            StatementView::ValueQuery { symbols },
        ),
        0 <= i < symbols.len(),
        !st.symbols.contains_key(symbols[i]),
    ensures
        step(st, line).0 == st,
        step(st, line).1 matches Err(GuideErrorView::UnboundSymbol(s)) && symbols.contains(s)
            && !st.symbols.contains_key(s),
{
    lemma_value_of_unbound(symbols, st.symbols, i);
}

/// A price query for a priced product that names a symbol that no line has
/// bound fails with an unbound-symbol error for a symbol of the query that is
/// not bound, and changes nothing.
pub proof fn lemma_price_query_unbound_symbol(
    st: InterpreterView,
    line: Seq<char>,
    symbols: Seq<Seq<char>>,
    product: Seq<char>,
    i: int,
)
    requires
        statement_of(line) == Ok::<StatementView, GuideErrorView>(
            StatementView::PriceQuery { symbols, product },
        ),
        st.prices.contains_key(product),
        0 <= i < symbols.len(),
        !st.symbols.contains_key(symbols[i]),
    ensures
        step(st, line).0 == st,
        step(st, line).1 matches Err(GuideErrorView::UnboundSymbol(s)) && symbols.contains(s)
            && !st.symbols.contains_key(s),
{
    lemma_value_of_unbound(symbols, st.symbols, i);
}

/// A price query for a product that has no price fails with an
/// unknown-product error for that product, and changes nothing.
pub proof fn lemma_unknown_product(
    st: InterpreterView,
    line: Seq<char>,
    symbols: Seq<Seq<char>>,
    product: Seq<char>,
)
    requires
        statement_of(line) == Ok::<StatementView, GuideErrorView>(
            StatementView::PriceQuery { symbols, product },
        ),
        !st.prices.contains_key(product),
    ensures
        step(st, line) == (
            st,
            Err::<Option<Seq<char>>, GuideErrorView>(GuideErrorView::UnknownProduct(product)),
        ),
{
}

} // verus!
