use galactic_merchants_guide::statement::{classify, Statement};
use galactic_merchants_guide::{interpret, GuideError, Interpreter, Roman};

fn run(lines: &[&str]) -> (Vec<String>, Option<GuideError>) {
    let owned: Vec<String> = lines.iter().map(|l| l.to_string()).collect();
    let t = interpret(&owned);
    (t.outputs, t.error)
}

#[test]
fn canonical_scenario() {
    let (out, err) = run(&[
        "glob is I",
        "prok is V",
        "pish is X",
        "tegj is L",
        "glob glob Silver is 34 Credits",
        "glob prok Gold is 57800 Credits",
        "pish pish Iron is 3910 Credits",
        "how much is pish tegj glob glob ?",
        "how many Credits is glob prok Silver ?",
        "how many Credits is glob prok Gold ?",
        "how much wood could a woodchuck chuck if a woodchuck could chuck wood ?",
    ]);
    assert!(err.is_none());
    assert_eq!(
        out,
        vec![
            "pish tegj glob glob is 42",
            "glob prok Silver is 68 Credits",
            "glob prok Gold is 57800 Credits",
            "I have no idea what you are talking about",
        ]
    );
}

#[test]
fn iron_price_is_exact() {
    let (out, err) = run(&[
        "glob is I",
        "prok is V",
        "pish is X",
        "pish pish Iron is 3910 Credits",
        "how many Credits is glob prok Iron ?",
        "how many Credits is glob Iron ?",
    ]);
    assert!(err.is_none());
    assert_eq!(out, vec!["glob prok Iron is 782 Credits", "glob Iron is 195.5 Credits"]);
}

#[test]
fn first_symbol_definition_wins() {
    let (out, err) = run(&["glob is I", "glob is V", "how much is glob ?"]);
    assert!(err.is_none());
    assert_eq!(out, vec!["glob is 1"]);
}

#[test]
fn first_price_definition_wins() {
    let (out, err) = run(&[
        "glob is I",
        "glob Silver is 34 Credits",
        "glob Silver is 99 Credits",
        "how many Credits is glob Silver ?",
    ]);
    assert!(err.is_none());
    assert_eq!(out, vec!["glob Silver is 34 Credits"]);
}

#[test]
fn price_round_trip() {
    let (out, err) = run(&[
        "glob is I",
        "glob Silver is 34 Credits",
        "how many Credits is glob Silver ?",
    ]);
    assert!(err.is_none());
    assert_eq!(out, vec!["glob Silver is 34 Credits"]);
}

#[test]
fn fractional_price_round_trip() {
    let (out, err) = run(&[
        "glob is I",
        "prok is V",
        "glob prok Dust is 12.50 Credits",
        "how many Credits is glob prok Dust ?",
        "how many Credits is glob Dust ?",
    ]);
    assert!(err.is_none());
    assert_eq!(
        out,
        vec![
            "glob prok Dust is 12.5 Credits",
            "glob Dust is 3.125 Credits",
        ]
    );
}

#[test]
fn unbound_symbol_fails() {
    let (out, err) = run(&["glob is I", "how much is glob blarg ?", "how much is glob ?"]);
    assert!(out.is_empty());
    match err {
        Some(GuideError::UnboundSymbol { symbol }) => assert_eq!(symbol, "blarg"),
        other => panic!("unexpected {:?}", other),
    }
}

#[test]
fn unbound_symbol_in_price_definition_fails() {
    let mut it = Interpreter::new();
    match it.process_line("glob Silver is 34 Credits") {
        Err(GuideError::UnboundSymbol { symbol }) => assert_eq!(symbol, "glob"),
        other => panic!("unexpected {:?}", other),
    }
}

#[test]
fn unknown_product_fails() {
    let (out, err) = run(&["glob is I", "how many Credits is glob Platinum ?"]);
    assert!(out.is_empty());
    match err {
        Some(GuideError::UnknownProduct { product }) => assert_eq!(product, "Platinum"),
        other => panic!("unexpected {:?}", other),
    }
}

#[test]
fn malformed_line_halts_the_run() {
    let (out, err) = run(&[
        "glob is I",
        "how much is glob ?",
        "this line means nothing",
        "how much is glob ?",
    ]);
    assert_eq!(out, vec!["glob is 1"]);
    match err {
        Some(GuideError::UnparseableLine { line }) => assert_eq!(line, "this line means nothing"),
        other => panic!("unexpected {:?}", other),
    }
}

#[test]
fn invalid_letter_fails() {
    let mut it = Interpreter::new();
    match it.process_line("glob is Z") {
        Err(GuideError::InvalidNumeral { token }) => assert_eq!(token, "Z"),
        other => panic!("unexpected {:?}", other),
    }
}

#[test]
fn invalid_amount_fails() {
    let mut it = Interpreter::new();
    assert!(it.process_line("glob is I").unwrap().is_none());
    match it.process_line("glob Silver is lots Credits") {
        Err(GuideError::InvalidNumber { token }) => assert_eq!(token, "lots"),
        other => panic!("unexpected {:?}", other),
    }
}

#[test]
fn empty_line_is_unparseable() {
    let mut it = Interpreter::new();
    assert!(matches!(it.process_line(""), Err(GuideError::UnparseableLine { .. })));
}

#[test]
fn classifies_each_shape() {
    match classify("glob is I").unwrap() {
        Statement::SymbolDefinition { symbol, letter } => {
            assert_eq!(symbol, "glob");
            assert_eq!(letter, Roman::I);
        }
        other => panic!("unexpected {:?}", other),
    }
    match classify("glob prok Gold is 57800 Credits").unwrap() {
        Statement::PriceDefinition { symbols, product, credits } => {
            assert_eq!(symbols, vec!["glob", "prok"]);
            assert_eq!(product, "Gold");
            assert_eq!(credits.units, 57800);
            assert_eq!(credits.scale, 0);
        }
        other => panic!("unexpected {:?}", other),
    }
    match classify("how much is pish tegj ?").unwrap() {
        Statement::ValueQuery { symbols } => assert_eq!(symbols, vec!["pish", "tegj"]),
        other => panic!("unexpected {:?}", other),
    }
    match classify("how many Credits is glob prok Silver ?").unwrap() {
        Statement::PriceQuery { symbols, product } => {
            assert_eq!(symbols, vec!["glob", "prok"]);
            assert_eq!(product, "Silver");
        }
        other => panic!("unexpected {:?}", other),
    }
    assert!(matches!(classify("how much ?").unwrap(), Statement::UnrecognizedQuery));
    assert!(matches!(classify("how much is ?").unwrap(), Statement::UnrecognizedQuery));
    assert!(matches!(
        classify("how many Credits is ?"),
        Err(GuideError::UnparseableLine { .. })
    ));
}

#[test]
fn symbol_definition_takes_precedence() {
    // three words with "is" in the middle are always a symbol definition
    match classify("how is ?") {
        Err(GuideError::InvalidNumeral { token }) => assert_eq!(token, "?"),
        other => panic!("unexpected {:?}", other),
    }
}

#[test]
fn definitions_give_no_output() {
    let mut it = Interpreter::new();
    assert!(it.process_line("glob is I").unwrap().is_none());
    assert!(it.process_line("glob Silver is 34 Credits").unwrap().is_none());
    assert_eq!(
        it.process_line("how many Credits is glob glob Silver ?").unwrap().unwrap(),
        "glob glob Silver is 68 Credits"
    );
}
