use galactic_merchants_guide::amount::{parse_amount, Amount};
use galactic_merchants_guide::text::{push_decimal, push_joined, push_quotient, split_words};
use galactic_merchants_guide::GuideError;

#[test]
fn splits_on_any_whitespace() {
    assert_eq!(split_words("  glob\tis \u{3000} I \n"), vec!["glob", "is", "I"]);
    assert!(split_words("").is_empty());
    assert!(split_words(" \t ").is_empty());
    assert_eq!(split_words("a"), vec!["a"]);
}

#[test]
fn writes_decimals() {
    let mut s = String::from("n=");
    push_decimal(&mut s, 0);
    assert_eq!(s, "n=0");
    let mut s = String::new();
    push_decimal(&mut s, 42);
    assert_eq!(s, "42");
    let mut s = String::new();
    push_decimal(&mut s, u128::MAX);
    assert_eq!(s, u128::MAX.to_string());
}

#[test]
fn joins_with_single_spaces() {
    let mut s = String::new();
    push_joined(&mut s, &vec!["pish".to_string(), "tegj".to_string(), "glob".to_string()]);
    assert_eq!(s, "pish tegj glob");
    let mut s = String::from("x");
    push_joined(&mut s, &vec![]);
    assert_eq!(s, "x");
}

#[test]
fn writes_quotients() {
    let cases: [(u128, u128, &str); 7] = [
        (68, 1, "68"),
        (3, 2, "1.5"),
        (391, 4, "97.75"),
        (1, 3, "0.333333333333333333"),
        (2, 3, "0.666666666666666666"),
        (0, 7, "0"),
        (1000000000000000001, 1000000000000000000, "1.000000000000000001"),
    ];
    for (n, d, text) in cases {
        let mut s = String::new();
        push_quotient(&mut s, n, d);
        assert_eq!(s, text);
    }
    let mut s = String::new();
    push_quotient(&mut s, 1, 10_000_000_000_000_000_000);
    assert_eq!(s, "0");
}

#[test]
fn reads_amounts() {
    assert_eq!(parse_amount("34").unwrap(), Amount { units: 34, scale: 0 });
    assert_eq!(parse_amount("12.25").unwrap(), Amount { units: 1225, scale: 2 });
    assert_eq!(parse_amount("0.5").unwrap(), Amount { units: 5, scale: 1 });
    assert_eq!(parse_amount(".5").unwrap(), Amount { units: 5, scale: 1 });
    assert_eq!(parse_amount("5.").unwrap(), Amount { units: 5, scale: 0 });
    assert_eq!(
        parse_amount("18446744073709551615").unwrap(),
        Amount { units: u64::MAX, scale: 0 }
    );
    assert_eq!(
        parse_amount("0.000000000000000001").unwrap(),
        Amount { units: 1, scale: 18 }
    );
}

#[test]
fn refuses_malformed_amounts() {
    for token in [
        "",
        ".",
        "1.2.3",
        "-1",
        "+1",
        "1e3",
        "abc",
        "18446744073709551616",
        "0.0000000000000000001",
    ] {
        match parse_amount(token) {
            Err(GuideError::InvalidNumber { token: t }) => assert_eq!(t, token),
            other => panic!("unexpected {:?} for {:?}", other, token),
        }
    }
}
