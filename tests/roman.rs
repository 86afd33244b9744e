use galactic_merchants_guide::numeral::resolve;
use galactic_merchants_guide::roman::Roman;
use galactic_merchants_guide::GuideError;

#[test]
fn should_map_string_to_roman() {
    assert_eq!(("I").parse(), Ok(Roman::I));
    assert_eq!(("N").parse::<Roman>(), Err("invalid input N".to_string()));
    assert_eq!(u16::from(Roman::I), 1u16);
}

#[test]
fn every_letter_has_its_value() {
    let cases = [
        ("I", 1u16),
        ("V", 5),
        ("X", 10),
        ("L", 50),
        ("C", 100),
        ("D", 500),
        ("M", 1000),
    ];
    for (token, value) in cases {
        let letter = Roman::from_token(token).unwrap();
        assert_eq!(letter.value(), value);
        assert_eq!(u16::from(letter), value);
    }
}

#[test]
fn letters_are_case_sensitive_and_single() {
    for token in ["i", "v", "IV", "", "Z", "II", " I"] {
        match Roman::from_token(token) {
            Err(GuideError::InvalidNumeral { token: t }) => assert_eq!(t, token),
            other => panic!("unexpected {:?}", other),
        }
    }
}

#[test]
fn resolves_subtractive_pair() {
    assert_eq!(resolve(&[Roman::I, Roman::X]).unwrap(), 9);
}

#[test]
fn resolves_additive_pair() {
    assert_eq!(resolve(&[Roman::X, Roman::I]).unwrap(), 11);
}

#[test]
fn resolves_single_letter() {
    assert_eq!(resolve(&[Roman::X]).unwrap(), 10);
}

#[test]
fn resolving_nothing_fails() {
    assert!(matches!(resolve(&[]), Err(GuideError::EmptySequence)));
}

#[test]
fn resolves_longer_numerals() {
    let (i, v, x, l, c, m) = (Roman::I, Roman::V, Roman::X, Roman::L, Roman::C, Roman::M);
    assert_eq!(resolve(&[m, c, m, x, c, i, v]).unwrap(), 1994);
    assert_eq!(resolve(&[l, x, i, i, i]).unwrap(), 63);
    assert_eq!(resolve(&[i, v, x]).unwrap(), 4);
    assert_eq!(resolve(&[i, i, i, i]).unwrap(), 4);
}

#[test]
fn error_messages_name_their_subject() {
    let e = Roman::from_token("N").unwrap_err();
    assert_eq!(e.message(), "invalid input N");
    assert_eq!(GuideError::EmptySequence.message(), "empty numeral");
}

#[test]
fn parsing_refuses_everything_but_one_letter() {
    for token in ["N", "i", "IV", "", " I"] {
        assert_eq!(token.parse::<Roman>(), Err(format!("invalid input {}", token)));
    }
    let letters = [Roman::I, Roman::V, Roman::X, Roman::L, Roman::C, Roman::D, Roman::M];
    for letter in letters {
        assert_eq!(format!("{:?}", letter).parse::<Roman>(), Ok(letter));
    }
}
