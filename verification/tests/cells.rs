use vevolab::line::tokenize_line;
use vevolab::number::parse_opt_number;

#[test]
fn tokenizer_splits_trims_and_unquotes() {
    let fields = tokenize_line(" \"A'\" , PW Tissue Doppler Mode ,\"mm/s\",").unwrap();
    assert_eq!(fields, vec!["A'", "PW Tissue Doppler Mode", "mm/s", ""]);
}

#[test]
fn tokenizer_strips_one_quote_layer_only() {
    let fields = tokenize_line("\"\"quoted\"\",\"unbalanced").unwrap();
    assert_eq!(fields, vec!["\"quoted\"", "\"unbalanced"]);
}

#[test]
fn tokenizer_drops_blank_lines() {
    assert!(tokenize_line("").is_none());
    assert!(tokenize_line("   \t ").is_none());
    assert!(tokenize_line(" , ,, ").is_none());
    assert!(tokenize_line("\"\"").is_some());
}

#[test]
fn empty_numeric_cell_is_absent_not_zero() {
    assert_eq!(parse_opt_number(""), None);
    assert_eq!(parse_opt_number("   "), None);
    assert_ne!(parse_opt_number("0"), None);
}

#[test]
fn unparseable_numeric_cell_is_absent() {
    assert_eq!(parse_opt_number("n/a"), None);
    assert_eq!(parse_opt_number("1.2.3"), None);
    assert_eq!(parse_opt_number("--4"), None);
    assert_eq!(parse_opt_number("1e"), None);
    assert_eq!(parse_opt_number("."), None);
    assert_eq!(parse_opt_number("e5"), None);
}

#[test]
fn numeric_cells_follow_the_float_grammar() {
    for text in [
        "-14.438560",
        "0.000000",
        "42.0",
        "+.5",
        "5.",
        "1e5",
        "2.5E-3",
        "inf",
        "-Infinity",
        "NaN",
    ] {
        let kept = parse_opt_number(text);
        assert_eq!(kept.as_deref(), Some(text), "{} should be kept", text);
        assert!(
            text.parse::<f64>().is_ok(),
            "{} should parse as a float",
            text
        );
    }
    for text in ["nan%", "0x1p3", "1_000", "four", "in", "infinit"] {
        assert_eq!(parse_opt_number(text), None, "{} should be absent", text);
        assert!(
            text.parse::<f64>().is_err(),
            "{} should not parse as a float",
            text
        );
    }
}

#[test]
fn numeric_cells_are_trimmed_before_the_check() {
    assert_eq!(parse_opt_number("  42.0 ").as_deref(), Some("42.0"));
}
