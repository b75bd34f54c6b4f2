use data_generation::codec::{
    encode_row, join_with_delimiter, make_delimiter_safe, parse_row, parse_rows, split_text,
};
use data_generation::text::{i64_text, parse_decimal, u64_text};

fn some(s: &str) -> Option<String> {
    Some(s.to_string())
}

#[test]
fn renders_unsigned_numbers() {
    assert_eq!(u64_text(0), "0");
    assert_eq!(u64_text(7), "7");
    assert_eq!(u64_text(1234567), "1234567");
    assert_eq!(u64_text(u64::MAX), "18446744073709551615");
}

#[test]
fn renders_signed_numbers() {
    assert_eq!(i64_text(0), "0");
    assert_eq!(i64_text(-42), "-42");
    assert_eq!(i64_text(100001), "100001");
    assert_eq!(i64_text(i64::MIN), "-9223372036854775808");
}

#[test]
fn parses_decimal_digits() {
    assert_eq!(parse_decimal("0"), Some(0));
    assert_eq!(parse_decimal("00123"), Some(123));
    assert_eq!(parse_decimal("18446744073709551615"), Some(u64::MAX));
}

#[test]
fn rejects_bad_decimals() {
    assert_eq!(parse_decimal(""), None);
    assert_eq!(parse_decimal("12a"), None);
    assert_eq!(parse_decimal("-5"), None);
    assert_eq!(parse_decimal(" 5"), None);
    assert_eq!(parse_decimal("18446744073709551616"), None);
}

#[test]
fn encodes_row_with_sentinel() {
    let fields = vec![some("a"), None, some(""), some("42")];
    assert_eq!(encode_row(&fields), "a,nul_val,,42\n");
}

#[test]
fn encodes_empty_row() {
    assert_eq!(encode_row(&vec![]), "\n");
}

#[test]
fn splits_on_separator() {
    assert_eq!(split_text("a,b,,c", ','), vec!["a", "b", "", "c"]);
    assert_eq!(split_text("", ','), vec![""]);
    assert_eq!(split_text("x,", ','), vec!["x", ""]);
}

#[test]
fn parses_row_back() {
    assert_eq!(
        parse_row("a,nul_val,,42\n"),
        vec![some("a"), None, some(""), some("42")]
    );
    assert_eq!(parse_row("only"), vec![some("only")]);
}

#[test]
fn round_trip_keeps_absent_and_empty_apart() {
    let rows = vec![
        vec![some("1"), None, some("")],
        vec![some("2"), some("Prague"), None],
        vec![None],
    ];
    let mut text = String::new();
    for r in &rows {
        let line = encode_row(r);
        assert_eq!(parse_row(&line), *r);
        text.push_str(&line);
    }
    assert_eq!(text, "1,nul_val,\n2,Prague,nul_val\nnul_val\n");
    assert_eq!(parse_rows(&text), rows);
}

#[test]
fn parses_empty_text_as_no_rows() {
    assert!(parse_rows("").is_empty());
}

#[test]
fn round_trip_of_unicode_fields() {
    let row = vec![some("Žižkov"), some("Praha 3"), None];
    let line = encode_row(&row);
    assert_eq!(line, "Žižkov,Praha 3,nul_val\n");
    assert_eq!(parse_row(&line), row);
}

#[test]
fn free_text_loses_delimiters() {
    assert_eq!(make_delimiter_safe("Smith, Jones\nand Co"), "Smith  Jones and Co");
    assert_eq!(make_delimiter_safe(""), "");
    assert_eq!(make_delimiter_safe("Kříž"), "Kříž");
}

#[test]
fn joins_parts() {
    assert_eq!(join_with_delimiter(&vec![]), "");
    assert_eq!(join_with_delimiter(&vec!["a".to_string()]), "a");
    assert_eq!(
        join_with_delimiter(&vec!["a".to_string(), "".to_string(), "c".to_string()]),
        "a,,c"
    );
}
