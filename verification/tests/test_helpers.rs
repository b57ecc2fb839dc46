use ibkr_nasdaq_scanner::models::Decimal;
use ibkr_nasdaq_scanner::utils::helpers::{encode_symbol, format_currency, format_percent};

fn dec(value: f64) -> Decimal {
    Decimal::parse(&format!("{}", value)).expect("a decimal numeral")
}

#[test]
fn test_format_currency() {
    assert_eq!(format_currency(dec(123.456)), "$123.46");
    assert_eq!(format_currency(dec(0.0)), "$0.00");
}

#[test]
fn test_format_percent() {
    assert_eq!(format_percent(dec(12.3456)), "12.35%");
    assert_eq!(format_percent(dec(0.0)), "0.00%");
}

#[test]
fn currency_puts_the_sign_after_the_dollar() {
    assert_eq!(format_currency(dec(-1.5)), "$-1.50");
    assert_eq!(format_currency(dec(1234567.891)), "$1234567.89");
    assert_eq!(format_currency(dec(0.005)), "$0.00");
    assert_eq!(format_currency(dec(0.015)), "$0.02");
    assert_eq!(format_percent(dec(-0.004)), "-0.00%");
    assert_eq!(format_percent(dec(99.995)), "100.00%");
}

#[test]
fn test_encode_symbol() {
    assert_eq!(encode_symbol("AAPL"), "AAPL");
    assert_eq!(encode_symbol("BRK-B"), "BRK-B");
}

#[test]
fn encode_symbol_leaves_letters_digits_and_hyphens() {
    assert_eq!(encode_symbol("azAZ09"), "azAZ09");
    assert_eq!(encode_symbol(""), "");
    assert_eq!(encode_symbol("-"), "-");
    assert_eq!(encode_symbol("--"), "--");
    assert_eq!(encode_symbol("-A-"), "-A-");
    assert_eq!(encode_symbol("A-B-C"), "A-B-C");
}

#[test]
fn encode_symbol_escapes_everything_else() {
    assert_eq!(encode_symbol("BRK.B"), "BRK%2EB");
    assert_eq!(encode_symbol("a b/c"), "a%20b%2Fc");
    assert_eq!(encode_symbol("_~"), "%5F%7E");
    assert_eq!(encode_symbol("\u{0}\u{7f}"), "%00%7F");
    assert_eq!(encode_symbol("é"), "%C3%A9");
    assert_eq!(encode_symbol("€"), "%E2%82%AC");
    assert_eq!(encode_symbol("📈"), "%F0%9F%93%88");
    assert_eq!(encode_symbol("a.b-c d-"), "a%2Eb-c%20d-");
    assert_eq!(encode_symbol("%2D-"), "%252D-");
}

#[test]
fn encode_symbol_escapes_as_percent_encoding_does_between_hyphens() {
    for symbol in ["AAPL", "BRK.B", "a b", "x/y?z=1&w", "naïve", "日本", "~!@#$%^&*()_+"] {
        let expected =
            percent_encoding::utf8_percent_encode(symbol, percent_encoding::NON_ALPHANUMERIC)
                .to_string();
        assert_eq!(encode_symbol(symbol), expected);
        assert_eq!(
            encode_symbol(&format!("{}-{}", symbol, symbol)),
            format!("{}-{}", expected, expected)
        );
    }
}
