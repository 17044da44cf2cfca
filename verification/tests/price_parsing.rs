use product_scraper::price::{is_decimal_text, parse_price, Price, PriceError};
use product_scraper::text::same_text;

#[test]
fn price_text_is_whole_point_fraction() {
    let price = parse_price("12", "99", "€").unwrap();
    assert_eq!(price.text, "12.99");
    assert_eq!(price.currency, "€");
    assert_eq!(price.text.parse::<f32>().unwrap(), 12.99_f32);
}

#[test]
fn price_parts_are_trimmed() {
    let price = parse_price(" 1299 \n", "\t00 ", "  € ").unwrap();
    assert_eq!(price, Price { text: "1299.00".to_string(), currency: "€".to_string() });
    assert_eq!(price.text.parse::<f32>().unwrap(), 1299.0_f32);
}

#[test]
fn number_of_the_price_is_read_from_its_text() {
    let cases = [("0", "5", 0.5_f32), ("123", "12", 123.12_f32), ("7", "", 7.0_f32), ("", "25", 0.25_f32)];
    for (whole, fraction, number) in cases {
        let price = parse_price(whole, fraction, "€").unwrap();
        assert_eq!(price.text, format!("{}.{}", whole, fraction));
        assert_eq!(price.text.parse::<f32>().unwrap(), number);
    }
}

#[test]
fn whole_part_with_a_separator_is_no_decimal() {
    assert_eq!(parse_price("1.299", "99", "€"), Err(PriceError::NotDecimal));
    assert_eq!(parse_price("1,299", "99", "€"), Err(PriceError::NotDecimal));
}

#[test]
fn parts_that_are_no_digits_are_no_decimal() {
    assert_eq!(parse_price("abc", "99", "€"), Err(PriceError::NotDecimal));
    assert_eq!(parse_price("12", "9 9", "€"), Err(PriceError::NotDecimal));
    assert_eq!(parse_price("", "", "€"), Err(PriceError::NotDecimal));
    assert_eq!(parse_price("1 2", "00", "€"), Err(PriceError::NotDecimal));
}

#[test]
fn unexpected_currency_is_accepted() {
    let price = parse_price("5", "00", "$").unwrap();
    assert_eq!(price.currency, "$");
    assert!(!price.has_expected_currency());
    assert!(parse_price("5", "00", "€").unwrap().has_expected_currency());
    let none = parse_price("5", "00", "  ").unwrap();
    assert_eq!(none.currency, "");
    assert!(!none.has_expected_currency());
}

#[test]
fn decimal_numerals_with_a_point() {
    for text in ["12.99", "0.5", ".5", "5.", "+1.0", "-3.25", "1.5e3", "1.5E-3", "2.e+7", "007.10"] {
        assert!(is_decimal_text(text), "{:?}", text);
    }
    for text in [".", "", "12", "1.2.3", "1..2", " 1.5", "1.5 ", "1.5e", "1.5e+", "e.5", "1.5x", "+.", "--1.0", "1.5e3.0", "1,5", "١.٥"] {
        assert!(!is_decimal_text(text), "{:?}", text);
    }
}

#[test]
fn decimal_check_agrees_with_float_parsing() {
    let samples = [
        "12.99", "0.5", ".5", "5.", "+1.0", "-3.25", "1.5e3", "1.5E-3", "2.e+7", ".", "1.2.3",
        "1..2", " 1.5", "1.5 ", "1.5e", "1.5e+", "e.5", "1.5x", "+.", "--1.0", "1.5e3.0", "+.5",
        "-.5e1", "1.e", ".e1", "0.0", "1.5e-", "1.5ee3", "１.５", "1.5_0", "inf.", "nan.0",
        "123456789012345678901234567890.123456789", "0.00000000000000000000000000000000000001",
        "1.0e400", "1.0E+0", "-0.0",
    ];
    for sample in samples {
        assert_eq!(is_decimal_text(sample), sample.parse::<f32>().is_ok(), "sample {:?}", sample);
    }
}

#[test]
fn same_text_compares_characters() {
    assert!(same_text("dp", "dp"));
    assert!(!same_text("dp", "DP"));
    assert!(!same_text("dp", "dpx"));
    assert!(same_text("", ""));
}
