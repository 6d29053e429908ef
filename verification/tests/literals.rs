use oneway::parser::literals::{is_float_text, parse_i64, parse_unsigned, strip_hex_prefixes};

#[test]
fn reads_integers() {
    assert_eq!(parse_i64("42"), Some(42));
    assert_eq!(parse_i64("-9223372036854775808"), Some(i64::MIN));
    assert_eq!(parse_i64("+7"), Some(7));
    assert_eq!(parse_i64("9223372036854775808"), None);
    assert_eq!(parse_i64("-"), None);
    assert_eq!(parse_i64("1_000"), None);
    assert_eq!(parse_unsigned("18446744073709551615", false), Some(u64::MAX));
    assert_eq!(parse_unsigned("18446744073709551616", false), None);
    assert_eq!(parse_unsigned("-0", false), None);
}

#[test]
fn reads_hex() {
    assert_eq!(strip_hex_prefixes("0x0xff"), "ff");
    assert_eq!(parse_unsigned("fF", true), Some(255));
    assert_eq!(parse_unsigned("+10", true), Some(16));
    assert_eq!(parse_unsigned("g", true), None);
}

#[test]
fn recognizes_float_texts() {
    for ok in ["3.14", "1.", ".5", "2e10", "1.5E-3", "-inf", "NaN", "+Infinity", "7"] {
        assert!(is_float_text(ok), "{}", ok);
        assert!(ok.parse::<f64>().is_ok(), "{}", ok);
    }
    for bad in ["", ".", "e5", "1e", "1.2.3", "infx", " 1"] {
        assert!(!is_float_text(bad), "{}", bad);
        assert!(bad.parse::<f64>().is_err(), "{}", bad);
    }
}

#[test]
fn integer_text_round_trip() {
    for n in [0i64, 7, -12, i64::MAX, i64::MIN] {
        assert_eq!(parse_i64(&n.to_string()), Some(n));
    }
    for n in [0u64, 255, u64::MAX] {
        assert_eq!(parse_unsigned(&strip_hex_prefixes(&format!("0x{:X}", n)), true), Some(n));
    }
}
