use tonos_call::convert::{convert_token, parse_integer_list, parse_integer_param, split_list};

#[test]
fn token_suffix_whole_amount() {
    assert_eq!(parse_integer_param("1T").unwrap(), "1000000000");
    assert_eq!(convert_token("1").unwrap(), "1000000000");
}

#[test]
fn token_suffix_fraction_is_exact() {
    assert_eq!(convert_token("1.5").unwrap(), "1500000000");
    assert_eq!(convert_token("3.000000001").unwrap(), "3000000001");
    assert_eq!(parse_integer_param("0.25T").unwrap(), "0250000000");
}

#[test]
fn token_largest_amount_fits() {
    assert_eq!(convert_token("18446744073.709551615").unwrap(), "18446744073709551615");
    assert!(convert_token("18446744073.709551616").is_err());
}

#[test]
fn token_rejects_malformed_amounts() {
    assert!(convert_token("1.2.3").is_err());
    assert!(convert_token("abc").is_err());
    assert!(convert_token("1.0000000001").is_err());
    assert!(parse_integer_param("x1T").is_err());
}

#[test]
fn integer_param_strips_quotes_and_passes_plain_values() {
    assert_eq!(parse_integer_param("\"5\"").unwrap(), "5");
    assert_eq!(parse_integer_param("\"2T\"").unwrap(), "2000000000");
    assert_eq!(parse_integer_param("0x1f").unwrap(), "0x1f");
    assert_eq!(parse_integer_param("").unwrap(), "");
}

#[test]
fn integer_list_mixed_brackets() {
    assert_eq!(
        parse_integer_list("[1T,2T]").unwrap(),
        vec!["1000000000".to_string(), "2000000000".to_string()]
    );
    assert_eq!(
        parse_integer_list("[7,0.5T]").unwrap(),
        vec!["7".to_string(), "0500000000".to_string()]
    );
    assert!(parse_integer_list("[1T,zT]").is_err());
    assert_eq!(parse_integer_list("[]").unwrap(), Vec::<String>::new());
}

#[test]
fn split_list_skips_empty_pieces() {
    assert_eq!(split_list("[1,,2]"), vec!["1".to_string(), "2".to_string()]);
    assert_eq!(split_list("3"), vec!["3".to_string()]);
    assert_eq!(split_list(",[]"), Vec::<String>::new());
}

use tonos_call::dinterface::{decode_hex_string, parse_answer_id};

#[test]
fn hex_string_arguments() {
    assert_eq!(decode_hex_string("48656c6c6f").unwrap(), "Hello");
    assert_eq!(decode_hex_string("4A4b").unwrap(), "JK");
    assert_eq!(decode_hex_string("").unwrap(), "");
    assert_eq!(decode_hex_string("d0af").unwrap(), "\u{42f}");
    assert!(decode_hex_string("123").is_err());
    assert!(decode_hex_string("zz").is_err());
    assert!(decode_hex_string("ff").is_err());
}

#[test]
fn answer_ids() {
    assert_eq!(parse_answer_id("42").unwrap(), 42);
    assert_eq!(parse_answer_id("+7").unwrap(), 7);
    assert_eq!(parse_answer_id("4294967295").unwrap(), u32::MAX);
    assert!(parse_answer_id("4294967296").is_err());
    assert!(parse_answer_id("").is_err());
    assert!(parse_answer_id("+").is_err());
    assert!(parse_answer_id("-1").is_err());
    assert!(parse_answer_id("12a").is_err());
}
