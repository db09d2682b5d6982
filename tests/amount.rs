use ram_voice::amount::{
    amount_in_word_forms, get_decimals_for_coin, parse_amount_from_text, parse_vietnamese_number,
    to_minor_units, verify_amount, SpokenAmount,
};
use ram_voice::numeral::numeral_to_minor;

#[test]
fn test_parse_amount_sui() {
    let result = parse_amount_from_text("confirm sending 5 SUI", "SUI");
    assert_eq!(result, Some(5_000_000_000));
}

#[test]
fn test_parse_amount_usdc() {
    let result = parse_amount_from_text("transfer 10.5 USDC to alice", "USDC");
    assert_eq!(result, Some(10_500_000));
}

#[test]
fn test_parse_amount_no_coin() {
    let result = parse_amount_from_text("yes confirm 100", "SUI");
    assert_eq!(result, Some(100_000_000_000));
}

#[test]
fn test_parse_vietnamese_number() {
    assert_eq!(parse_vietnamese_number("năm"), Some(5));
    assert_eq!(parse_vietnamese_number("mười"), Some(10));
    assert_eq!(parse_vietnamese_number("một"), Some(1));
}

#[test]
fn test_parse_amount_with_decimal() {
    let result = parse_amount_from_text("send 2.5 SUI please", "SUI");
    assert_eq!(result, Some(2_500_000_000));
}

#[test]
fn test_verify_amount() {
    // 5 SUI = 5_000_000_000 raw
    assert!(verify_amount(5_000_000_000, Some(SpokenAmount::whole(5)), "SUI"));
    assert!(!verify_amount(5_000_000_000, Some(SpokenAmount::whole(10)), "SUI"));
    assert!(!verify_amount(5_000_000_000, None, "SUI"));

    // Allow small tolerance
    assert!(verify_amount(5_000_000_000, Some(SpokenAmount::new(501, 2)), "SUI"));
}

#[test]
fn verify_amount_tolerance_edges() {
    // exactly 1% off is accepted, just beyond is not
    assert!(verify_amount(5_000_000_000, Some(SpokenAmount::new(505, 2)), "SUI"));
    assert!(!verify_amount(5_000_000_000, Some(SpokenAmount::new(50501, 4)), "SUI"));
    assert!(verify_amount(5_000_000, Some(SpokenAmount::new(495, 2)), "usdc"));
}

#[test]
fn decimals_table_is_case_insensitive() {
    assert_eq!(get_decimals_for_coin("SUI"), 9);
    assert_eq!(get_decimals_for_coin("usdc"), 6);
    assert_eq!(get_decimals_for_coin("Usdt"), 6);
    assert_eq!(get_decimals_for_coin("wal"), 9);
    assert_eq!(get_decimals_for_coin("DOGE"), 9);
}

#[test]
fn lower_case_coin_uses_its_decimals() {
    assert_eq!(parse_amount_from_text("send 3 usdc", "usdc"), Some(3_000_000));
}

#[test]
fn vietnamese_word_needs_coin_after_it() {
    assert_eq!(parse_amount_from_text("gửi năm SUI", "SUI"), Some(5_000_000_000));
    assert_eq!(parse_amount_from_text("gửi NĂM suiii", "SUI"), Some(5_000_000_000));
    assert_eq!(parse_amount_from_text("gửi năm đồng", "SUI"), None);
    assert_eq!(parse_amount_from_text("mười USDC", "USDC"), Some(10_000_000));
}

#[test]
fn no_number_gives_none() {
    assert_eq!(parse_amount_from_text("", "SUI"), None);
    assert_eq!(parse_amount_from_text("yes I confirm", "SUI"), None);
    assert_eq!(parse_amount_from_text("version 1.2.3 only", "SUI"), None);
}

#[test]
fn first_numeral_wins_even_before_other_words() {
    assert_eq!(parse_amount_from_text("send 7 to bob then 9 SUI", "SUI"), Some(7_000_000_000));
    assert_eq!(parse_amount_from_text("send\t0.25\nSUI", "SUI"), Some(250_000_000));
}

#[test]
fn numeral_scaling_rounds_half_up() {
    assert_eq!(numeral_to_minor("1.2345675", 6), Some(1_234_568));
    assert_eq!(numeral_to_minor("1.2345674", 6), Some(1_234_567));
    assert_eq!(numeral_to_minor(".5", 0), Some(1));
    assert_eq!(numeral_to_minor("5.", 2), Some(500));
    assert_eq!(numeral_to_minor(".", 2), None);
    assert_eq!(numeral_to_minor("1a", 2), None);
}

#[test]
fn numeral_scaling_saturates() {
    assert_eq!(numeral_to_minor("99999999999999999999", 9), Some(u64::MAX));
}

#[test]
fn minor_units_of_spoken_amounts() {
    assert_eq!(to_minor_units(SpokenAmount::new(105, 1), 6), 10_500_000);
    assert_eq!(to_minor_units(SpokenAmount::new(15, 1), 0), 2);
    assert_eq!(to_minor_units(SpokenAmount::new(14, 1), 0), 1);
    assert_eq!(to_minor_units(SpokenAmount::new(u64::MAX, 40), 9), 0);
    assert_eq!(to_minor_units(SpokenAmount::whole(u64::MAX), 9), u64::MAX);
}

#[test]
fn exponent_amounts_saturate() {
    assert_eq!(parse_amount_from_text("send 1e30 SUI", "SUI"), Some(u64::MAX));
    assert_eq!(parse_amount_from_text("send 1.5E2 USDC", "USDC"), Some(150_000_000));
    assert_eq!(numeral_to_minor("2e-1", 0), Some(0));
    assert_eq!(numeral_to_minor("5e-1", 0), Some(1));
    assert_eq!(numeral_to_minor("1e-400", 9), Some(0));
    assert_eq!(numeral_to_minor("1e99999999999999999999999", 9), Some(u64::MAX));
    assert_eq!(numeral_to_minor("0e99999999999999999999999", 9), Some(0));
    assert_eq!(numeral_to_minor("1e", 9), None);
    assert_eq!(numeral_to_minor("e5", 9), None);
}

#[test]
fn signs_and_special_values() {
    assert_eq!(numeral_to_minor("+2", 9), Some(2_000_000_000));
    assert_eq!(numeral_to_minor("-3", 9), Some(0));
    assert_eq!(numeral_to_minor("inf", 9), Some(u64::MAX));
    assert_eq!(numeral_to_minor("-Infinity", 9), Some(0));
    assert_eq!(numeral_to_minor("NaN", 9), Some(0));
    assert_eq!(numeral_to_minor("-", 9), None);
}

#[test]
fn number_before_another_coin_is_skipped() {
    assert_eq!(parse_amount_from_text("5 USDC", "SUI"), None);
    assert_eq!(parse_amount_from_text("5 usdc then 7 SUI", "SUI"), Some(7_000_000_000));
    assert_eq!(parse_amount_from_text("5 dollars", "SUI"), Some(5_000_000_000));
}

#[test]
fn scan_over_given_word_forms() {
    let words = vec!["gửi", "năm", "sui"];
    let lowers: Vec<String> = words.iter().map(|w| w.to_lowercase()).collect();
    let uppers: Vec<String> = words.iter().map(|w| w.to_uppercase()).collect();
    assert_eq!(amount_in_word_forms(&words, &lowers, &uppers, "SUI", 9), Some(5_000_000_000));
    assert_eq!(amount_in_word_forms(&words, &lowers, &uppers, "USDC", 6), None);
}

#[test]
fn tolerance_is_one_hundredth_of_expected_minor_units() {
    // half a coin expected, 0.504 said: 4 000 000 off, limit 5 000 000
    assert!(verify_amount(500_000_000, Some(SpokenAmount::new(504, 3)), "SUI"));
    // 0.506 said: 6 000 000 off, beyond the limit
    assert!(!verify_amount(500_000_000, Some(SpokenAmount::new(506, 3)), "SUI"));
}
