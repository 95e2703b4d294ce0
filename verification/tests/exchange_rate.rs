use moneropay::exchange_rate::{
    compute_xmr_amount, format_piconero_as_xmr, parse_xmr_to_piconero, split_decimal, AmountError,
    ExchangeRateProvider, FixedRateProvider,
};

#[test]
fn twenty_five_dollars_at_a_known_rate_matches_hand_computed_value() {
    // 0.0067 XMR/USD expressed as piconero-per-USD: 0.0067 * 1e12 = 6_700_000_000
    let piconero_per_usd = 6_700_000_000u64;
    let amount = compute_xmr_amount("25.00", piconero_per_usd).unwrap();
    assert_eq!(amount, 167_500_000_000);
}

#[test]
fn whole_number_amount_without_a_decimal_point_works() {
    assert_eq!(compute_xmr_amount("5", 1_000_000).unwrap(), 5_000_000);
}

#[test]
fn single_decimal_digit_is_treated_as_tenths() {
    assert_eq!(compute_xmr_amount("5.5", 1_000_000).unwrap(), 5_500_000);
}

#[test]
fn more_than_two_decimal_places_is_rejected_not_truncated() {
    assert_eq!(compute_xmr_amount("5.123", 1_000_000), Err(AmountError::TooManyDecimalPlaces));
}

#[test]
fn zero_or_empty_amount_is_rejected() {
    assert_eq!(compute_xmr_amount("0.00", 1_000_000), Err(AmountError::NotPositive));
    assert_eq!(compute_xmr_amount("", 1_000_000), Err(AmountError::InvalidDecimal));
}

#[test]
fn non_numeric_amount_is_rejected() {
    assert_eq!(compute_xmr_amount("abc", 1_000_000), Err(AmountError::InvalidDecimal));
}

#[test]
fn parse_xmr_to_piconero_matches_hand_computed_values() {
    assert_eq!(parse_xmr_to_piconero("0.0067").unwrap(), 6_700_000_000);
    assert_eq!(parse_xmr_to_piconero("1").unwrap(), 1_000_000_000_000);
    assert_eq!(parse_xmr_to_piconero("0.000000000001").unwrap(), 1);
    assert_eq!(parse_xmr_to_piconero("0.0000000000001"), Err(AmountError::TooManyDecimalPlaces));
}

#[test]
fn format_piconero_as_xmr_matches_hand_computed_values() {
    assert_eq!(format_piconero_as_xmr(6_700_000_000), "0.006700000000");
    assert_eq!(format_piconero_as_xmr(1_000_000_000_000), "1.000000000000");
    assert_eq!(format_piconero_as_xmr(1), "0.000000000001");
    assert_eq!(format_piconero_as_xmr(0), "0.000000000000");
}

#[test]
fn format_and_parse_xmr_round_trip() {
    for piconero in [0u64, 1, 6_700_000_000, 1_000_000_000_000, 167_500_000_000] {
        let formatted = format_piconero_as_xmr(piconero);
        assert_eq!(
            parse_xmr_to_piconero(&formatted).unwrap(),
            piconero,
            "round trip failed for {piconero}"
        );
    }
}

#[test]
fn a_value_too_large_for_u64_piconero_is_an_error_not_a_silent_wraparound() {
    // 2^64 piconero exactly.
    assert_eq!(parse_xmr_to_piconero("18446744.073709551616"), Err(AmountError::TooLarge));
    assert_eq!(parse_xmr_to_piconero("20000000"), Err(AmountError::TooLarge));
    // One piconero below the wrap point must still be accepted exactly.
    assert_eq!(parse_xmr_to_piconero("18446744.073709551615").unwrap(), u64::MAX);

    // The same bound on the way that prices orders.
    assert_eq!(compute_xmr_amount("99999999999", 6_700_000_000), Err(AmountError::TooLarge));
    // ...and with a whole part that no machine integer holds.
    assert!(matches!(parse_xmr_to_piconero(&"9".repeat(40)), Err(AmountError::TooLarge)));
}

#[test]
fn a_leading_plus_sign_is_rejected_rather_than_shifting_the_decimal_place() {
    assert_eq!(compute_xmr_amount("1.+5", 1_000_000_000_000), Err(AmountError::InvalidDecimal));
    assert_eq!(parse_xmr_to_piconero("1.+5"), Err(AmountError::InvalidDecimal));
    assert_eq!(parse_xmr_to_piconero("+1"), Err(AmountError::InvalidDecimal));
    assert_eq!(compute_xmr_amount("+25.00", 1_000_000), Err(AmountError::InvalidDecimal));
}

#[test]
fn every_other_malformed_decimal_shape_is_rejected() {
    for bad in [
        "", ".", "..", "1.2.3", "-1", "-0.5", "1e5", "1E5", " 5", "5 ", "\t5", "5\n", "1_000",
        "0x10", "NaN", "inf", "٥", "1,5", "5.", // trailing dot: fraction is empty, whole is "5"
    ] {
        let result = parse_xmr_to_piconero(bad);
        if bad == "5." {
            // A trailing dot is a degenerate but unambiguous "5".
            assert_eq!(result.unwrap(), 5_000_000_000_000);
            continue;
        }
        assert!(result.is_err(), "{bad:?} should be rejected, got {result:?}");
    }
}

#[test]
fn a_fractional_piconero_remainder_rounds_up_so_the_merchant_is_never_short() {
    // 1 cent at a rate of 15 piconero/unit is 0.15 piconero.
    assert_eq!(compute_xmr_amount("0.01", 15).unwrap(), 1);
    // 3 cents at 5 piconero/unit = 0.15 -> 1, not 0.
    assert_eq!(compute_xmr_amount("0.03", 5).unwrap(), 1);
    // 101 cents at 1 piconero/unit = 1.01 -> 2, never 1.
    assert_eq!(compute_xmr_amount("1.01", 1).unwrap(), 2);
    // Exact divisions must not be nudged upwards by the ceiling.
    assert_eq!(compute_xmr_amount("25.00", 6_700_000_000).unwrap(), 167_500_000_000);
    assert_eq!(compute_xmr_amount("1.00", 100).unwrap(), 100);
}

#[test]
fn an_order_can_never_be_priced_at_zero_piconero() {
    assert_eq!(compute_xmr_amount("25.00", 0), Err(AmountError::NotPositive));
    assert_eq!(compute_xmr_amount("0.00", 6_700_000_000), Err(AmountError::NotPositive));
}

#[test]
fn fixed_rate_provider_returns_none_for_unknown_currency() {
    let provider = FixedRateProvider::new(std::collections::HashMap::from([(
        "USD".to_string(),
        6_700_000_000,
    )]));
    assert_eq!(provider.piconero_per_unit("USD"), Some(6_700_000_000));
    assert_eq!(provider.piconero_per_unit("EUR"), None);
}

#[test]
fn currency_names_are_matched_to_the_letter() {
    let provider = FixedRateProvider::new(std::collections::HashMap::from([
        ("USD".to_string(), 1),
        ("EUR".to_string(), 2),
    ]));
    assert_eq!(provider.piconero_per_unit("EUR"), Some(2));
    assert_eq!(provider.piconero_per_unit("usd"), None);
    assert_eq!(provider.piconero_per_unit(""), None);
}

#[test]
fn a_decimal_is_split_at_its_first_point() {
    assert_eq!(split_decimal("12.50"), Ok(("12", "50")));
    assert_eq!(split_decimal("12"), Ok(("12", "")));
    assert_eq!(split_decimal(".5"), Ok(("", "5")));
    assert_eq!(split_decimal("12."), Ok(("12", "")));
    assert_eq!(split_decimal("1.2.3"), Err(AmountError::InvalidDecimal));
    assert_eq!(split_decimal("."), Err(AmountError::InvalidDecimal));
}

#[test]
fn an_amount_without_a_whole_part_is_a_fraction() {
    assert_eq!(parse_xmr_to_piconero(".5").unwrap(), 500_000_000_000);
    assert_eq!(compute_xmr_amount(".25", 100).unwrap(), 25);
}

#[test]
fn prices_grow_with_the_amount_and_with_the_rate() {
    let cheap = compute_xmr_amount("9.99", 1_000_003).unwrap();
    let dear = compute_xmr_amount("10", 1_000_003).unwrap();
    let dearer = compute_xmr_amount("10", 1_000_004).unwrap();
    assert_eq!((cheap, dear, dearer), (9_990_030, 10_000_030, 10_000_040));
}

#[test]
fn the_largest_price_is_accepted_and_the_next_is_not() {
    assert_eq!(compute_xmr_amount("1", u64::MAX).unwrap(), u64::MAX);
    assert_eq!(compute_xmr_amount("1.01", u64::MAX), Err(AmountError::TooLarge));
}

#[test]
fn distinct_amounts_are_written_differently() {
    assert_ne!(format_piconero_as_xmr(10), format_piconero_as_xmr(100));
    assert_eq!(format_piconero_as_xmr(u64::MAX), "18446744.073709551615");
}

#[test]
fn writing_what_was_read_keeps_the_value() {
    let piconero = parse_xmr_to_piconero("0007.25").unwrap();
    assert_eq!(format_piconero_as_xmr(piconero), "7.250000000000");
}

#[test]
fn amount_errors_are_worded() {
    for (error, words) in [
        (AmountError::InvalidDecimal, "amount is not a valid decimal number"),
        (AmountError::TooManyDecimalPlaces, "amount has more than 2 decimal places"),
        (AmountError::NotPositive, "amount must be positive"),
        (AmountError::TooLarge, "amount is too large to represent in piconero"),
    ] {
        assert_eq!(error.message(), words);
    }
}

#[test]
fn spellings_of_one_amount_cost_the_same() {
    for spelling in ["5.5", "5.50", "005.5"] {
        assert_eq!(compute_xmr_amount(spelling, 1_000_003).unwrap(), 5_500_017);
    }
}

#[test]
fn one_xmr_per_unit_is_no_conversion() {
    for amount in ["0.01", "24.99", "18446744.07", "18446744.08"] {
        assert_eq!(
            compute_xmr_amount(amount, 1_000_000_000_000),
            parse_xmr_to_piconero(amount)
        );
    }
}

#[test]
fn display_spellings_come_back_letter_by_letter() {
    for amount in ["0.000000000000", "7.250000000000", "18446744.073709551615"] {
        assert_eq!(format_piconero_as_xmr(parse_xmr_to_piconero(amount).unwrap()), amount);
    }
}
