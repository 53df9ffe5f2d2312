use clock_frequency_measurement::decimal::{append_digits, count_digits, render_decimal, MAX_DIGITS};

#[test]
fn digit_counts_at_the_powers_of_ten() {
    assert_eq!(count_digits(0), 1);
    assert_eq!(count_digits(9), 1);
    assert_eq!(count_digits(10), 2);
    assert_eq!(count_digits(99), 2);
    assert_eq!(count_digits(100), 3);
    assert_eq!(count_digits(999), 3);
    assert_eq!(count_digits(1000), 4);
    assert_eq!(count_digits(65_535), 5);
    assert_eq!(count_digits(999_999_999), 9);
    assert_eq!(count_digits(1_000_000_000), 10);
    assert_eq!(count_digits(u32::MAX), 10);
    assert_eq!(MAX_DIGITS, 10);
}

#[test]
fn decimal_has_no_leading_zeros() {
    assert_eq!(render_decimal(0), "0");
    assert_eq!(render_decimal(7), "7");
    assert_eq!(render_decimal(48), "48");
    assert_eq!(render_decimal(100), "100");
    assert_eq!(render_decimal(65_535), "65535");
    assert_eq!(render_decimal(1_234_567_890), "1234567890");
    assert_eq!(render_decimal(u32::MAX), "4294967295");
}

#[test]
fn decimal_agrees_with_the_standard_rendering() {
    let mut n: u32 = 0;
    for _ in 0..2000 {
        assert_eq!(render_decimal(n), n.to_string());
        n = n.wrapping_mul(1_664_525).wrapping_add(1_013_904_223);
    }
}

#[test]
fn digits_are_padded_with_zeros() {
    let mut out = String::new();
    append_digits(&mut out, 0, 3);
    assert_eq!(out, "000");
    let mut out = String::new();
    append_digits(&mut out, 7, 3);
    assert_eq!(out, "007");
    let mut out = String::new();
    append_digits(&mut out, 237, 3);
    assert_eq!(out, "237");
    let mut out = String::new();
    append_digits(&mut out, 42, 10);
    assert_eq!(out, "0000000042");
}

#[test]
fn digits_wider_than_any_number_are_all_there() {
    let mut out = String::new();
    append_digits(&mut out, 42, 15);
    assert_eq!(out, "000000000000042");
    let mut out = String::new();
    append_digits(&mut out, u32::MAX, 12);
    assert_eq!(out, "004294967295");
    let mut out = String::new();
    append_digits(&mut out, 0, 40);
    assert_eq!(out, "0".repeat(40));
}

#[test]
fn digits_keep_what_was_there() {
    let mut out = String::from("x=");
    append_digits(&mut out, 15, 4);
    assert_eq!(out, "x=0015");
    append_digits(&mut out, 9, 1);
    assert_eq!(out, "x=00159");
}

#[test]
fn digits_of_width_zero_append_nothing() {
    let mut out = String::from("abc");
    append_digits(&mut out, 123, 0);
    assert_eq!(out, "abc");
}

#[test]
fn digits_narrower_than_the_number_keep_the_low_places() {
    let mut out = String::new();
    append_digits(&mut out, 1234, 2);
    assert_eq!(out, "34");
    let mut out = String::new();
    append_digits(&mut out, u32::MAX, 9);
    assert_eq!(out, "294967295");
}
