use waybar_cookie_clicker::format::cookies;

/// Micro-cookies for an amount of cookies.
fn micro(x: f64) -> u128 {
    (x * 1_000_000.0).round() as u128
}

#[test]
fn formats_zero() {
    assert_eq!(cookies(micro(0.0)), "0");
}

#[test]
fn formats_below_thousand() {
    assert_eq!(cookies(micro(1.0)), "1");
    assert_eq!(cookies(micro(999.0)), "999");
}

#[test]
fn formats_thousands() {
    assert_eq!(cookies(micro(1_000.0)), "1.0k");
    assert_eq!(cookies(micro(1_500.0)), "1.5k");
    assert_eq!(cookies(micro(999_900.0)), "999.9k");
}

#[test]
fn formats_millions() {
    assert_eq!(cookies(micro(1_000_000.0)), "1.0M");
    assert_eq!(cookies(micro(2_500_000.0)), "2.5M");
}

#[test]
fn formats_billions() {
    assert_eq!(cookies(micro(1_000_000_000.0)), "1.0B");
}

#[test]
fn formats_trillions() {
    assert_eq!(cookies(micro(1_000_000_000_000.0)), "1.0T");
    assert_eq!(cookies(micro(5_000_000_000_000.0)), "5.0T");
}

#[test]
fn formats_fractions_rounded_to_nearest() {
    assert_eq!(cookies(micro(0.4)), "0");
    assert_eq!(cookies(micro(0.6)), "1");
    assert_eq!(cookies(micro(999.6)), "1000");
    assert_eq!(cookies(micro(1_049.0)), "1.0k");
    assert_eq!(cookies(micro(1_051.0)), "1.1k");
    assert_eq!(cookies(micro(999_960.0)), "1000.0k");
}

#[test]
fn formats_ties_to_even() {
    assert_eq!(cookies(micro(0.5)), "0");
    assert_eq!(cookies(micro(1.5)), "2");
    assert_eq!(cookies(micro(2.5)), "2");
    assert_eq!(cookies(micro(1_250.0)), "1.2k");
    assert_eq!(cookies(micro(1_350.0)), "1.4k");
}

#[test]
fn formats_largest_amount() {
    assert_eq!(cookies(u128::MAX), "340282366920938422272.0T");
}

#[test]
fn formats_the_double_nearest_to_the_amount() {
    // 1.15 and 1.05 are not doubles: the nearest ones lie just below and
    // just above them.
    assert_eq!(cookies(micro(1_150.0)), "1.1k");
    assert_eq!(cookies(micro(1_050.0)), "1.1k");
    assert_eq!(cookies(micro(2_650_000.0)), "2.6M");
}

/// The amount written as the game writes a double.
fn written_as_double(n: u128) -> String {
    let x = n as f64 / 1_000_000.0;
    if x < 1_000.0 {
        format!("{x:.0}")
    } else if x < 1_000_000.0 {
        format!("{:.1}k", x / 1_000.0)
    } else if x < 1_000_000_000.0 {
        format!("{:.1}M", x / 1_000_000.0)
    } else if x < 1_000_000_000_000.0 {
        format!("{:.1}B", x / 1_000_000_000.0)
    } else {
        format!("{:.1}T", x / 1_000_000_000_000.0)
    }
}

#[test]
fn agrees_with_double_arithmetic() {
    let mut seed: u64 = 0x2545_f491_4f6c_dd1d;
    for i in 0..20_000u64 {
        seed ^= seed << 13;
        seed ^= seed >> 7;
        seed ^= seed << 17;
        // amounts of every size below 2^53 micro-cookies, where the amount
        // itself is a double
        let bits = i % 54;
        let n = (seed >> (64 - bits.max(1))) as u128;
        assert_eq!(cookies(n), written_as_double(n), "amount {n}");
    }
    for k in 0..20_000u128 {
        let n = k * 50_000_000;
        assert_eq!(cookies(n), written_as_double(n), "amount {n}");
    }
}
