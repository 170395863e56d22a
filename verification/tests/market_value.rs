use thetadatadx::market_value::{calculate_market_value, market_value_midpoint};

#[test]
fn calculate_market_value_balanced_book_below_ask() {
    let (mb, ma) = calculate_market_value(15_025, 15_030, 10, 10);
    assert_eq!(ma, 15_029);
    assert_eq!(mb, 15_026);
    assert_eq!(market_value_midpoint(mb, ma), 15_027);
}

#[test]
fn calculate_market_value_ask_heavy_imbalance() {
    let (mb, ma) = calculate_market_value(15_025, 15_030, 5, 40);
    assert_eq!(ma, 15_031);
    assert_eq!(mb, 15_024);
    assert_eq!(market_value_midpoint(mb, ma), 15_027);
}

#[test]
fn calculate_market_value_locked_bid_equals_ask() {
    let (mb, ma) = calculate_market_value(15_030, 15_030, 10, 10);
    assert_eq!(ma, 15_029);
    assert_eq!(mb, 15_029);
    assert_eq!(market_value_midpoint(mb, ma), 15_029);
}

#[test]
fn calculate_market_value_bid_at_or_above_market_ask() {
    let (mb, ma) = calculate_market_value(15_030, 15_031, 10, 10);
    assert_eq!(ma, 15_030);
    assert_eq!(mb, 15_031);
    assert_eq!(market_value_midpoint(mb, ma), 15_030);
}

#[test]
fn calculate_market_value_tiny_ask_unchanged() {
    let (mb, ma) = calculate_market_value(1, 2, 10, 10);
    assert_eq!(ma, 2);
    assert_eq!(mb, 1);
}

#[test]
fn calculate_market_value_zero_bid_balanced_stays_zero() {
    let (mb, ma) = calculate_market_value(0, 50, 10, 10);
    assert_eq!(ma, 49);
    assert_eq!(mb, 0);
}

#[test]
fn calculate_market_value_ask_heavy_bid_one_floor() {
    let (mb, ma) = calculate_market_value(1, 30, 1, 9);
    assert_eq!(ma, 31);
    assert_eq!(mb, 1);
}

#[test]
fn calculate_market_value_saturates_at_i32_extremes() {
    let (mb, ma) = calculate_market_value(15_000, i32::MAX, 0, 1);
    assert_eq!(ma, i32::MAX);
    assert_eq!(mb, 14_999);

    let (mb, ma) = calculate_market_value(0, i32::MIN, 10, 10);
    assert_eq!(ma, i32::MIN);
    assert_eq!(mb, 0);

    let (mb, ma) = calculate_market_value(i32::MAX, i32::MAX - 1, 10, 10);
    assert_eq!(ma, i32::MAX - 2);
    assert_eq!(mb, i32::MAX);

    let (mb, ma) = calculate_market_value(i32::MIN, 100, 10, 10);
    assert_eq!(ma, 99);
    assert_eq!(mb, i32::MIN + 1);

    let (mb, ma) = calculate_market_value(i32::MIN, i32::MIN, 0, 1);
    assert_eq!(ma, i32::MIN + 1);
    assert_eq!(mb, i32::MIN + 1);

    let mid = market_value_midpoint(i32::MAX, i32::MAX);
    assert_eq!(mid, i32::MAX);
    let mid = market_value_midpoint(i32::MIN, i32::MIN);
    assert_eq!(mid, i32::MIN);
}

#[test]
fn midpoint_lies_between_bid_and_ask() {
    for (b, a) in [(15_026, 15_029), (-7, 3), (3, -7), (i32::MIN, i32::MAX), (-1, -2), (5, 5)] {
        let m = market_value_midpoint(b, a);
        assert!(m >= b.min(a) && m <= b.max(a), "{b} {a} -> {m}");
        assert_eq!(m, market_value_midpoint(a, b));
    }
}

#[test]
fn midpoint_truncates_odd_pairs() {
    assert_eq!(market_value_midpoint(3, 4), 3);
    assert_eq!(market_value_midpoint(-3, -4), -3);
    assert_eq!(market_value_midpoint(-3, 4), 1);
}

#[test]
fn locked_book_stays_locked() {
    for (p, bs, asz) in [(15_030, 10, 10), (100, 1, 9), (2, 3, 3), (i32::MIN, 0, 1)] {
        let (mb, ma) = calculate_market_value(p, p, bs, asz);
        assert_eq!(mb, ma);
    }
}
