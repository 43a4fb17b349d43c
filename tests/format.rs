use btc_vanity::config::{exp, AddressKind};
use btc_vanity::format::{decimal_text, fmt_num, fmt_time, progress_bar};

#[test]
fn fmt_num_groups_digits() {
    assert_eq!(fmt_num(0), "0");
    assert_eq!(fmt_num(999), "999");
    assert_eq!(fmt_num(1000), "1,000");
    assert_eq!(fmt_num(1_000_001), "1,000,001");
    assert_eq!(fmt_num(1_234_567), "1,234,567");
    assert_eq!(fmt_num(u64::MAX), "18,446,744,073,709,551,615");
}

#[test]
fn decimal_text_digits() {
    assert_eq!(decimal_text(0), "0");
    assert_eq!(decimal_text(907), "907");
    assert_eq!(decimal_text(u64::MAX), u64::MAX.to_string());
}

#[test]
fn fmt_time_units() {
    assert_eq!(fmt_time(0), "0s");
    assert_eq!(fmt_time(59), "59s");
    assert_eq!(fmt_time(60), "1m0s");
    assert_eq!(fmt_time(3599), "59m59s");
    assert_eq!(fmt_time(3600), "1h0m");
    assert_eq!(fmt_time(86399), "23h59m");
    assert_eq!(fmt_time(86400), "1d0h");
    assert_eq!(fmt_time(90061), "1d1h");
}

#[test]
fn progress_bar_fills_in_proportion() {
    assert_eq!(progress_bar(1, 2, 10), "[=====     ]");
    assert_eq!(progress_bar(0, 1, 3), "[   ]");
    assert_eq!(progress_bar(5, 5, 4), "[====]");
    assert_eq!(progress_bar(9, 5, 4), "[====]");
    assert_eq!(progress_bar(2, 3, 35).len(), 37);
}

#[test]
fn expected_trials_saturate() {
    assert_eq!(exp(0, AddressKind::Legacy), 1);
    assert_eq!(exp(12, AddressKind::SegWit), 1u64 << 60);
    assert_eq!(exp(13, AddressKind::SegWit), u64::MAX);
    assert_eq!(exp(10, AddressKind::P2SH), 58u64.pow(10));
    assert_eq!(exp(11, AddressKind::Legacy), u64::MAX);
}
