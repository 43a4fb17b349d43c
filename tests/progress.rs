use btc_vanity::progress::{luck_name, sample, Eta, Luck};

#[test]
fn sample_early_in_a_run() {
    let s = sample(1000, 0, 200, 32768);
    assert_eq!(s.speed, 5000);
    assert_eq!(s.permille, 30);
    assert_eq!(s.luck, Luck::FarAhead);
    assert_eq!(s.eta, Eta::Seconds(6));
    assert_eq!(luck_name(s.luck), "欧皇");
}

#[test]
fn sample_before_any_trial() {
    let s = sample(0, 0, 200, 100);
    assert_eq!(s.speed, 0);
    assert_eq!(s.permille, 0);
    assert_eq!(s.luck, Luck::Behind);
    assert_eq!(s.eta, Eta::Unknown);
}

#[test]
fn sample_past_expectation() {
    let s = sample(200, 100, 200, 100);
    assert_eq!(s.speed, 500);
    assert_eq!(s.permille, 1000);
    assert_eq!(s.luck, Luck::Behind);
    assert_eq!(s.eta, Eta::Imminent);
    let t = sample(150, 150, 1000, 100);
    assert_eq!(t.luck, Luck::OnTrack);
    assert_eq!(t.eta, Eta::Imminent);
    assert_eq!(luck_name(t.luck), "正常");
}

#[test]
fn sample_ahead_of_expectation() {
    let s = sample(60, 0, 1000, 100);
    assert_eq!(s.speed, 60);
    assert_eq!(s.luck, Luck::Ahead);
    assert_eq!(s.eta, Eta::Seconds(0));
    assert_eq!(s.permille, 600);
}
