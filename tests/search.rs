use btc_vanity::config::{AddressKind, MatchMode, OutputMode};
use btc_vanity::entropy::EntropySource;
use btc_vanity::keys::KeyContext;
use btc_vanity::search::{BatchOutcome, SharedSearchState, Worker};
use btc_vanity::targets::compile_targets;

fn scalar(k: u16) -> [u8; 32] {
    let mut b = [0u8; 32];
    b[30] = (k >> 8) as u8;
    b[31] = k as u8;
    b
}

fn legacy_worker(values: Vec<[u8; 32]>) -> Worker {
    Worker::new(KeyContext::new(AddressKind::Legacy), EntropySource::replay(values))
}

#[test]
fn trial_count_at_match_is_misses_plus_one() {
    // Key 1 has the legacy address 1BgGZ9tcN4rm9KBzDn7KprQz87SZ26SAMH.
    let targets = compile_targets("SAMH", AddressKind::Legacy, MatchMode::Suffix).targets;
    let k = 5;
    let mut values: Vec<[u8; 32]> = (2..2 + k).map(scalar).collect();
    values.push(scalar(1));
    let shared = SharedSearchState::new();
    let mut w = legacy_worker(values);
    match w.run_batch(&shared, &targets, MatchMode::Suffix, OutputMode::SecretOnly, 512) {
        BatchOutcome::Won(f) => {
            assert_eq!(f.address, "1BgGZ9tcN4rm9KBzDn7KprQz87SZ26SAMH");
            assert_eq!(f.target, "SAMH");
            assert_eq!(f.wif.as_deref(), Some("KwDiBf89QgGbjEhKnhXJuH7LrciVrZi3qYjgd9M7rFU73sVHnoWn"));
            assert!(f.mnemonic.is_none());
        }
        _ => panic!("expected a win"),
    }
    assert_eq!(shared.tried(), (k + 1) as u64);
    assert_eq!(w.trials, (k + 1) as u64);
    assert!(shared.is_stopped());
}

#[test]
fn rejected_draws_are_not_counted() {
    let targets = compile_targets("SAMH", AddressKind::Legacy, MatchMode::Suffix).targets;
    let values = vec![[0u8; 32], scalar(2), [0xffu8; 32], scalar(1)];
    let shared = SharedSearchState::new();
    let mut w = legacy_worker(values);
    let out = w.run_batch(&shared, &targets, MatchMode::Suffix, OutputMode::SecretOnly, 64);
    assert!(matches!(out, BatchOutcome::Won(_)));
    assert_eq!(shared.tried(), 2);
}

#[test]
fn misses_are_flushed_at_the_end_of_a_batch() {
    let targets = compile_targets("zzzzzzzz", AddressKind::Legacy, MatchMode::Contains).targets;
    let values: Vec<[u8; 32]> = (1..=10).map(scalar).collect();
    let shared = SharedSearchState::new();
    let mut w = legacy_worker(values);
    let out = w.run_batch(&shared, &targets, MatchMode::Contains, OutputMode::SecretOnly, 64);
    assert!(matches!(out, BatchOutcome::Continue));
    assert_eq!(shared.tried(), 64);
    assert!(!shared.is_stopped());
}

#[test]
fn at_most_one_winner_among_workers() {
    // A cycle of 1,000 values in which key 1 appears twice.
    let mut values: Vec<[u8; 32]> = (2..1002).map(scalar).collect();
    values[3] = scalar(1);
    values[40] = scalar(1);
    let targets = compile_targets("SAMH", AddressKind::Legacy, MatchMode::Suffix).targets;
    let shared = SharedSearchState::new();
    let mut workers: Vec<Worker> = (0..3).map(|_| legacy_worker(values.clone())).collect();
    let mut winners = 0;
    let mut running = vec![true; workers.len()];
    while running.iter().any(|r| *r) {
        for (i, w) in workers.iter_mut().enumerate() {
            if !running[i] {
                continue;
            }
            match w.run_batch(&shared, &targets, MatchMode::Suffix, OutputMode::SecretOnly, 2) {
                BatchOutcome::Continue => {}
                BatchOutcome::Won(_) => {
                    winners += 1;
                    running[i] = false;
                }
                BatchOutcome::Lost | BatchOutcome::Stopped => running[i] = false,
            }
        }
    }
    assert_eq!(winners, 1);
    assert!(shared.is_stopped());
}

#[test]
fn mnemonic_output_reports_the_phrase() {
    let targets = compile_targets("1", AddressKind::Legacy, MatchMode::Contains).targets;
    let shared = SharedSearchState::new();
    let mut w = legacy_worker(vec![[0u8; 32]]);
    match w.run_batch(&shared, &targets, MatchMode::Contains, OutputMode::Both, 8) {
        BatchOutcome::Won(f) => {
            assert!(f.mnemonic.unwrap().ends_with(" art"));
            assert!(f.wif.is_some());
            assert!(f.address.starts_with('1'));
            assert_eq!(f.target, "1");
        }
        _ => panic!("expected a win"),
    }
    assert_eq!(shared.tried(), 1);
}

#[test]
fn a_batch_of_failed_draws_counts_nothing() {
    let targets = compile_targets("SAMH", AddressKind::Legacy, MatchMode::Suffix).targets;
    let shared = SharedSearchState::new();
    let mut w = legacy_worker(vec![[0u8; 32], [0xffu8; 32]]);
    let out = w.run_batch(&shared, &targets, MatchMode::Suffix, OutputMode::SecretOnly, 64);
    assert!(matches!(out, BatchOutcome::Continue));
    assert_eq!(shared.tried(), 0);
    assert_eq!(w.trials, 0);
}
