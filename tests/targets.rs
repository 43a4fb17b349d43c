use btc_vanity::config::{
    address_kind_for_key, exp, match_mode_for_key, output_mode_for_key, rng_mode_for_key,
    AddressKind, MatchMode, OutputMode, RngMode, Settings, DEFAULT_BATCH_SIZE,
};
use btc_vanity::targets::{compile_targets, make_target, min_expected_trials, validate, CompiledTargets};

fn pairs(c: &CompiledTargets) -> Vec<(String, String)> {
    c.targets.iter().map(|t| (t.raw.clone(), t.full.clone())).collect()
}

#[test]
fn segwit_prefix_scenario_shape() {
    let t = make_target("abc".to_string(), AddressKind::SegWit, MatchMode::Prefix);
    assert_eq!(t.raw, "abc");
    assert_eq!(t.full, "bc1qabc");
    assert_eq!(exp(3, AddressKind::SegWit), 32768);
}

#[test]
fn segwit_abc_holds_a_letter_outside_bech32() {
    // 'b' is not in the bech32 alphabet, so the segment is dropped.
    let c = compile_targets("abc", AddressKind::SegWit, MatchMode::Prefix);
    assert!(c.targets.is_empty());
    assert_eq!(c.rejected, vec!["abc".to_string()]);
}

#[test]
fn segwit_prefix_valid_pattern() {
    let c = compile_targets("ac", AddressKind::SegWit, MatchMode::Prefix);
    assert_eq!(pairs(&c), vec![("ac".to_string(), "bc1qac".to_string())]);
    assert_eq!(min_expected_trials(&c.targets, AddressKind::SegWit), 1024);
}

#[test]
fn legacy_suffix_keeps_case() {
    let c = compile_targets("Test", AddressKind::Legacy, MatchMode::Suffix);
    assert_eq!(pairs(&c), vec![("Test".to_string(), "Test".to_string())]);
    assert!(c.rejected.is_empty());
    assert_eq!(exp(4, AddressKind::Legacy), 58u64.pow(4));
    assert_eq!(exp(4, AddressKind::Legacy), 11_316_496);
    assert_eq!(min_expected_trials(&c.targets, AddressKind::Legacy), 11_316_496);
}

#[test]
fn bech32_targets_are_lowercased() {
    let c = compile_targets("QPZ, Ac7", AddressKind::Taproot, MatchMode::Contains);
    assert_eq!(
        pairs(&c),
        vec![("qpz".to_string(), "qpz".to_string()), ("ac7".to_string(), "ac7".to_string())]
    );
    assert_eq!(validate("XY", AddressKind::SegWit), Some("xy".to_string()));
}

#[test]
fn base58_rejects_ambiguous_characters() {
    assert_eq!(validate("0OIl", AddressKind::Legacy), None);
    assert_eq!(validate("good", AddressKind::P2SH), Some("good".to_string()));
    assert_eq!(validate("Good", AddressKind::Legacy), Some("Good".to_string()));
}

#[test]
fn rejected_segment_leaves_the_others() {
    let c = compile_targets("qq,xb!,pp", AddressKind::SegWit, MatchMode::Suffix);
    assert_eq!(
        pairs(&c),
        vec![("qq".to_string(), "qq".to_string()), ("pp".to_string(), "pp".to_string())]
    );
    assert_eq!(c.rejected, vec!["xb!".to_string()]);
}

#[test]
fn empty_segments_are_discarded() {
    let c = compile_targets(" , ,q ,", AddressKind::SegWit, MatchMode::Prefix);
    assert_eq!(pairs(&c), vec![("q".to_string(), "bc1qq".to_string())]);
    assert!(c.rejected.is_empty());
    let none = compile_targets("", AddressKind::Legacy, MatchMode::Prefix);
    assert!(none.targets.is_empty());
    assert_eq!(min_expected_trials(&none.targets, AddressKind::Legacy), 1);
}

#[test]
fn prefix_mode_prepends_the_address_prefix() {
    let t = compile_targets("ab", AddressKind::Taproot, MatchMode::Prefix);
    assert!(t.targets.is_empty());
    let l = compile_targets("abc", AddressKind::Legacy, MatchMode::Prefix);
    assert_eq!(pairs(&l), vec![("abc".to_string(), "1abc".to_string())]);
    let p = compile_targets("abc", AddressKind::P2SH, MatchMode::Prefix);
    assert_eq!(pairs(&p), vec![("abc".to_string(), "3abc".to_string())]);
    let s = compile_targets("ac", AddressKind::Taproot, MatchMode::Prefix);
    assert_eq!(pairs(&s), vec![("ac".to_string(), "bc1pac".to_string())]);
}

#[test]
fn other_modes_keep_the_pattern() {
    let c = compile_targets("1abc", AddressKind::Legacy, MatchMode::Contains);
    assert_eq!(pairs(&c), vec![("1abc".to_string(), "1abc".to_string())]);
}

#[test]
fn compiling_twice_gives_the_same_targets() {
    let raw = "Abc, zz9 ,, Q!";
    let a = compile_targets(raw, AddressKind::SegWit, MatchMode::Prefix);
    let b = compile_targets(raw, AddressKind::SegWit, MatchMode::Prefix);
    assert_eq!(pairs(&a), pairs(&b));
    assert_eq!(a.rejected, b.rejected);
}

#[test]
fn min_expected_takes_the_shortest_target() {
    let c = compile_targets("abcd,ab,abc", AddressKind::Legacy, MatchMode::Contains);
    assert_eq!(min_expected_trials(&c.targets, AddressKind::Legacy), 58 * 58);
}

#[test]
fn settings_setters_check_their_bounds() {
    let mut s = Settings::default();
    assert_eq!(s.batch_size, DEFAULT_BATCH_SIZE);
    assert_eq!(s.addr_type, AddressKind::Taproot);
    assert!(!s.set_batch_size(63));
    assert!(s.set_batch_size(64));
    assert!(s.set_batch_size(2048));
    assert!(!s.set_batch_size(2049));
    assert_eq!(s.batch_size, 2048);
    assert!(!s.set_threads(0, 4));
    assert!(!s.set_threads(5, 4));
    assert!(s.set_threads(4, 4));
    assert_eq!(s.threads, 4);
}

#[test]
fn menu_keys_choose_settings() {
    assert_eq!(address_kind_for_key('4'), Some(AddressKind::P2SH));
    assert_eq!(address_kind_for_key('5'), None);
    assert_eq!(match_mode_for_key('2'), Some(MatchMode::Suffix));
    assert_eq!(output_mode_for_key('2'), Some(OutputMode::SecretOnly));
    assert_eq!(rng_mode_for_key('2'), Some(RngMode::Fast));
    assert_eq!(rng_mode_for_key('\x1b'), None);
}
