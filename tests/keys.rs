use btc_vanity::config::{AddressKind, OutputMode};
use btc_vanity::entropy::EntropySource;
use btc_vanity::keys::KeyContext;

fn scalar(k: u8) -> [u8; 32] {
    let mut b = [0u8; 32];
    b[31] = k;
    b
}

#[test]
fn direct_path_known_addresses_of_key_one() {
    let legacy = KeyContext::new(AddressKind::Legacy);
    let c = legacy.derive_direct(&scalar(1)).unwrap();
    assert_eq!(c.address, "1BgGZ9tcN4rm9KBzDn7KprQz87SZ26SAMH");
    assert!(c.phrase().is_none());
    assert_eq!(c.wif(), "KwDiBf89QgGbjEhKnhXJuH7LrciVrZi3qYjgd9M7rFU73sVHnoWn");
    let segwit = KeyContext::new(AddressKind::SegWit);
    let s = segwit.derive_direct(&scalar(1)).unwrap();
    assert_eq!(s.address, "bc1qw508d6qejxtdg4y5r3zarvary0c5xw7kv8f3t4");
}

#[test]
fn direct_path_rejects_invalid_scalars() {
    let ctx = KeyContext::new(AddressKind::Taproot);
    assert!(ctx.derive_direct(&[0u8; 32]).is_none());
    assert!(ctx.derive_direct(&[0xffu8; 32]).is_none());
}

#[test]
fn direct_path_is_deterministic_for_every_kind() {
    let mut src = EntropySource::fast_seeded(42);
    let mut again = EntropySource::fast_seeded(42);
    let bytes = src.next_bytes();
    assert_eq!(bytes, again.next_bytes());
    for (kind, prefix) in [
        (AddressKind::Taproot, "bc1p"),
        (AddressKind::SegWit, "bc1q"),
        (AddressKind::Legacy, "1"),
        (AddressKind::P2SH, "3"),
    ] {
        let ctx = KeyContext::new(kind);
        let a = ctx.derive_direct(&bytes).unwrap();
        let b = ctx.derive_direct(&bytes).unwrap();
        assert_eq!(a.address, b.address);
        assert!(a.address.starts_with(prefix));
    }
}

#[test]
fn mnemonic_path_is_deterministic_for_every_kind() {
    let mut src = EntropySource::fast_seeded(7);
    let bytes = src.next_bytes();
    for (kind, prefix) in [
        (AddressKind::Taproot, "bc1p"),
        (AddressKind::SegWit, "bc1q"),
        (AddressKind::Legacy, "1"),
        (AddressKind::P2SH, "3"),
    ] {
        let ctx = KeyContext::new(kind);
        let a = ctx.derive_mnemonic(&bytes).unwrap();
        let b = ctx.derive_mnemonic(&bytes).unwrap();
        assert_eq!(a.address, b.address);
        assert_eq!(a.phrase(), b.phrase());
        assert_eq!(a.phrase().unwrap().split(' ').count(), 24);
        assert!(a.address.starts_with(prefix));
    }
}

#[test]
fn mnemonic_of_zero_entropy() {
    let ctx = KeyContext::new(AddressKind::SegWit);
    let c = ctx.derive_mnemonic(&[0u8; 32]).unwrap();
    let mut words = vec!["abandon"; 23];
    words.push("art");
    assert_eq!(c.phrase().unwrap(), words.join(" "));
}

#[test]
fn replay_source_cycles() {
    let mut src = EntropySource::replay(vec![scalar(1), scalar(2)]);
    assert_eq!(src.next_bytes(), scalar(1));
    assert_eq!(src.next_bytes(), scalar(2));
    assert_eq!(src.next_bytes(), scalar(1));
}

#[test]
fn mnemonic_secret_gives_the_same_address_directly() {
    for kind in [AddressKind::Taproot, AddressKind::SegWit, AddressKind::Legacy, AddressKind::P2SH] {
        let ctx = KeyContext::new(kind);
        let m = ctx.derive_mnemonic(&[7u8; 32]).unwrap();
        let d = ctx.derive_direct(&m.secret).unwrap();
        assert_eq!(m.address, d.address);
        assert_eq!(m.wif(), d.wif());
        assert_eq!(m.entropy, Some([7u8; 32]));
        assert!(d.entropy.is_none());
    }
}

#[test]
fn derive_follows_the_output_mode() {
    let ctx = KeyContext::new(AddressKind::Legacy);
    let direct = ctx.derive(OutputMode::SecretOnly, &scalar(1)).unwrap();
    assert_eq!(direct.address, "1BgGZ9tcN4rm9KBzDn7KprQz87SZ26SAMH");
    let both = ctx.derive(OutputMode::Both, &scalar(1)).unwrap();
    assert_eq!(both.entropy, Some(scalar(1)));
    assert_ne!(both.address, direct.address);
    assert!(ctx.derive(OutputMode::SecretOnly, &[0u8; 32]).is_none());
}
