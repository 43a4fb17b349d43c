use vstd::prelude::*;
use std::str::FromStr;
use bitcoin::secp256k1::{All, PublicKey, Secp256k1, SecretKey};
use bitcoin::bip32::{DerivationPath, Xpriv};
use bitcoin::{Address, Network, PrivateKey};
use bip39::Mnemonic;
use crate::config::{AddressKind, OutputMode, deriv};

verus! {

#[verifier::external_type_specification]
#[verifier::external_body]
pub struct ExBip32Error(bitcoin::bip32::Error);

#[verifier::external_type_specification]
#[verifier::external_body]
pub struct ExAddressError(bitcoin::address::Error);

/// A secp256k1 context for signing and verification. Verus refuses a
/// declaration of `Secp256k1<C>` (its parameter is bound by the outside trait
/// `Context`), so the context is held here, out of Verus's sight.
#[verifier::external_body]
pub struct SigningContext {
    secp: Secp256k1<All>,
}

/// The value of bytes read as a big-endian unsigned integer.
pub open spec fn big_endian_value(b: Seq<u8>) -> nat
    decreases b.len(),
{
    if b.len() == 0 {
        0
    } else {
        big_endian_value(b.drop_last()) * 256 + b.last() as nat
    }
}

/// The order of the secp256k1 group.
pub open spec fn curve_order() -> nat {
    let high: nat = 0xFFFFFFFF_FFFFFFFF_FFFFFFFF_FFFFFFFE;
    let low: nat = 0xBAAEDCE6_AF48A03B_BFD25E8C_D0364141;
    let two_64: nat = 0x1_0000_0000_0000_0000;
    high * two_64 * two_64 + low
}

/// 32 bytes that form a secret key: a nonzero scalar below the curve order.
pub open spec fn is_valid_secret(b: Seq<u8>) -> bool {
    b.len() == 32 && 0 < big_endian_value(b) < curve_order()
}

/// The compressed encoding of the public key of a secret key, as
/// `SecretKey::public_key` and `PublicKey::serialize` give it.
pub uninterp spec fn public_key_bytes(secret: Seq<u8>) -> Seq<u8>;

/// The mainnet key-path taproot address of a public key, as `Address::p2tr`
/// writes it.
pub uninterp spec fn p2tr_text(public_key: Seq<u8>) -> Seq<char>;

/// The mainnet P2WPKH address of a compressed public key, as `Address::p2wpkh` writes it.
pub uninterp spec fn p2wpkh_text(public_key: Seq<u8>) -> Seq<char>;

/// The mainnet P2PKH address of a compressed public key, as `Address::p2pkh` writes it.
pub uninterp spec fn p2pkh_text(public_key: Seq<u8>) -> Seq<char>;

/// The mainnet P2SH-P2WPKH address of a compressed public key, as
/// `Address::p2shwpkh` writes it.
pub uninterp spec fn p2shwpkh_text(public_key: Seq<u8>) -> Seq<char>;

/// The seed of the mnemonic of the entropy with an empty passphrase, as
/// `Mnemonic::to_seed` gives it.
pub uninterp spec fn bip39_seed(entropy: Seq<u8>) -> Seq<u8>;

/// The English mnemonic phrase of the entropy, as the `Display` of `Mnemonic` writes it.
pub uninterp spec fn bip39_phrase(entropy: Seq<u8>) -> Seq<char>;

/// The encoded mainnet master key of a seed, as `Xpriv::new_master` and
/// `Xpriv::encode` give it; `None` where `new_master` fails.
pub uninterp spec fn bip32_master(seed: Seq<u8>) -> Option<Seq<u8>>;

/// The secret key of the child of an encoded extended key along a path, as
/// `Xpriv::derive_priv` gives it; `None` where it fails.
pub uninterp spec fn bip32_child(path: Seq<char>, master: Seq<u8>) -> Option<Seq<u8>>;

/// The wallet import format of a mainnet compressed secret key, as
/// `PrivateKey::to_wif` writes it.
pub uninterp spec fn wif_text(secret: Seq<u8>) -> Seq<char>;

/// The address of a secret key for an address kind.
pub open spec fn key_address(kind: AddressKind, secret: Seq<u8>) -> Seq<char> {
    let pk = public_key_bytes(secret);
    match kind {
        AddressKind::Taproot => p2tr_text(pk),
        AddressKind::SegWit => p2wpkh_text(pk),
        AddressKind::Legacy => p2pkh_text(pk),
        AddressKind::P2SH => p2shwpkh_text(pk),
    }
}

/// The fixed derivation path of the mnemonic path for an address kind.
pub open spec fn derivation_path(kind: AddressKind) -> Seq<char> {
    match kind {
        AddressKind::Taproot => "m/86'/0'/0'/0/0"@,
        AddressKind::SegWit => "m/84'/0'/0'/0/0"@,
        _ => "m/44'/0'/0'/0/0"@,
    }
}

pub open spec fn is_derivation_path(path: Seq<char>) -> bool {
    exists|k: AddressKind| path == derivation_path(k)
}

/// The secret key that the mnemonic path derives from the entropy, if every
/// step succeeds.
pub open spec fn mnemonic_secret(kind: AddressKind, entropy: Seq<u8>) -> Option<Seq<u8>> {
    match bip32_master(bip39_seed(entropy)) {
        Some(master) => bip32_child(derivation_path(kind), master),
        None => None,
    }
}

/// The address that the mnemonic path derives from the entropy.
pub open spec fn mnemonic_address(kind: AddressKind, entropy: Seq<u8>) -> Option<Seq<char>> {
    match mnemonic_secret(kind, entropy) {
        Some(secret) => Some(key_address(kind, secret)),
        None => None,
    }
}

/// The address that the direct-secret path derives from the bytes.
pub open spec fn direct_address(kind: AddressKind, bytes: Seq<u8>) -> Option<Seq<char>> {
    if is_valid_secret(bytes) {
        Some(key_address(kind, bytes))
    } else {
        None
    }
}

/// The address a draw of `bytes` yields under an output mode: secret-only
/// output takes the direct-secret path, the others the mnemonic path.
pub open spec fn draw_address(kind: AddressKind, output: OutputMode, bytes: Seq<u8>) -> Option<
    Seq<char>,
> {
    if output == OutputMode::SecretOnly {
        direct_address(kind, bytes)
    } else {
        mnemonic_address(kind, bytes)
    }
}

/// The secret key behind a draw of `bytes` under an output mode.
pub open spec fn draw_secret(kind: AddressKind, output: OutputMode, bytes: Seq<u8>) -> Option<
    Seq<u8>,
> {
    if output == OutputMode::SecretOnly {
        if is_valid_secret(bytes) {
            Some(bytes)
        } else {
            None
        }
    } else {
        mnemonic_secret(kind, bytes)
    }
}

/// Relies on `Secp256k1::new`: a fresh context for signing and verification.
#[verifier::external_body]
fn new_context() -> (r: SigningContext) {
    SigningContext { secp: Secp256k1::new() }
}

/// Relies on `SecretKey::from_slice`: 32 bytes are accepted exactly when they
/// form a nonzero scalar below the curve order.
#[verifier::external_body]
fn is_secret_key(b: &[u8; 32]) -> (r: bool)
    ensures
        r == is_valid_secret(b@),
{
    SecretKey::from_slice(b).is_ok()
}

/// Relies on `SecretKey::public_key`, with the key read by
/// `SecretKey::from_slice` and written by `PublicKey::serialize`.
#[verifier::external_body]
fn public_key_of(ctx: &SigningContext, secret: &[u8; 32]) -> (r: [u8; 33])
    requires
        is_valid_secret(secret@),
    ensures
        r@ == public_key_bytes(secret@),
{
    SecretKey::from_slice(secret).expect("a valid secret key").public_key(&ctx.secp).serialize()
}

/// Bytes that `public_key_of` gives for some secret key.
pub open spec fn is_public_key(pk: Seq<u8>) -> bool {
    exists|s: Seq<u8>| is_valid_secret(s) && pk == public_key_bytes(s)
}

/// Relies on `Address::p2tr` with no script tree, on mainnet, for the x-only
/// form of the key read by `PublicKey::from_slice`, written by its `Display`.
#[verifier::external_body]
fn taproot_address(ctx: &SigningContext, pk: &[u8; 33]) -> (r: String)
    requires
        is_public_key(pk@),
    ensures
        r@ == p2tr_text(pk@),
{
    let x = PublicKey::from_slice(pk).expect("a serialized public key").x_only_public_key().0;
    Address::p2tr(&ctx.secp, x, None, Network::Bitcoin).to_string()
}

/// Relies on `Address::p2wpkh` on mainnet, written by its `Display`. The key
/// read by `PublicKey::from_slice` is made compressed by `bitcoin::PublicKey::new`,
/// and `p2wpkh` fails on uncompressed keys alone.
#[verifier::external_body]
fn p2wpkh_address(pk: &[u8; 33]) -> (r: Result<String, bitcoin::address::Error>)
    requires
        is_public_key(pk@),
    ensures
        r is Ok,
        r is Ok ==> r->Ok_0@ == p2wpkh_text(pk@),
{
    let key = bitcoin::PublicKey::new(PublicKey::from_slice(pk).expect("a serialized public key"));
    match Address::p2wpkh(&key, Network::Bitcoin) {
        Ok(a) => Ok(a.to_string()),
        Err(e) => Err(e),
    }
}

/// Relies on `Address::p2pkh` on mainnet for the compressed key read by
/// `PublicKey::from_slice`, written by its `Display`.
#[verifier::external_body]
fn p2pkh_address(pk: &[u8; 33]) -> (r: String)
    requires
        is_public_key(pk@),
    ensures
        r@ == p2pkh_text(pk@),
{
    let key = bitcoin::PublicKey::new(PublicKey::from_slice(pk).expect("a serialized public key"));
    Address::p2pkh(&key, Network::Bitcoin).to_string()
}

/// Relies on `Address::p2shwpkh` on mainnet, written by its `Display`. The key
/// read by `PublicKey::from_slice` is made compressed by `bitcoin::PublicKey::new`,
/// and `p2shwpkh` fails on uncompressed keys alone.
#[verifier::external_body]
fn p2shwpkh_address(pk: &[u8; 33]) -> (r: Result<String, bitcoin::address::Error>)
    requires
        is_public_key(pk@),
    ensures
        r is Ok,
        r is Ok ==> r->Ok_0@ == p2shwpkh_text(pk@),
{
    let key = bitcoin::PublicKey::new(PublicKey::from_slice(pk).expect("a serialized public key"));
    match Address::p2shwpkh(&key, Network::Bitcoin) {
        Ok(a) => Ok(a.to_string()),
        Err(e) => Err(e),
    }
}

/// Relies on `Mnemonic::to_seed` with an empty passphrase, for the mnemonic
/// that `Mnemonic::from_entropy` makes of 32 bytes (it accepts any 32 bytes).
#[verifier::external_body]
fn mnemonic_seed(entropy: &[u8; 32]) -> (r: [u8; 64])
    ensures
        r@ == bip39_seed(entropy@),
{
    Mnemonic::from_entropy(entropy).expect("32 bytes of entropy").to_seed("")
}

/// Relies on the `Display` of `Mnemonic`, for the mnemonic that
/// `Mnemonic::from_entropy` makes of 32 bytes (it accepts any 32 bytes).
#[verifier::external_body]
fn mnemonic_phrase(entropy: &[u8; 32]) -> (r: String)
    ensures
        r@ == bip39_phrase(entropy@),
{
    Mnemonic::from_entropy(entropy).expect("32 bytes of entropy").to_string()
}

/// Relies on `Xpriv::new_master` on mainnet, the key written by `Xpriv::encode`.
#[verifier::external_body]
fn master_key(seed: &[u8; 64]) -> (r: Result<[u8; 78], bitcoin::bip32::Error>)
    ensures
        r is Ok <==> bip32_master(seed@) is Some,
        r matches Ok(k) ==> k@ == bip32_master(seed@)->0,
{
    match Xpriv::new_master(Network::Bitcoin, seed) {
        Ok(k) => Ok(k.encode()),
        Err(e) => Err(e),
    }
}

/// Relies on `Xpriv::derive_priv`, for the key read back by `Xpriv::decode`
/// and the path read by `DerivationPath::from_str`; the child's secret key,
/// a valid one, is returned as its bytes.
#[verifier::external_body]
fn derive_child(ctx: &SigningContext, master: &[u8; 78], path: &str) -> (r: Result<
    [u8; 32],
    bitcoin::bip32::Error,
>)
    requires
        exists|seed: Seq<u8>| bip32_master(seed) == Some(master@),
        is_derivation_path(path@),
    ensures
        r is Ok <==> bip32_child(path@, master@) is Some,
        r matches Ok(k) ==> k@ == bip32_child(path@, master@)->0 && is_valid_secret(k@),
{
    let p = DerivationPath::from_str(path).expect("a fixed derivation path");
    let k = Xpriv::decode(master).expect("an encoded master key");
    match k.derive_priv(&ctx.secp, &p) {
        Ok(c) => Ok(c.private_key.secret_bytes()),
        Err(e) => Err(e),
    }
}

/// Relies on `PrivateKey::to_wif` for the mainnet compressed key read by
/// `SecretKey::from_slice`.
#[verifier::external_body]
fn wif_of(secret: &[u8; 32]) -> (r: String)
    requires
        is_valid_secret(secret@),
    ensures
        r@ == wif_text(secret@),
{
    let key = SecretKey::from_slice(secret).expect("a valid secret key");
    PrivateKey::new(key, Network::Bitcoin).to_wif()
}

/// What one worker needs to turn randomness into addresses of one kind.
pub struct KeyContext {
    secp: SigningContext,
    kind: AddressKind,
}

/// One successful draw: its address, its secret key, and the entropy of its
/// mnemonic where it took the mnemonic path.
pub struct Candidate {
    pub address: String,
    pub secret: [u8; 32],
    pub entropy: Option<[u8; 32]>,
}

impl KeyContext {
    pub closed spec fn kind(&self) -> AddressKind {
        self.kind
    }

    /// The context for an address kind.
    pub fn new(kind: AddressKind) -> (r: KeyContext)
        ensures
            r.kind() == kind,
    {
        KeyContext { secp: new_context(), kind }
    }

    /// The address of a secret key for the context's kind.
    pub fn address_for_key(&self, secret: &[u8; 32]) -> (r: String)
        requires
            is_valid_secret(secret@),
        ensures
            r@ == key_address(self.kind(), secret@),
    {
        let pk = public_key_of(&self.secp, secret);
        assert(is_public_key(pk@)) by {
            assert(is_valid_secret(secret@) && pk@ == public_key_bytes(secret@));
        }
        match self.kind {
            AddressKind::Taproot => taproot_address(&self.secp, &pk),
            AddressKind::SegWit => match p2wpkh_address(&pk) {
                Ok(a) => a,
                Err(_) => String::new(),
            },
            AddressKind::Legacy => p2pkh_address(&pk),
            AddressKind::P2SH => match p2shwpkh_address(&pk) {
                Ok(a) => a,
                Err(_) => String::new(),
            },
        }
    }

    /// Direct-secret path: the bytes are the secret key; `None` where they do
    /// not form one. No mnemonic.
    pub fn derive_direct(&self, bytes: &[u8; 32]) -> (r: Option<Candidate>)
        ensures
            r is Some <==> is_valid_secret(bytes@),
            r matches Some(c) ==> {
                &&& c.address@ == key_address(self.kind(), bytes@)
                &&& c.secret@ == bytes@
                &&& c.entropy is None
            },
    {
        if is_secret_key(bytes) {
            let address = self.address_for_key(bytes);
            Some(Candidate { address, secret: *bytes, entropy: None })
        } else {
            None
        }
    }

    /// Mnemonic path: the bytes are the entropy of a 24-word phrase, whose seed
    /// (empty passphrase) gives a master key, whose child along the kind's
    /// path holds the secret key. `None` where a step fails.
    pub fn derive_mnemonic(&self, bytes: &[u8; 32]) -> (r: Option<Candidate>)
        ensures
            r is Some <==> mnemonic_secret(self.kind(), bytes@) is Some,
            r matches Some(c) ==> {
                &&& mnemonic_secret(self.kind(), bytes@) == Some(c.secret@)
                &&& is_valid_secret(c.secret@)
                &&& c.address@ == key_address(self.kind(), c.secret@)
                &&& c.entropy == Some(*bytes)
            },
    {
        let seed = mnemonic_seed(bytes);
        let master = match master_key(&seed) {
            Ok(k) => k,
            Err(_) => return None,
        };
        let path = deriv(self.kind);
        proof {
            reveal_strlit("m/86'/0'/0'/0/0");
            reveal_strlit("m/84'/0'/0'/0/0");
            reveal_strlit("m/44'/0'/0'/0/0");
            assert(path@ == derivation_path(self.kind));
            assert(bip32_master(seed@) == Some(master@));
        }
        let secret = match derive_child(&self.secp, &master, path) {
            Ok(k) => k,
            Err(_) => return None,
        };
        let address = self.address_for_key(&secret);
        Some(Candidate { address, secret, entropy: Some(*bytes) })
    }

    /// One draw under an output mode: the direct-secret path for secret-only
    /// output, the mnemonic path for the others.
    pub fn derive(&self, output: OutputMode, bytes: &[u8; 32]) -> (r: Option<Candidate>)
        ensures
            match r {
                Some(c) => {
                    &&& draw_address(self.kind(), output, bytes@) == Some(c.address@)
                    &&& draw_secret(self.kind(), output, bytes@) == Some(c.secret@)
                    &&& is_valid_secret(c.secret@)
                    &&& (output == OutputMode::SecretOnly ==> c.entropy is None)
                    &&& (output != OutputMode::SecretOnly ==> c.entropy == Some(*bytes))
                },
                None => draw_address(self.kind(), output, bytes@) is None,
            },
    {
        match output {
            OutputMode::SecretOnly => self.derive_direct(bytes),
            _ => self.derive_mnemonic(bytes),
        }
    }
}

impl Candidate {
    /// The wallet import format of the secret key.
    pub fn wif(&self) -> (r: String)
        requires
            is_valid_secret(self.secret@),
        ensures
            r@ == wif_text(self.secret@),
    {
        wif_of(&self.secret)
    }

    /// The mnemonic phrase, where the candidate took the mnemonic path.
    pub fn phrase(&self) -> (r: Option<String>)
        ensures
            match r {
                Some(p) => self.entropy matches Some(e) && p@ == bip39_phrase(e@),
                None => self.entropy is None,
            },
    {
        match &self.entropy {
            Some(e) => Some(mnemonic_phrase(e)),
            None => None,
        }
    }
}

/// A fixed byte sequence yields the same address, and the same secret key,
/// each time it is drawn for the same address kind, on the direct-secret path
/// and on the mnemonic path alike.
pub proof fn lemma_draw_repeatable(
    kind: AddressKind,
    output: OutputMode,
    bytes: Seq<u8>,
    first: Option<Seq<char>>,
    second: Option<Seq<char>>,
)
    requires
        first == draw_address(kind, output, bytes),
        second == draw_address(kind, output, bytes),
    ensures
        first == second,
        output == OutputMode::SecretOnly ==> first == direct_address(kind, bytes),
        output != OutputMode::SecretOnly ==> first == mnemonic_address(kind, bytes),
{
}

} // verus!
