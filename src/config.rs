use vstd::prelude::*;

verus! {

/// The address format family searched for.
#[derive(Clone, Copy, Debug, PartialEq, Eq, Structural)]
pub enum AddressKind {
    Taproot,
    SegWit,
    Legacy,
    P2SH,
}

/// How a compiled target is tested against a candidate address.
#[derive(Clone, Copy, Debug, PartialEq, Eq, Structural)]
pub enum MatchMode {
    Prefix,
    Suffix,
    Contains,
}

/// What secret material a found address is reported with.
/// `SecretOnly` takes the direct-secret path, the others the mnemonic path.
#[derive(Clone, Copy, Debug, PartialEq, Eq, Structural)]
pub enum OutputMode {
    MnemonicOnly,
    SecretOnly,
    Both,
}

/// Where candidate randomness comes from. `Fast` is not safe for real funds.
#[derive(Clone, Copy, Debug, PartialEq, Eq, Structural)]
pub enum RngMode {
    Secure,
    Fast,
}

pub const BECH32: &'static str = "qpzry9x8gf2tvdw0s3jn54khce6mua7l";

pub const BASE58: &'static str = "123456789ABCDEFGHJKLMNPQRSTUVWXYZabcdefghijkmnopqrstuvwxyz";

pub const DEFAULT_BATCH_SIZE: u64 = 512;

pub const MIN_BATCH_SIZE: u64 = 64;

pub const MAX_BATCH_SIZE: u64 = 2048;

pub open spec fn bech32_alphabet() -> Seq<char> {
    seq![
        'q', 'p', 'z', 'r', 'y', '9', 'x', '8', 'g', 'f', '2', 't', 'v', 'd', 'w', '0',
        's', '3', 'j', 'n', '5', '4', 'k', 'h', 'c', 'e', '6', 'm', 'u', 'a', '7', 'l',
    ]
}

pub open spec fn base58_alphabet() -> Seq<char> {
    seq![
        '1', '2', '3', '4', '5', '6', '7', '8', '9',
        'A', 'B', 'C', 'D', 'E', 'F', 'G', 'H', 'J', 'K', 'L', 'M', 'N', 'P', 'Q', 'R',
        'S', 'T', 'U', 'V', 'W', 'X', 'Y', 'Z',
        'a', 'b', 'c', 'd', 'e', 'f', 'g', 'h', 'i', 'j', 'k', 'm', 'n', 'o', 'p', 'q',
        'r', 's', 't', 'u', 'v', 'w', 'x', 'y', 'z',
    ]
}

pub open spec fn uses_bech32(a: AddressKind) -> bool {
    a == AddressKind::Taproot || a == AddressKind::SegWit
}

/// The characters an address of this kind is written with.
pub open spec fn alphabet(a: AddressKind) -> Seq<char> {
    if uses_bech32(a) {
        bech32_alphabet()
    } else {
        base58_alphabet()
    }
}

pub open spec fn alphabet_size(a: AddressKind) -> nat {
    if uses_bech32(a) {
        32
    } else {
        58
    }
}

/// What every address of this kind starts with.
pub open spec fn address_prefix(a: AddressKind) -> Seq<char> {
    match a {
        AddressKind::Taproot => seq!['b', 'c', '1', 'p'],
        AddressKind::SegWit => seq!['b', 'c', '1', 'q'],
        AddressKind::Legacy => seq!['1'],
        AddressKind::P2SH => seq!['3'],
    }
}

pub open spec fn power(b: nat, e: nat) -> nat
    decreases e,
{
    if e == 0 {
        1
    } else {
        b * power(b, (e - 1) as nat)
    }
}

/// Expected number of independent draws to hit a target of `len` characters,
/// held at `u64::MAX` where it does not fit.
pub open spec fn expected_trials(len: nat, a: AddressKind) -> nat {
    let p = power(alphabet_size(a), len);
    if p <= u64::MAX {
        p
    } else {
        u64::MAX as nat
    }
}

pub proof fn lemma_power_grows(b: nat, e1: nat, e2: nat)
    requires
        b >= 1,
        e1 <= e2,
    ensures
        power(b, e1) <= power(b, e2),
    decreases e2,
{
    if e1 < e2 {
        lemma_power_grows(b, e1, (e2 - 1) as nat);
        assert(power(b, (e2 - 1) as nat) <= b * power(b, (e2 - 1) as nat)) by (nonlinear_arith)
            requires
                b >= 1,
        ;
    }
}

/// The alphabet of the address kind.
pub fn charset(a: AddressKind) -> (r: &'static str)
    ensures
        r@ == alphabet(a),
{
    proof {
        reveal_strlit("qpzry9x8gf2tvdw0s3jn54khce6mua7l");
        reveal_strlit("123456789ABCDEFGHJKLMNPQRSTUVWXYZabcdefghijkmnopqrstuvwxyz");
    }
    match a {
        AddressKind::Taproot | AddressKind::SegWit => {
            assert(BECH32@ =~= bech32_alphabet());
            BECH32
        },
        _ => {
            assert(BASE58@ =~= base58_alphabet());
            BASE58
        },
    }
}

pub fn is_bech32(a: AddressKind) -> (r: bool)
    ensures
        r == uses_bech32(a),
{
    match a {
        AddressKind::Taproot | AddressKind::SegWit => true,
        _ => false,
    }
}

/// Size of the alphabet of the address kind.
pub fn base(a: AddressKind) -> (r: u64)
    ensures
        r as nat == alphabet_size(a),
{
    match a {
        AddressKind::Taproot | AddressKind::SegWit => 32,
        _ => 58,
    }
}

pub fn pfx(a: AddressKind) -> (r: &'static str)
    ensures
        r@ == address_prefix(a),
{
    proof {
        reveal_strlit("bc1p");
        reveal_strlit("bc1q");
        reveal_strlit("1");
        reveal_strlit("3");
    }
    match a {
        AddressKind::Taproot => {
            assert("bc1p"@ =~= address_prefix(a));
            "bc1p"
        },
        AddressKind::SegWit => {
            assert("bc1q"@ =~= address_prefix(a));
            "bc1q"
        },
        AddressKind::Legacy => {
            assert("1"@ =~= address_prefix(a));
            "1"
        },
        AddressKind::P2SH => {
            assert("3"@ =~= address_prefix(a));
            "3"
        },
    }
}

/// The fixed derivation path of the mnemonic path for the address kind.
pub fn deriv(a: AddressKind) -> (r: &'static str)
    ensures
        r@ == match a {
            AddressKind::Taproot => "m/86'/0'/0'/0/0"@,
            AddressKind::SegWit => "m/84'/0'/0'/0/0"@,
            _ => "m/44'/0'/0'/0/0"@,
        },
{
    match a {
        AddressKind::Taproot => "m/86'/0'/0'/0/0",
        AddressKind::SegWit => "m/84'/0'/0'/0/0",
        _ => "m/44'/0'/0'/0/0",
    }
}

pub fn addr_name(a: AddressKind) -> (r: &'static str)
    ensures
        r@ == match a {
            AddressKind::Taproot => "Taproot (bc1p)"@,
            AddressKind::SegWit => "SegWit (bc1q)"@,
            AddressKind::Legacy => "Legacy (1...)"@,
            AddressKind::P2SH => "P2SH (3...)"@,
        },
{
    match a {
        AddressKind::Taproot => "Taproot (bc1p)",
        AddressKind::SegWit => "SegWit (bc1q)",
        AddressKind::Legacy => "Legacy (1...)",
        AddressKind::P2SH => "P2SH (3...)",
    }
}

pub fn match_name(m: MatchMode) -> (r: &'static str)
    ensures
        r@ == match m {
            MatchMode::Prefix => "前缀匹配"@,
            MatchMode::Suffix => "后缀匹配"@,
            MatchMode::Contains => "包含匹配"@,
        },
{
    match m {
        MatchMode::Prefix => "前缀匹配",
        MatchMode::Suffix => "后缀匹配",
        MatchMode::Contains => "包含匹配",
    }
}

pub fn out_name(o: OutputMode) -> (r: &'static str)
    ensures
        r@ == match o {
            OutputMode::MnemonicOnly => "助记词"@,
            OutputMode::SecretOnly => "私钥 (WIF)"@,
            OutputMode::Both => "助记词 + 私钥"@,
        },
{
    match o {
        OutputMode::MnemonicOnly => "助记词",
        OutputMode::SecretOnly => "私钥 (WIF)",
        OutputMode::Both => "助记词 + 私钥",
    }
}

pub fn rng_name(r: RngMode) -> (s: &'static str)
    ensures
        s@ == match r {
            RngMode::Secure => "安全 (OsRng)"@,
            RngMode::Fast => "快速 (Xoshiro)"@,
        },
{
    match r {
        RngMode::Secure => "安全 (OsRng)",
        RngMode::Fast => "快速 (Xoshiro)",
    }
}

/// Expected trials for a target of `len` characters: the alphabet size to the
/// power `len`, saturating at `u64::MAX`.
pub fn exp(len: usize, a: AddressKind) -> (r: u64)
    ensures
        r as nat == expected_trials(len as nat, a),
{
    let b = base(a);
    let mut acc: u64 = 1;
    let mut i: usize = 0;
    while i < len
        invariant
            i <= len,
            b as nat == alphabet_size(a),
            acc as nat == power(b as nat, i as nat),
        decreases len - i,
    {
        if acc > u64::MAX / b {
            proof {
                assert(acc * b > u64::MAX) by (nonlinear_arith)
                    requires
                        acc > u64::MAX / b,
                        b > 0,
                ;
                lemma_power_grows(b as nat, (i + 1) as nat, len as nat);
            }
            return u64::MAX;
        }
        proof {
            assert(acc * b <= u64::MAX) by (nonlinear_arith)
                requires
                    acc <= u64::MAX / b,
                    b > 0,
            ;
        }
        acc = acc * b;
        i = i + 1;
    }
    acc
}

/// Relies on `num_cpus::get`: the number of logical CPUs available to this process.
#[verifier::external_body]
fn available_threads() -> (r: usize) {
    num_cpus::get()
}

/// The settings of a search, fixed when it starts.
#[derive(Clone, Copy, Debug, PartialEq, Eq, Structural)]
pub struct Settings {
    pub addr_type: AddressKind,
    pub match_mode: MatchMode,
    pub output: OutputMode,
    pub rng_mode: RngMode,
    pub threads: usize,
    pub batch_size: u64,
}

impl Default for Settings {
    /// Taproot, prefix matching, mnemonic output, secure randomness, one
    /// worker per available CPU, batches of `DEFAULT_BATCH_SIZE`.
    fn default() -> (r: Settings)
        ensures
            r.addr_type == AddressKind::Taproot,
            r.match_mode == MatchMode::Prefix,
            r.output == OutputMode::MnemonicOnly,
            r.rng_mode == RngMode::Secure,
            r.batch_size == DEFAULT_BATCH_SIZE,
    {
        Settings {
            addr_type: AddressKind::Taproot,
            match_mode: MatchMode::Prefix,
            output: OutputMode::MnemonicOnly,
            rng_mode: RngMode::Secure,
            threads: available_threads(),
            batch_size: DEFAULT_BATCH_SIZE,
        }
    }
}

impl Settings {
    /// Sets the worker count where `n` lies in `1..=max`; reports whether it did.
    pub fn set_threads(&mut self, n: usize, max: usize) -> (changed: bool)
        ensures
            changed == (1 <= n <= max),
            *final(self) == (if changed {
                Settings { threads: n, ..*old(self) }
            } else {
                *old(self)
            }),
    {
        if n >= 1 && n <= max {
            self.threads = n;
            true
        } else {
            false
        }
    }

    /// Sets the batch size where `n` lies in `MIN_BATCH_SIZE..=MAX_BATCH_SIZE`;
    /// reports whether it did.
    pub fn set_batch_size(&mut self, n: u64) -> (changed: bool)
        ensures
            changed == (MIN_BATCH_SIZE <= n <= MAX_BATCH_SIZE),
            *final(self) == (if changed {
                Settings { batch_size: n, ..*old(self) }
            } else {
                *old(self)
            }),
    {
        if n >= MIN_BATCH_SIZE && n <= MAX_BATCH_SIZE {
            self.batch_size = n;
            true
        } else {
            false
        }
    }
}

/// The address kind chosen by a menu key `1` to `4`.
pub fn address_kind_for_key(c: char) -> (r: Option<AddressKind>)
    ensures
        r == match c {
            '1' => Some(AddressKind::Taproot),
            '2' => Some(AddressKind::SegWit),
            '3' => Some(AddressKind::Legacy),
            '4' => Some(AddressKind::P2SH),
            _ => None::<AddressKind>,
        },
{
    match c {
        '1' => Some(AddressKind::Taproot),
        '2' => Some(AddressKind::SegWit),
        '3' => Some(AddressKind::Legacy),
        '4' => Some(AddressKind::P2SH),
        _ => None,
    }
}

/// The match mode chosen by a menu key `1` to `3`.
pub fn match_mode_for_key(c: char) -> (r: Option<MatchMode>)
    ensures
        r == match c {
            '1' => Some(MatchMode::Prefix),
            '2' => Some(MatchMode::Suffix),
            '3' => Some(MatchMode::Contains),
            _ => None::<MatchMode>,
        },
{
    match c {
        '1' => Some(MatchMode::Prefix),
        '2' => Some(MatchMode::Suffix),
        '3' => Some(MatchMode::Contains),
        _ => None,
    }
}

/// The output mode chosen by a menu key `1` to `3`.
pub fn output_mode_for_key(c: char) -> (r: Option<OutputMode>)
    ensures
        r == match c {
            '1' => Some(OutputMode::MnemonicOnly),
            '2' => Some(OutputMode::SecretOnly),
            '3' => Some(OutputMode::Both),
            _ => None::<OutputMode>,
        },
{
    match c {
        '1' => Some(OutputMode::MnemonicOnly),
        '2' => Some(OutputMode::SecretOnly),
        '3' => Some(OutputMode::Both),
        _ => None,
    }
}

/// The randomness mode chosen by a menu key `1` or `2`.
pub fn rng_mode_for_key(c: char) -> (r: Option<RngMode>)
    ensures
        r == match c {
            '1' => Some(RngMode::Secure),
            '2' => Some(RngMode::Fast),
            _ => None::<RngMode>,
        },
{
    match c {
        '1' => Some(RngMode::Secure),
        '2' => Some(RngMode::Fast),
        _ => None,
    }
}

} // verus!
