use vstd::prelude::*;
use rand::RngCore;
use rand::rngs::OsRng;
use rand_xoshiro::Xoshiro256PlusPlus;
use rand_xoshiro::rand_core::SeedableRng;
use crate::config::RngMode;

verus! {

#[verifier::external_type_specification]
#[verifier::external_body]
pub struct ExXoshiro256PlusPlus(Xoshiro256PlusPlus);

/// Relies on `OsRng::fill_bytes`: 32 bytes from the operating system's
/// cryptographically secure generator. It panics only where the operating
/// system gives no randomness at all.
#[verifier::external_body]
fn os_bytes() -> (r: [u8; 32]) {
    let mut b = [0u8; 32];
    OsRng.fill_bytes(&mut b);
    b
}

/// Relies on `SeedableRng::from_entropy`: a generator seeded by the operating system.
#[verifier::external_body]
fn xoshiro_from_entropy() -> (r: Xoshiro256PlusPlus) {
    Xoshiro256PlusPlus::from_entropy()
}

/// Relies on `SeedableRng::seed_from_u64`: a generator seeded from one number.
#[verifier::external_body]
fn xoshiro_seeded(seed: u64) -> (r: Xoshiro256PlusPlus) {
    Xoshiro256PlusPlus::seed_from_u64(seed)
}

/// Relies on `RngCore::fill_bytes` of `Xoshiro256PlusPlus`: the next 32 bytes
/// of its stream.
#[verifier::external_body]
fn xoshiro_bytes(rng: &mut Xoshiro256PlusPlus) -> (r: [u8; 32]) {
    let mut b = [0u8; 32];
    rng.fill_bytes(&mut b);
    b
}

/// Where a worker draws its 32 bytes of key material from: the operating
/// system, a fast non-cryptographic generator (not for real funds), or a
/// fixed list of values replayed in a cycle.
pub enum EntropySource {
    Secure,
    Fast(Xoshiro256PlusPlus),
    Replay { values: Vec<[u8; 32]>, next: usize },
}

/// A replaying source hands out the value at its position and moves on by one,
/// cyclically, keeping its values.
pub open spec fn replay_step(before: EntropySource, after: EntropySource, r: [u8; 32]) -> bool {
    match before {
        EntropySource::Replay { values, next } => match after {
            EntropySource::Replay { values: v2, next: n2 } => {
                &&& r == values@[next as int]
                &&& v2@ == values@
                &&& n2 == (next + 1) % (values.len() as int)
            },
            _ => false,
        },
        _ => true,
    }
}

impl EntropySource {
    pub open spec fn wf(&self) -> bool {
        match self {
            EntropySource::Replay { values, next } => next < values.len(),
            _ => true,
        }
    }

    /// The source that the mode names; a fast one is seeded by the operating system.
    pub fn from_mode(mode: RngMode) -> (r: EntropySource)
        ensures
            r.wf(),
            mode == RngMode::Secure ==> r is Secure,
            mode == RngMode::Fast ==> r is Fast,
    {
        match mode {
            RngMode::Secure => EntropySource::Secure,
            RngMode::Fast => EntropySource::Fast(xoshiro_from_entropy()),
        }
    }

    /// A fast source whose stream is fixed by `seed`.
    pub fn fast_seeded(seed: u64) -> (r: EntropySource)
        ensures
            r.wf(),
            r is Fast,
    {
        EntropySource::Fast(xoshiro_seeded(seed))
    }

    /// A source that hands out `values` in order, starting again after the last.
    pub fn replay(values: Vec<[u8; 32]>) -> (r: EntropySource)
        requires
            values.len() > 0,
        ensures
            r.wf(),
            r matches EntropySource::Replay { values: v, next } && v@ == values@ && next == 0,
    {
        EntropySource::Replay { values, next: 0 }
    }

    /// The next 32 bytes. A replaying source gives the value at its position
    /// and moves on by one, cyclically.
    pub fn next_bytes(&mut self) -> (r: [u8; 32])
        requires
            old(self).wf(),
        ensures
            final(self).wf(),
            *old(self) is Secure ==> *final(self) is Secure,
            *old(self) is Fast ==> *final(self) is Fast,
            replay_step(*old(self), *final(self), r),
    {
        match self {
            EntropySource::Secure => os_bytes(),
            EntropySource::Fast(rng) => xoshiro_bytes(rng),
            EntropySource::Replay { values, next } => {
                let i = *next;
                let len = values.len();
                let r = values[i];
                if i + 1 < len {
                    proof {
                        assert((i + 1) % (len as int) == i + 1) by (nonlinear_arith)
                            requires
                                0 <= i + 1 < len,
                        ;
                    }
                    *next = i + 1;
                } else {
                    proof {
                        assert((i + 1) % (len as int) == 0) by (nonlinear_arith)
                            requires
                                i + 1 == len,
                                len > 0,
                        ;
                    }
                    *next = 0;
                }
                r
            },
        }
    }
}

} // verus!
