use vstd::prelude::*;
use std::sync::atomic::{AtomicBool, AtomicU64, Ordering};
use crate::config::{AddressKind, MatchMode, OutputMode};
use crate::entropy::EntropySource;
use crate::keys::{Candidate, KeyContext, bip39_phrase, draw_address, draw_secret, wif_text};
use crate::matcher::{first_hit, first_match};
use crate::targets::{SearchTarget, TargetSpec, target_views};

verus! {

/// A worker hands its local trial count to the shared counter at the latest
/// after this many trials.
pub const FLUSH_EVERY: u64 = 1000;

/// The state that all workers of one search share: the number of trials
/// flushed so far and the stop signal.
pub struct SharedSearchState {
    tried: AtomicU64,
    stop: AtomicBool,
}

impl SharedSearchState {
    pub fn new() -> (r: SharedSearchState) {
        SharedSearchState { tried: AtomicU64::new(0), stop: AtomicBool::new(false) }
    }

    /// The number of trials flushed so far.
    pub fn tried(&self) -> (r: u64) {
        self.tried.load(Ordering::Acquire)
    }

    pub fn is_stopped(&self) -> (r: bool) {
        self.stop.load(Ordering::Acquire)
    }

    fn add_tried(&self, n: u64) {
        self.tried.fetch_add(n, Ordering::AcqRel);
    }

    /// Sets the stop signal in one atomic exchange; true only for the caller
    /// that found it unset.
    fn claim(&self) -> (won: bool) {
        !self.stop.swap(true, Ordering::AcqRel)
    }
}

/// The single result of a search.
pub struct FoundResult {
    pub address: String,
    pub mnemonic: Option<String>,
    pub wif: Option<String>,
    /// The normalized pattern of the target that was hit.
    pub target: String,
}

/// How one batch of a worker ended.
pub enum BatchOutcome {
    /// The batch ran out without a hit; the worker may go on.
    Continue,
    /// The stop signal was already set; the worker ends.
    Stopped,
    /// This worker hit a target and won the stop signal.
    Won(FoundResult),
    /// This worker hit a target after another had won; it ends without a result.
    Lost,
}

/// One search worker: its key context and randomness, and its own account of
/// the trials it has made.
pub struct Worker {
    pub keys: KeyContext,
    pub source: EntropySource,
    /// Trials not yet added to the shared counter.
    pub pending: u64,
    /// Trials added to the shared counter.
    pub flushed: u64,
    /// All counted trials.
    pub trials: u64,
    /// Whether a trial has hit a target; the worker then ends.
    pub hit: bool,
    /// The addresses tried, in order.
    pub tried_addresses: Ghost<Seq<Seq<char>>>,
    /// The bytes of every draw, in order, whether or not it yielded an address.
    pub drawn: Ghost<Seq<Seq<u8>>>,
}

/// The addresses that a sequence of draws yields, in order: a draw whose key
/// material is rejected yields none.
pub open spec fn tried_of(drawn: Seq<Seq<u8>>, kind: AddressKind, output: OutputMode) -> Seq<
    Seq<char>,
>
    decreases drawn.len(),
{
    if drawn.len() == 0 {
        seq![]
    } else {
        let rest = tried_of(drawn.drop_last(), kind, output);
        match draw_address(kind, output, drawn.last()) {
            Some(a) => rest.push(a),
            None => rest,
        }
    }
}

impl Worker {
    /// The tried addresses are what the draws so far yield under the output
    /// mode, and each is one trial, flushed or pending; every address tried
    /// misses all targets, but the last one of a worker that hit.
    pub open spec fn wf(&self, targets: Seq<TargetSpec>, m: MatchMode, output: OutputMode) -> bool {
        &&& self.source.wf()
        &&& self.tried_addresses@ == tried_of(self.drawn@, self.keys.kind(), output)
        &&& self.trials == self.tried_addresses@.len()
        &&& self.flushed + self.pending == self.trials
        &&& forall|i: int|
            0 <= i < self.tried_addresses@.len() && (!self.hit || i + 1 < self.tried_addresses@.len())
                ==> first_hit(#[trigger] self.tried_addresses@[i], targets, m) is None
        &&& self.hit ==> {
            &&& self.tried_addresses@.len() > 0
            &&& first_hit(self.tried_addresses@.last(), targets, m) is Some
            &&& self.pending == 0
        }
    }

    pub fn new(keys: KeyContext, source: EntropySource) -> (r: Worker)
        requires
            source.wf(),
        ensures
            forall|t: Seq<TargetSpec>, m: MatchMode, o: OutputMode| r.wf(t, m, o),
            r.trials == 0,
            !r.hit,
            r.keys == keys,
    {
        Worker {
            keys,
            source,
            pending: 0,
            flushed: 0,
            trials: 0,
            hit: false,
            tried_addresses: Ghost(Seq::empty()),
            drawn: Ghost(Seq::empty()),
        }
    }

    fn flush(&mut self, shared: &SharedSearchState)
        requires
            old(self).flushed + old(self).pending == old(self).trials,
        ensures
            final(self).pending == 0,
            final(self).flushed == old(self).trials,
            final(self).trials == old(self).trials,
            final(self).hit == old(self).hit,
            final(self).source == old(self).source,
            final(self).keys == old(self).keys,
            final(self).tried_addresses == old(self).tried_addresses,
            final(self).drawn == old(self).drawn,
    {
        if self.pending > 0 {
            shared.add_tried(self.pending);
        }
        self.flushed = self.flushed + self.pending;
        self.pending = 0;
    }

    /// The result for a hit: the address, the target's pattern, and the
    /// secret material that the output mode asks for.
    fn report(c: &Candidate, t: &SearchTarget, output: OutputMode) -> (r: FoundResult)
        requires
            crate::keys::is_valid_secret(c.secret@),
        ensures
            r.address@ == c.address@,
            r.target@ == t.raw@,
            r.wif is Some <==> output != OutputMode::MnemonicOnly,
            r.wif matches Some(w) ==> w@ == wif_text(c.secret@),
            r.mnemonic is Some <==> output != OutputMode::SecretOnly && c.entropy is Some,
            r.mnemonic matches Some(p) ==> c.entropy matches Some(e) && p@ == bip39_phrase(e@),
    {
        let wif = match output {
            OutputMode::MnemonicOnly => None,
            _ => Some(c.wif()),
        };
        let mnemonic = match output {
            OutputMode::SecretOnly => None,
            _ => c.phrase(),
        };
        FoundResult { address: c.address.clone(), mnemonic, wif, target: t.raw.clone() }
    }

    /// Runs up to `batch_size` draws, unless the stop signal is already set.
    /// Each draw that yields an address counts one trial and is matched
    /// against the targets; a draw whose key material is rejected counts
    /// nothing. Pending trials are flushed every `FLUSH_EVERY` trials, at the
    /// end of the batch, and before the stop signal is claimed on a hit, so
    /// that a winner's trials are all in the shared count.
    pub fn run_batch(
        &mut self,
        shared: &SharedSearchState,
        targets: &Vec<SearchTarget>,
        m: MatchMode,
        output: OutputMode,
        batch_size: u64,
    ) -> (r: BatchOutcome)
        requires
            old(self).wf(target_views(targets@), m, output),
            !old(self).hit,
        ensures
            final(self).wf(target_views(targets@), m, output),
            final(self).drawn@.len() >= old(self).drawn@.len(),
            final(self).drawn@.subrange(0, old(self).drawn@.len() as int) == old(self).drawn@,
            final(self).keys == old(self).keys,
            final(self).pending == 0,
            final(self).trials >= old(self).trials,
            final(self).tried_addresses@.subrange(0, old(self).trials as int)
                == old(self).tried_addresses@,
            match r {
                BatchOutcome::Won(f) => {
                    &&& final(self).hit
                    &&& f.address@ == final(self).tried_addresses@.last()
                    &&& f.target@ == target_views(targets@)[first_hit(
                        f.address@,
                        target_views(targets@),
                        m,
                    )->0].raw
                    &&& final(self).drawn@.len() > 0
                    &&& draw_address(final(self).keys.kind(), output, final(self).drawn@.last())
                        == Some(f.address@)
                    &&& f.wif is Some <==> output != OutputMode::MnemonicOnly
                    &&& f.wif matches Some(w) ==> w@ == wif_text(
                        draw_secret(final(self).keys.kind(), output, final(self).drawn@.last())->0,
                    )
                    &&& f.mnemonic is Some <==> output != OutputMode::SecretOnly
                    &&& f.mnemonic matches Some(p) ==> p@ == bip39_phrase(final(self).drawn@.last())
                },
                BatchOutcome::Lost => final(self).hit,
                BatchOutcome::Continue => !final(self).hit && (final(self).drawn@.len()
                    == old(self).drawn@.len() + batch_size || final(self).trials == u64::MAX),
                BatchOutcome::Stopped => !final(self).hit && final(self).drawn == old(self).drawn,
            },
    {
        let ghost tv = target_views(targets@);
        let ghost start = self.tried_addresses@;
        let ghost start_drawn = self.drawn@;
        if shared.is_stopped() {
            self.flush(shared);
            assert(self.tried_addresses@.subrange(0, old(self).trials as int) =~= start);
            assert(self.drawn@.subrange(0, start_drawn.len() as int) =~= start_drawn);
            return BatchOutcome::Stopped;
        }
        let mut i: u64 = 0;
        while i < batch_size && self.trials < u64::MAX
            invariant
                self.wf(tv, m, output),
                i <= batch_size,
                self.drawn@.len() == start_drawn.len() + i,
                self.drawn@.subrange(0, start_drawn.len() as int) == start_drawn,
                start_drawn == old(self).drawn@,
                tv == target_views(targets@),
                !self.hit,
                self.keys == old(self).keys,
                self.trials >= old(self).trials,
                self.tried_addresses@.subrange(0, old(self).trials as int) == start,
                start == old(self).tried_addresses@,
            decreases batch_size - i,
        {
            let bytes = self.source.next_bytes();
            let ghost before_drawn = self.drawn@;
            self.drawn = Ghost(before_drawn.push(bytes@));
            assert(self.drawn@.drop_last() =~= before_drawn);
            assert(self.drawn@.subrange(0, start_drawn.len() as int) =~= before_drawn.subrange(
                0,
                start_drawn.len() as int,
            ));
            let drawn = self.keys.derive(output, &bytes);
            if let Some(c) = drawn {
                let ghost before = self.tried_addresses@;
                self.trials = self.trials + 1;
                self.pending = self.pending + 1;
                self.tried_addresses = Ghost(before.push(c.address@));
                assert(self.tried_addresses@.subrange(0, old(self).trials as int) =~= before.subrange(
                    0,
                    old(self).trials as int,
                ));
                match first_match(c.address.as_str(), targets, m) {
                    Some(k) => {
                        self.hit = true;
                        self.flush(shared);
                        if shared.claim() {
                            let f = Worker::report(&c, &targets[k], output);
                            assert(tv[k as int] == targets@[k as int]@);
                            return BatchOutcome::Won(f);
                        } else {
                            return BatchOutcome::Lost;
                        }
                    },
                    None => {
                        if self.pending >= FLUSH_EVERY {
                            self.flush(shared);
                        }
                    },
                }
            }
            i = i + 1;
        }
        self.flush(shared);
        BatchOutcome::Continue
    }
}

/// A worker whose tried addresses are `misses`, none of which hits a target,
/// followed by one address that hits has ended on that hit with all its trials
/// flushed: `misses.len() + 1` of them.
pub proof fn lemma_trials_at_hit(
    w: Worker,
    targets: Seq<TargetSpec>,
    m: MatchMode,
    output: OutputMode,
    misses: Seq<Seq<char>>,
    hit: Seq<char>,
)
    requires
        w.wf(targets, m, output),
        w.tried_addresses@ == misses.push(hit),
        forall|i: int| 0 <= i < misses.len() ==> first_hit(#[trigger] misses[i], targets, m) is None,
        first_hit(hit, targets, m) is Some,
    ensures
        w.hit,
        w.pending == 0,
        w.flushed == misses.len() + 1,
        w.trials == misses.len() + 1,
{
    let n = misses.len() as int;
    assert(w.tried_addresses@[n] == hit);
    if !w.hit {
        assert(first_hit(w.tried_addresses@[n], targets, m) is None);
    }
}

} // verus!
