//! The search engine: request and result types, the shared state that
//! coordinates concurrent workers, and the verified search loops.
//!
//! A search repeatedly draws a fresh random keypair, tests its base-58
//! public identifier against the pattern, and registers a hit with the
//! shared state.  Workers stop as soon as any termination condition is
//! observed: the stop flag, the wall-clock deadline, the attempt ceiling,
//! or a full result collection.

use vstd::prelude::*;
use crate::VanityGenerator;
use crate::pattern::{PatternType, spec_matches};

verus! {

/// An immutable search request.  The deadline is in seconds of wall-clock
/// time and the attempt ceiling bounds each worker separately.
#[derive(Debug, Clone)]
pub struct VanityOptions {
    pub pattern: String,
    pub pattern_type: PatternType,
    pub case_sensitive: bool,
    pub max_attempts: u64,
    pub max_time: u64,
}

/// One accepted match: the public identifier, the base-58 rendering of the
/// keypair bytes, and how many attempts and milliseconds the discovering
/// worker had spent when it found the match.
#[derive(Debug, Clone)]
pub struct VanityResult {
    pub public_key: String,
    pub private_key: String,
    pub attempts: u64,
    pub time_elapsed: u64,
}

/// The state shared by all workers of one search: the accepted results,
/// the aggregated attempt counter, the stop flag, and the requested
/// result count.
pub struct SearchState {
    pub results: Vec<VanityResult>,
    pub total_attempts: u64,
    pub stop: bool,
    pub target: usize,
}

impl SearchState {
    /// The invariant every operation preserves: the result collection
    /// never exceeds the requested count, and a full collection has the
    /// stop flag set.
    pub open spec fn wf(self) -> bool {
        self.results@.len() <= self.target && (self.results@.len() == self.target ==> self.stop)
    }

    /// Fresh state for one search invocation.  A search for zero results
    /// is already finished, so its stop flag starts out set.
    pub fn new(target: usize) -> (s: SearchState)
        ensures
            s.wf(),
            s.results@.len() == 0,
            s.total_attempts == 0,
            s.target == target,
            s.stop == (target == 0),
    {
        SearchState { results: Vec::new(), total_attempts: 0, stop: target == 0, target }
    }

    /// The insert-and-maybe-signal-stop operation, to be run under
    /// exclusive access: accepts the result only while there is room and
    /// raises the stop flag the moment the collection becomes full.  The
    /// flag is never cleared.
    pub fn try_insert(&mut self, result: VanityResult) -> (accepted: bool)
        requires
            old(self).wf(),
        ensures
            final(self).wf(),
            accepted == (old(self).results@.len() < old(self).target),
            accepted ==> final(self).results@ == old(self).results@.push(result),
            !accepted ==> final(self).results@ == old(self).results@,
            final(self).stop == (old(self).stop || final(self).results@.len()
                == final(self).target),
            final(self).total_attempts == old(self).total_attempts,
            final(self).target == old(self).target,
    {
        if self.results.len() < self.target {
            self.results.push(result);
            if self.results.len() == self.target {
                self.stop = true;
            }
            true
        } else {
            false
        }
    }

    /// Folds a worker's local attempt count into the shared aggregate,
    /// saturating at the counter's maximum.
    pub fn add_attempts(&mut self, n: u64)
        ensures
            old(self).total_attempts + n <= u64::MAX ==> final(self).total_attempts == old(
                self,
            ).total_attempts + n,
            old(self).total_attempts + n > u64::MAX ==> final(self).total_attempts == u64::MAX,
            final(self).results@ == old(self).results@,
            final(self).stop == old(self).stop,
            final(self).target == old(self).target,
    {
        self.total_attempts = self.total_attempts.saturating_add(n);
    }

    /// The global termination test every worker polls: the stop flag was
    /// raised or the result collection is already full.
    pub fn should_stop(&self) -> (r: bool)
        ensures
            r == (self.stop || self.results@.len() >= self.target),
    {
        self.stop || self.results.len() >= self.target
    }
}

/// Relies on solana_sdk's `Keypair::new`, `Signer::pubkey` and
/// `Keypair::to_bytes`: a fresh random keypair, as the base-58 text of its
/// public key together with its 64-byte secret-plus-public encoding.
/// The keypair is random, so nothing is promised beyond the documented
/// length of the byte encoding.
#[verifier::external_body]
fn generate_candidate() -> (c: (String, Vec<u8>))
    ensures
        c.1@.len() == 64,
{
    let keypair = solana_sdk::signature::Keypair::new();
    let public_key = solana_sdk::signature::Signer::pubkey(&keypair).to_string();
    (public_key, keypair.to_bytes().to_vec())
}

/// The base-58 rendering of a byte string; a function of the bytes alone.
pub uninterp spec fn base58_of(bytes: Seq<u8>) -> Seq<char>;

/// Relies on bs58::encode with its default alphabet: renders bytes as
/// base-58 text.
#[verifier::external_body]
fn encode_base58(bytes: &Vec<u8>) -> (r: String)
    ensures
        r@ == base58_of(bytes@),
{
    bs58::encode(bytes.as_slice()).into_string()
}

#[verifier::external_type_specification]
#[verifier::external_body]
pub struct ExInstant(std::time::Instant);

/// Relies on std::time::Instant::now: an opaque reading of the monotonic
/// clock; nothing can be promised of a clock value.
#[verifier::external_body]
fn clock_start() -> (t: std::time::Instant) {
    std::time::Instant::now()
}

/// Relies on Instant::elapsed and Duration::as_millis: the milliseconds
/// passed since the reading was taken, saturated to the result type;
/// nothing can be promised of a clock value.
#[verifier::external_body]
fn elapsed_millis(start: &std::time::Instant) -> (ms: u64) {
    u64::try_from(start.elapsed().as_millis()).unwrap_or(u64::MAX)
}

impl VanityGenerator {
    /// Searches for one matching keypair, bounded by the request's attempt
    /// ceiling and wall-clock deadline.  `None` is the normal outcome of
    /// running out of either budget, not an error.
    pub fn generate_single(&self, options: &VanityOptions) -> (r: Option<VanityResult>)
        ensures
            r matches Some(res) ==> spec_matches(
                res.public_key@,
                options.pattern@,
                options.pattern_type,
                options.case_sensitive,
            ) && 1 <= res.attempts <= options.max_attempts,
    {
        let start = clock_start();
        let deadline_ms = match options.max_time.checked_mul(1000) {
            Some(d) => d,
            None => u64::MAX,
        };
        let mut attempts: u64 = 0;
        while attempts < options.max_attempts
            invariant
                attempts <= options.max_attempts,
            decreases options.max_attempts - attempts,
        {
            if elapsed_millis(&start) >= deadline_ms {
                return None;
            }
            attempts += 1;
            let (public_key, secret) = generate_candidate();
            if self.matches_pattern(
                public_key.as_str(),
                options.pattern.as_str(),
                &options.pattern_type,
                options.case_sensitive,
            ) {
                return Some(
                    VanityResult {
                        public_key,
                        private_key: encode_base58(&secret),
                        attempts,
                        time_elapsed: elapsed_millis(&start),
                    },
                );
            }
        }
        None
    }

    /// Runs one worker's search loop to completion against fresh shared
    /// state: collects up to `count` matching results, stopping at the
    /// attempt ceiling or the deadline, and returns the results with the
    /// total attempt count.  An under-full result set is a normal outcome,
    /// not an error.
    pub fn generate_multiple(&self, count: usize, options: &VanityOptions) -> (r: (
        Vec<VanityResult>,
        u64,
    ))
        ensures
            r.0@.len() <= count,
            forall|i: int|
                0 <= i < r.0@.len() ==> spec_matches(
                    (#[trigger] r.0@[i]).public_key@,
                    options.pattern@,
                    options.pattern_type,
                    options.case_sensitive,
                ),
            r.0@.len() <= r.1,
    {
        let mut state = SearchState::new(count);
        let start = clock_start();
        let deadline_ms = match options.max_time.checked_mul(1000) {
            Some(d) => d,
            None => u64::MAX,
        };
        let mut attempted: u64 = 0;
        let mut unflushed: u64 = 0;
        loop
            invariant_except_break
                attempted <= options.max_attempts,
                unflushed <= attempted,
                state.wf(),
                state.target == count,
                state.results@.len() <= state.total_attempts + unflushed,
                forall|i: int|
                    0 <= i < state.results@.len() ==> spec_matches(
                        (#[trigger] state.results@[i]).public_key@,
                        options.pattern@,
                        options.pattern_type,
                        options.case_sensitive,
                    ),
            ensures
                state.wf(),
                state.target == count,
                state.results@.len() <= state.total_attempts + unflushed,
                forall|i: int|
                    0 <= i < state.results@.len() ==> spec_matches(
                        (#[trigger] state.results@[i]).public_key@,
                        options.pattern@,
                        options.pattern_type,
                        options.case_sensitive,
                    ),
            decreases options.max_attempts - attempted,
        {
            if attempted >= options.max_attempts {
                break ;
            }
            if state.should_stop() {
                break ;
            }
            if elapsed_millis(&start) > deadline_ms {
                break ;
            }
            attempted += 1;
            unflushed += 1;
            let (public_key, secret) = generate_candidate();
            if Self::matches_pattern_static(
                public_key.as_str(),
                options.pattern.as_str(),
                &options.pattern_type,
                options.case_sensitive,
            ) {
                let result = VanityResult {
                    public_key,
                    private_key: encode_base58(&secret),
                    attempts: attempted,
                    time_elapsed: elapsed_millis(&start),
                };
                let _ = state.try_insert(result);
            }
            if unflushed >= 1000 {
                state.add_attempts(unflushed);
                unflushed = 0;
            }
        }
        state.add_attempts(unflushed);
        (state.results, state.total_attempts)
    }
}

} // verus!
