//! The coordinator: sets a search up, runs the workers on a thread pool and
//! assembles the result.

use crate::keys::generate_keypair;
use crate::keys::KeypairBytes;
use crate::matcher::first_match;
use crate::matcher::lemma_first_match_matches;
use crate::matcher::lemma_match_reads_as_bytes;
use crate::matcher::matched_text;
use crate::prefix::build_prefix_table;
use crate::prefix::table_texts;
use crate::prefix::texts_of;
use crate::prefix::PrefixEntry;
use crate::progress::ProgressSnapshot;
use crate::shared::SearchState;
use crate::worker::run_batch;
use crate::worker::Winner;
use rayon::iter::IntoParallelIterator;
use rayon::iter::ParallelIterator;
use std::time::Duration;
use vstd::prelude::*;
use vstd::utf8::encode_utf8;

verus! {

/// Stack size of each pool thread, in bytes.
pub const WORKER_STACK_SIZE: usize = 2 * 1024 * 1024;

/// Number of batches on offer to the pool: in effect without end.
pub const BATCH_SUPPLY: u64 = u64::MAX;

/// What a successful search hands to its caller.
#[derive(Debug)]
pub struct VanityResult {
    /// The winning keypair.
    pub keypair: KeypairBytes,
    /// The time the search took.
    pub elapsed: Duration,
    /// The attempts of all workers, as the shared total stood at the end.
    pub attempts: u64,
    /// The prefix that the winning address starts with.
    pub matched_prefix: String,
}

impl VanityResult {
    /// The matched prefix is the first of the requested prefixes, in the
    /// order requested, that the winning keypair's address starts with.
    pub open spec fn answers(&self, prefixes: Seq<Seq<char>>) -> bool {
        matched_text(self.keypair.spec_address(), prefixes) == Some(self.matched_prefix@)
    }
}

/// Why a search ended without a result.
#[derive(Clone, Copy, Debug, PartialEq, Eq)]
pub enum SearchError {
    /// The list of prefixes was empty.
    NoPrefixes,
    /// The number of threads was zero.
    NoThreads,
    /// The thread pool could not be built.
    PoolUnavailable,
    /// The pool ran out of batches without any worker finding a match.
    NoWinner,
}

/// The reason for which a request is refused before any work is done: an
/// empty list of prefixes first, a thread count of zero second.
pub open spec fn refusal(prefix_count: nat, num_threads: usize) -> Option<SearchError> {
    if prefix_count == 0 {
        Some(SearchError::NoPrefixes)
    } else if num_threads == 0 {
        Some(SearchError::NoThreads)
    } else {
        None
    }
}

/// `rayon::ThreadPool`, a pool of worker threads. Carried, never read.
#[verifier::external_type_specification]
#[verifier::external_body]
pub struct ExThreadPool(rayon::ThreadPool);

/// `rayon::ThreadPoolBuildError`, the reason a pool could not be built.
#[verifier::external_type_specification]
#[verifier::external_body]
pub struct ExThreadPoolBuildError(rayon::ThreadPoolBuildError);

/// Calls `rayon::ThreadPoolBuilder::new()`, sets the number of threads and
/// their stack size, and calls `build()`. Nothing is claimed of the outcome:
/// whether the threads can be had is up to the system.
#[verifier::external_body]
fn build_pool(threads: usize, stack_size: usize) -> (pool: Result<
    rayon::ThreadPool,
    rayon::ThreadPoolBuildError,
>) {
    rayon::ThreadPoolBuilder::new().num_threads(threads).stack_size(stack_size).build()
}

/// Calls `ThreadPool::install` with a parallel `find_map_any` over
/// `0..batches`, each item running one batch of the worker loop.
///
/// Trusted: `find_map_any` hands back a winner only if one of the batches
/// produced it, so what `run_batch` ensures of a winner holds of this one:
/// its keypair came from `generate`, and its prefix is the first entry of
/// the table that the keypair's address starts with.
#[verifier::external_body]
fn search_in_pool<G, R>(
    pool: &rayon::ThreadPool,
    batches: u64,
    table: &[PrefixEntry],
    shared: &SearchState,
    generate: &G,
    report: &R,
) -> (winner: Option<Winner>) where
    G: Fn() -> KeypairBytes + Sync,
    R: Fn(ProgressSnapshot) -> () + Sync,

    requires
        generate.requires(()),
        forall|snapshot: ProgressSnapshot| report.requires((snapshot,)),
    ensures
        winner matches Some(w) ==> w.wins(table_texts(table@)) && generate.ensures((), w.keypair),
{
    pool.install(
        || (0..batches).into_par_iter().find_map_any(
            |_| run_batch(table, shared, generate, report).winner,
        ),
    )
}

/// Assembles the result of a search from what the pool handed back and the
/// final readings of the shared state. No winner is an error of its own.
pub fn assemble_result(winner: Option<Winner>, elapsed: Duration, attempts: u64) -> (res: Result<
    VanityResult,
    SearchError,
>)
    ensures
        match winner {
            Some(w) => res matches Ok(found) && found.keypair == w.keypair && found.matched_prefix
                == w.matched_prefix && found.elapsed == elapsed && found.attempts == attempts,
            None => res matches Err(e) && e == SearchError::NoWinner,
        },
{
    match winner {
        Some(w) => Ok(
            VanityResult { keypair: w.keypair, elapsed, attempts, matched_prefix: w.matched_prefix },
        ),
        None => Err(SearchError::NoWinner),
    }
}

/// Searches, with `generate` as the source of candidates, for a keypair whose
/// address starts with one of `prefixes`, on `num_threads` worker threads.
///
/// An empty list of prefixes and a thread count of zero are refused, in that
/// order. Otherwise the search builds the prefix table and the shared state,
/// starts the pool and blocks until a worker wins. A result, when there is
/// one, holds a keypair that `generate` produced together with the first of
/// the prefixes, in the order given, that its address starts with. `report`
/// is called with a snapshot from time to time while the search runs.
pub fn search_with<G, R>(prefixes: &[String], num_threads: usize, generate: &G, report: &R) -> (res:
    Result<VanityResult, SearchError>) where
    G: Fn() -> KeypairBytes + Sync,
    R: Fn(ProgressSnapshot) -> () + Sync,

    requires
        generate.requires(()),
        forall|snapshot: ProgressSnapshot| report.requires((snapshot,)),
    ensures
        match refusal(prefixes@.len(), num_threads) {
            Some(reason) => res == Err::<VanityResult, SearchError>(reason),
            None => match res {
                Ok(found) => found.answers(texts_of(prefixes@)) && generate.ensures(
                    (),
                    found.keypair,
                ),
                Err(e) => e == SearchError::PoolUnavailable || e == SearchError::NoWinner,
            },
        },
{
    if prefixes.len() == 0 {
        return Err(SearchError::NoPrefixes);
    }
    if num_threads == 0 {
        return Err(SearchError::NoThreads);
    }
    let table: Vec<PrefixEntry> = build_prefix_table(prefixes);
    let shared: SearchState = SearchState::new();
    let pool = match build_pool(num_threads, WORKER_STACK_SIZE) {
        Ok(pool) => pool,
        Err(_) => {
            return Err(SearchError::PoolUnavailable);
        },
    };
    let winner: Option<Winner> = search_in_pool(
        &pool,
        BATCH_SUPPLY,
        table.as_slice(),
        &shared,
        generate,
        report,
    );
    let elapsed: Duration = shared.elapsed();
    let attempts: u64 = shared.total_attempts();
    assemble_result(winner, elapsed, attempts)
}

/// Searches for a freshly generated keypair whose address starts with one of
/// `prefixes`, on `num_threads` worker threads: `search_with`, with the real
/// key generator as the source of candidates. The keypair of a result is
/// therefore genuine: its public key belongs to its secret key.
pub fn find_vanity_address<R>(prefixes: &[String], num_threads: usize, report: &R) -> (res: Result<
    VanityResult,
    SearchError,
>) where R: Fn(ProgressSnapshot) -> () + Sync
    requires
        forall|snapshot: ProgressSnapshot| report.requires((snapshot,)),
    ensures
        match refusal(prefixes@.len(), num_threads) {
            Some(reason) => res == Err::<VanityResult, SearchError>(reason),
            None => match res {
                Ok(found) => found.answers(texts_of(prefixes@)) && found.keypair.genuine(),
                Err(e) => e == SearchError::PoolUnavailable || e == SearchError::NoWinner,
            },
        },
{
    search_with(prefixes, num_threads, &generate_keypair, report)
}

/// In every result of a search the matched prefix is one of the requested
/// prefixes, and the winning address starts with it: character for
/// character and, both taken in UTF-8, byte for byte.
pub proof fn lemma_result_matches_request(found: VanityResult, prefixes: Seq<Seq<char>>)
    requires
        found.answers(prefixes),
    ensures
        prefixes.contains(found.matched_prefix@),
        found.matched_prefix@.is_prefix_of(found.keypair.spec_address()),
        encode_utf8(found.matched_prefix@).is_prefix_of(
            encode_utf8(found.keypair.spec_address()),
        ),
{
    lemma_first_match_matches(found.keypair.spec_address(), prefixes);
    let i = first_match(found.keypair.spec_address(), prefixes)->Some_0;
    assert(prefixes[i] == found.matched_prefix@);
    lemma_match_reads_as_bytes(found.keypair.spec_address(), found.matched_prefix@);
}

} // verus!
