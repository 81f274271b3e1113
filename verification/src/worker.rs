//! The worker loop: one batch of generate-and-test with its accounting.

use crate::keys::KeypairBytes;
use crate::matcher::matched_text;
use crate::matcher::matching_prefix;
use crate::prefix::table_texts;
use crate::prefix::PrefixEntry;
use crate::progress::report_due;
use crate::progress::ProgressSnapshot;
use crate::progress::FLUSH_INTERVAL;
use crate::shared::SearchState;
use vstd::prelude::*;

verus! {

/// Most attempts a worker makes in one batch.
pub const BATCH_SIZE: u64 = 100_000;

/// A worker reads the stop signal once per this many attempts.
pub const STOP_CHECK_INTERVAL: u64 = 10_000;

/// The attempt counter that a worker keeps to itself during one batch: how
/// many candidates it has generated and how many of those it has already
/// handed to the shared total.
pub struct BatchCounter {
    attempts: u64,
    flushed: u64,
}

impl BatchCounter {
    #[verifier::type_invariant]
    spec fn consistent(&self) -> bool {
        self.flushed <= self.attempts <= BATCH_SIZE
    }

    /// Candidates generated so far in this batch.
    pub closed spec fn spec_attempts(&self) -> nat {
        self.attempts as nat
    }

    /// Attempts already handed to the shared total.
    pub closed spec fn spec_flushed(&self) -> nat {
        self.flushed as nat
    }

    /// The counter at the start of a batch.
    pub fn new() -> (counter: BatchCounter)
        ensures
            counter.spec_attempts() == 0,
            counter.spec_flushed() == 0,
    {
        BatchCounter { attempts: 0, flushed: 0 }
    }

    /// Candidates generated so far in this batch.
    pub fn attempts(&self) -> (attempts: u64)
        ensures
            attempts == self.spec_attempts(),
            self.spec_flushed() <= attempts <= BATCH_SIZE,
    {
        proof {
            use_type_invariant(self);
        }
        self.attempts
    }

    /// Attempts already handed to the shared total.
    pub fn flushed(&self) -> (flushed: u64)
        ensures
            flushed == self.spec_flushed(),
            flushed <= self.spec_attempts(),
    {
        proof {
            use_type_invariant(self);
        }
        self.flushed
    }

    /// Whether the batch is complete.
    pub fn is_full(&self) -> (full: bool)
        ensures
            full == (self.spec_attempts() >= BATCH_SIZE),
    {
        self.attempts >= BATCH_SIZE
    }

    /// Whether the stop signal is to be read before the next attempt: at the
    /// start of the batch and after every `STOP_CHECK_INTERVAL` attempts.
    pub fn stop_check_due(&self) -> (due: bool)
        ensures
            due == (self.spec_attempts() % (STOP_CHECK_INTERVAL as nat) == 0),
    {
        self.attempts % STOP_CHECK_INTERVAL == 0
    }

    /// Whether enough unflushed attempts have piled up to hand them over.
    pub fn flush_due(&self) -> (due: bool)
        ensures
            due == (self.spec_attempts() - self.spec_flushed() >= FLUSH_INTERVAL),
    {
        proof {
            use_type_invariant(self);
        }
        self.attempts - self.flushed >= FLUSH_INTERVAL
    }

    /// Counts one more candidate. The batch must not be complete.
    pub fn record_attempt(&mut self)
        requires
            old(self).spec_attempts() < BATCH_SIZE,
        ensures
            final(self).spec_attempts() == old(self).spec_attempts() + 1,
            final(self).spec_flushed() == old(self).spec_flushed(),
    {
        proof {
            use_type_invariant(&*self);
        }
        self.attempts = self.attempts + 1;
    }

    /// Takes the attempts not yet handed over, marking them as handed over.
    /// Each attempt is taken exactly once.
    pub fn take_unflushed(&mut self) -> (count: u64)
        ensures
            count == old(self).spec_attempts() - old(self).spec_flushed(),
            final(self).spec_attempts() == old(self).spec_attempts(),
            final(self).spec_flushed() == old(self).spec_attempts(),
    {
        proof {
            use_type_invariant(&*self);
        }
        let count: u64 = self.attempts - self.flushed;
        self.flushed = self.attempts;
        count
    }
}

/// A keypair whose address starts with a prefix of the table, and that prefix.
#[derive(Debug)]
pub struct Winner {
    pub keypair: KeypairBytes,
    pub matched_prefix: String,
}

impl Winner {
    /// The matched prefix is the text of the first entry of the table, in
    /// table order, that the keypair's address starts with.
    pub open spec fn wins(&self, prefixes: Seq<Seq<char>>) -> bool {
        matched_text(self.keypair.spec_address(), prefixes) == Some(self.matched_prefix@)
    }
}

/// The reason a batch came to its end.
#[derive(Clone, Copy, Debug, PartialEq, Eq)]
pub enum BatchEnd {
    /// A candidate matched and this worker's claim turned the stop signal on.
    Won,
    /// A candidate matched, but another worker had claimed the win first;
    /// the candidate was dropped.
    Discarded,
    /// The stop signal was found on at one of the periodic reads.
    StoodDown,
    /// The batch ran to its full size without a match.
    Exhausted,
}

/// How a batch ended: why, with a winner or without, after how many
/// attempts, and how many attempts it added to the shared total.
#[derive(Debug)]
pub struct BatchOutcome {
    pub end: BatchEnd,
    pub winner: Option<Winner>,
    pub attempts: u64,
    pub flushed: u64,
}

impl BatchOutcome {
    /// The books of the batch are in order: every attempt was added to the
    /// shared total, none twice, and the number of attempts fits the way
    /// the batch ended. Only a batch that won has a winner; a match costs
    /// at least one attempt; a worker stands down only where a read of the
    /// stop signal is due; a batch is exhausted only at its full size.
    pub open spec fn settled(&self) -> bool {
        &&& self.flushed == self.attempts
        &&& self.attempts <= BATCH_SIZE
        &&& self.winner is Some <==> self.end == BatchEnd::Won
        &&& match self.end {
            BatchEnd::Won => self.attempts >= 1,
            BatchEnd::Discarded => self.attempts >= 1,
            BatchEnd::StoodDown => self.attempts < BATCH_SIZE && self.attempts % STOP_CHECK_INTERVAL
                == 0,
            BatchEnd::Exhausted => self.attempts == BATCH_SIZE,
        }
    }
}

/// What a list of finished batches has added to the shared total.
pub open spec fn sum_flushed(outcomes: Seq<BatchOutcome>) -> nat
    decreases outcomes.len(),
{
    if outcomes.len() == 0 {
        0
    } else {
        sum_flushed(outcomes.drop_last()) + outcomes.last().flushed as nat
    }
}

/// The candidates generated in those batches of a list that thread `thread`
/// ran, `owner[i]` being the thread that ran batch `i`.
pub open spec fn sum_attempts_of(outcomes: Seq<BatchOutcome>, owner: Seq<nat>, thread: nat) -> nat
    decreases outcomes.len(),
{
    if outcomes.len() == 0 {
        0
    } else {
        let rest = sum_attempts_of(outcomes.drop_last(), owner, thread);
        if owner[outcomes.len() - 1] == thread {
            rest + outcomes.last().attempts as nat
        } else {
            rest
        }
    }
}

/// Over any list of batches whose books are in order, the sum of what they
/// added to the shared total is at least the number of candidates that any
/// one thread generated in them, and at least the attempts of each batch.
pub proof fn lemma_sum_covers_every_thread(
    outcomes: Seq<BatchOutcome>,
    owner: Seq<nat>,
    thread: nat,
)
    requires
        owner.len() == outcomes.len(),
        forall|i: int| 0 <= i < outcomes.len() ==> (#[trigger] outcomes[i]).settled(),
    ensures
        sum_flushed(outcomes) >= sum_attempts_of(outcomes, owner, thread),
        forall|i: int|
            0 <= i < outcomes.len() ==> sum_flushed(outcomes) >= (#[trigger] outcomes[i]).attempts,
    decreases outcomes.len(),
{
    if outcomes.len() > 0 {
        let head = outcomes.drop_last();
        assert(outcomes.last().settled());
        assert forall|i: int| 0 <= i < head.len() implies (#[trigger] head[i]).settled() by {
            assert(head[i] == outcomes[i]);
        }
        lemma_sum_covers_every_thread(head, owner.drop_last(), thread);
        lemma_owner_beyond_end(head, owner, owner.drop_last(), thread);
        assert forall|i: int| 0 <= i < outcomes.len() implies sum_flushed(outcomes) >= (
        #[trigger] outcomes[i]).attempts by {
            if i < head.len() {
                assert(head[i] == outcomes[i]);
            }
        }
    }
}

/// Only the owners of the batches in the list count towards a thread's sum.
proof fn lemma_owner_beyond_end(
    outcomes: Seq<BatchOutcome>,
    owner: Seq<nat>,
    cut: Seq<nat>,
    thread: nat,
)
    requires
        outcomes.len() <= cut.len() <= owner.len(),
        forall|i: int| 0 <= i < cut.len() ==> cut[i] == owner[i],
    ensures
        sum_attempts_of(outcomes, owner, thread) == sum_attempts_of(outcomes, cut, thread),
    decreases outcomes.len(),
{
    if outcomes.len() > 0 {
        lemma_owner_beyond_end(outcomes.drop_last(), owner, cut, thread);
    }
}

/// Where one of a list of batches with books in order has a winner, the sum
/// of what the batches added to the shared total is at least one.
pub proof fn lemma_sum_positive_with_winner(outcomes: Seq<BatchOutcome>, winning: int)
    requires
        0 <= winning < outcomes.len(),
        outcomes[winning].winner is Some,
        forall|i: int| 0 <= i < outcomes.len() ==> (#[trigger] outcomes[i]).settled(),
    ensures
        sum_flushed(outcomes) >= 1,
{
    lemma_sum_covers_every_thread(outcomes, Seq::new(outcomes.len(), |i: int| 0nat), 0);
    assert(outcomes[winning].settled());
}

/// Tests one candidate: encodes its address once and runs the matcher on it.
/// The candidate wins exactly when its address starts with an entry of the
/// table, and then with the text of the first such entry.
pub fn judge_candidate(keypair: KeypairBytes, table: &[PrefixEntry]) -> (verdict: Option<Winner>)
    ensures
        match matched_text(keypair.spec_address(), table_texts(table@)) {
            Some(text) => verdict matches Some(w) && w.keypair == keypair && w.matched_prefix@
                == text,
            None => verdict is None,
        },
{
    let address: String = keypair.address();
    match matching_prefix(address.as_str(), table) {
        Some(matched_prefix) => Some(Winner { keypair, matched_prefix }),
        None => None,
    }
}

/// Ends a batch: hands the remaining attempts to the shared total and
/// reports how the batch went.
fn finish_batch(
    counter: BatchCounter,
    shared: &SearchState,
    end: BatchEnd,
    winner: Option<Winner>,
) -> (outcome: BatchOutcome)
    requires
        winner is Some <==> end == BatchEnd::Won,
        match end {
            BatchEnd::Won => counter.spec_attempts() >= 1,
            BatchEnd::Discarded => counter.spec_attempts() >= 1,
            BatchEnd::StoodDown => counter.spec_attempts() < BATCH_SIZE && counter.spec_attempts()
                % (STOP_CHECK_INTERVAL as nat) == 0,
            BatchEnd::Exhausted => counter.spec_attempts() == BATCH_SIZE,
        },
    ensures
        outcome.end == end,
        outcome.winner == winner,
        outcome.attempts == counter.spec_attempts(),
        outcome.settled(),
{
    let mut counter = counter;
    let rest: u64 = counter.take_unflushed();
    shared.add_attempts(rest);
    let attempts: u64 = counter.attempts();
    let flushed: u64 = counter.flushed();
    BatchOutcome { end, winner, attempts, flushed }
}

/// Runs one batch of the worker loop.
///
/// Before an attempt the worker reads the stop signal, though only once per
/// `STOP_CHECK_INTERVAL` attempts; if another worker has won, it stands down.
/// Otherwise it generates a candidate, counts it and tests it. On a match it
/// claims the win; only the worker whose claim turns the signal on keeps its
/// candidate, any other discards it. Along the way the worker hands its
/// attempts to the shared total every `FLUSH_INTERVAL` attempts, emitting a
/// snapshot when the total calls for one, and hands over the rest when the
/// batch ends, so that every attempt is counted exactly once.
pub fn run_batch<G, R>(
    table: &[PrefixEntry],
    shared: &SearchState,
    generate: &G,
    report: &R,
) -> (outcome: BatchOutcome) where G: Fn() -> KeypairBytes, R: Fn(ProgressSnapshot) -> ()
    requires
        generate.requires(()),
        forall|snapshot: ProgressSnapshot| report.requires((snapshot,)),
    ensures
        outcome.winner matches Some(w) ==> w.wins(table_texts(table@)) && generate.ensures(
            (),
            w.keypair,
        ),
        outcome.settled(),
{
    let mut counter: BatchCounter = BatchCounter::new();
    while !counter.is_full()
        invariant
            generate.requires(()),
            forall|snapshot: ProgressSnapshot| report.requires((snapshot,)),
        decreases BATCH_SIZE - counter.spec_attempts(),
    {
        if counter.stop_check_due() && shared.stop_requested() {
            return finish_batch(counter, shared, BatchEnd::StoodDown, None);
        }
        let candidate: KeypairBytes = generate();
        counter.record_attempt();
        match judge_candidate(candidate, table) {
            Some(winner) => {
                if shared.claim_win() {
                    return finish_batch(counter, shared, BatchEnd::Won, Some(winner));
                }
                return finish_batch(counter, shared, BatchEnd::Discarded, None);
            },
            None => {
                if counter.flush_due() {
                    let total: u64 = shared.add_attempts(counter.take_unflushed());
                    if report_due(total) {
                        report(shared.snapshot(total));
                    }
                }
            },
        }
    }
    proof {
        use_type_invariant(&counter);
    }
    finish_batch(counter, shared, BatchEnd::Exhausted, None)
}

} // verus!
