use vstd::prelude::*;
use std::collections::HashMap;
use std::collections::HashSet;
use crate::transaction::QueueEntry;
use crate::transaction::QueuedTransaction;
use crate::transaction::TxKind;
use crate::transaction::is_queued;
use crate::transaction::failed_in;
use crate::transaction::has_failed;
use crate::transaction::queued_in;
use crate::transaction::unique_entries;

verus! {

broadcast use vstd::std_specs::hash::group_hash_axioms;

/// What the beacon answered for one round.
#[derive(Debug)]
pub enum BeaconFetch {
    /// The round exists; its randomness, hex encoded.
    Ready(String),
    /// The round has not been produced yet.
    NotYetAvailable,
    /// The beacon could not be reached or answered garbage.
    FetchError,
}

/// What was observed for one scheduled drand round: its timestamp, whether
/// the chain already stores a value for it, and the beacon's answer.
#[derive(Debug)]
pub struct DrandProbe {
    pub timestamp: u64,
    pub stored_on_chain: bool,
    pub beacon: BeaconFetch,
}

/// The on-chain phase of one commit-reveal round.
#[derive(Debug)]
pub enum RoundPhase {
    /// No commitment on chain yet.
    Pending,
    Committed,
    /// Revealed, with the round's final randomness.
    Revealed(String),
}

/// What was observed for one sequencer commitment boundary: the phase of its
/// round on chain, and the commitment this instance would submit.
#[derive(Debug)]
pub struct CommitProbe {
    pub timestamp: u64,
    pub phase: RoundPhase,
    pub commitment: String,
}

/// What was observed for one commit-reveal round: its phase on chain and the
/// pre-image of its commitment, where this instance still knows it.
#[derive(Debug)]
pub struct RoundProbe {
    pub timestamp: u64,
    pub phase: RoundPhase,
    pub preimage: Option<String>,
}


/// How the submission of the transaction at the head of the queue ended.
#[derive(Clone, Copy, Debug, PartialEq, Eq, Structural)]
pub enum SubmissionOutcome {
    /// Included and confirmed.
    Confirmed,
    /// Rejected deterministically, as a value for it is already recorded.
    RevertedAsDuplicate,
    /// Timed out, dropped, or the RPC call failed.
    TransientFailure,
}

/// What the engine did with a submission outcome.
#[derive(Clone, Copy, Debug, PartialEq, Eq, Structural)]
pub enum OutcomeEffect {
    /// The queue was empty: there was nothing in flight.
    NothingInFlight,
    /// The work is recorded as done and the entry left the queue.
    Recorded,
    /// The entry stays at the head of the queue for the next tick.
    Requeued,
    /// The retry budget is spent: the entry moved to the persistent failures.
    PersistentFailure,
}

/// The relay's engine state: the transaction queue and the dedup caches.
pub struct RandomOracleService {
    /// Pending operations, oldest first.
    pub transaction_queue: Vec<QueueEntry>,
    /// Timestamps whose drand value is known to be recorded on chain.
    pub processed_drand_timestamps: HashSet<u64>,
    /// Timestamps whose sequencer commitment is known to be recorded on chain.
    pub committed_timestamps: HashSet<u64>,
    /// Final sequencer randomness of the rounds known to be revealed.
    pub sequencer_randomness_cache: HashMap<u64, String>,
    /// Entries whose retry budget is spent; they wait for an operator.
    pub persistent_failures: Vec<QueuedTransaction>,
    /// Seconds between a commitment's timestamp and the opening of its reveal window.
    pub reveal_delay: u64,
    /// How many transient failures an entry may see and still be retried.
    pub max_retries: u32,
}

pub open spec fn beacon_ready(b: BeaconFetch) -> bool {
    match b {
        BeaconFetch::Ready(_) => true,
        _ => false,
    }
}

pub open spec fn beacon_value(b: BeaconFetch) -> Seq<char> {
    match b {
        BeaconFetch::Ready(v) => v@,
        _ => Seq::empty(),
    }
}

/// Some probe reports a drand value for `t` stored on chain.
pub open spec fn drand_stored(probes: Seq<DrandProbe>, t: u64) -> bool {
    exists|j: int|
        0 <= j < probes.len() && #[trigger] probes[j].timestamp == t && probes[j].stored_on_chain
}

/// A probe that asks for a drand submission: due, absent from chain, and
/// delivered by the beacon.
pub open spec fn drand_candidate(p: DrandProbe, current: u64) -> bool {
    p.timestamp <= current && !p.stored_on_chain && beacon_ready(p.beacon)
}


/// `e` is an entry that a drand backfill may add: a fresh drand transaction,
/// due and delivered by the beacon, neither confirmed, queued nor given up
/// before.
pub open spec fn drand_added(
    e: QueueEntry,
    pre: RandomOracleService,
    post: RandomOracleService,
    current: u64,
    probes: Seq<DrandProbe>,
) -> bool {
    let t = e.tx.timestamp_spec();
    &&& e.tx.kind_spec() == TxKind::Drand
    &&& e.attempts == 0
    &&& !post.is_confirmed(TxKind::Drand, t)
    &&& !queued_in(pre.transaction_queue@, TxKind::Drand, t)
    &&& !failed_in(pre.persistent_failures@, TxKind::Drand, t)
    &&& exists|j: int|
        0 <= j < probes.len() && #[trigger] probes[j].timestamp == t && drand_candidate(
            probes[j],
            current,
        ) && beacon_value(probes[j].beacon) == e.tx.value_spec()
}

/// What a drand backfill pass does to the engine, given the current chain
/// time and the probes of the scheduled rounds: rounds stored on chain become
/// processed; every due round that the beacon delivered and that is neither
/// processed nor given up is queued afterwards; the queue only grows at its end, and only
/// by such rounds.
pub open spec fn drand_backfill_post(
    pre: RandomOracleService,
    post: RandomOracleService,
    current: u64,
    probes: Seq<DrandProbe>,
) -> bool {
    let oq = pre.transaction_queue@;
    let nq = post.transaction_queue@;
    &&& post.processed_drand_timestamps@ == pre.processed_drand_timestamps@.union(
        Set::new(|t: u64| drand_stored(probes, t)),
    )
    &&& post.committed_timestamps@ == pre.committed_timestamps@
    &&& post.sequencer_randomness_cache@ == pre.sequencer_randomness_cache@
    &&& post.persistent_failures@ == pre.persistent_failures@
    &&& post.reveal_delay == pre.reveal_delay
    &&& post.max_retries == pre.max_retries
    &&& oq.len() <= nq.len()
    &&& nq.subrange(0, oq.len() as int) == oq
    &&& forall|i: int| oq.len() <= i < nq.len() ==> drand_added(#[trigger] nq[i], pre, post, current, probes)
    &&& forall|j: int|
        0 <= j < probes.len() && drand_candidate(#[trigger] probes[j], current)
            && !post.is_confirmed(TxKind::Drand, probes[j].timestamp)
            && !failed_in(pre.persistent_failures@, TxKind::Drand, probes[j].timestamp) ==> queued_in(
            nq,
            TxKind::Drand,
            probes[j].timestamp,
        )
}


pub open spec fn phase_commits(ph: RoundPhase) -> bool {
    match ph {
        RoundPhase::Pending => false,
        _ => true,
    }
}

pub open spec fn phase_committed_only(ph: RoundPhase) -> bool {
    match ph {
        RoundPhase::Committed => true,
        _ => false,
    }
}

pub open spec fn phase_revealed(ph: RoundPhase) -> bool {
    match ph {
        RoundPhase::Revealed(_) => true,
        _ => false,
    }
}

pub open spec fn revealed_value(ph: RoundPhase) -> Seq<char> {
    match ph {
        RoundPhase::Revealed(v) => v@,
        _ => Seq::empty(),
    }
}

pub open spec fn preimage_value(p: Option<String>) -> Seq<char> {
    match p {
        Some(v) => v@,
        None => Seq::empty(),
    }
}

/// One of the first `n` probes shows a commitment for `t` on chain.
pub open spec fn committed_upto(probes: Seq<CommitProbe>, n: int, t: u64) -> bool {
    exists|k: int|
        0 <= k < n && #[trigger] probes[k].timestamp == t && phase_commits(probes[k].phase)
}

/// One of the first `n` probes shows round `t` revealed on chain.
pub open spec fn revealed_upto(probes: Seq<CommitProbe>, n: int, t: u64) -> bool {
    exists|k: int|
        0 <= k < n && #[trigger] probes[k].timestamp == t && phase_revealed(probes[k].phase)
}

/// One of the first `n` probes shows round `t` revealed with randomness `v`.
pub open spec fn revealed_as(probes: Seq<CommitProbe>, n: int, t: u64, v: Seq<char>) -> bool {
    exists|k: int|
        0 <= k < n && #[trigger] probes[k].timestamp == t && phase_revealed(probes[k].phase)
            && revealed_value(probes[k].phase) == v
}

/// Some probe shows a commitment for `t` on chain.
pub open spec fn commit_stored(probes: Seq<CommitProbe>, t: u64) -> bool {
    committed_upto(probes, probes.len() as int, t)
}

/// Some probe shows round `t` revealed on chain.
pub open spec fn commit_revealed(probes: Seq<CommitProbe>, t: u64) -> bool {
    revealed_upto(probes, probes.len() as int, t)
}

/// A probe that asks for a commitment submission: its boundary is reached
/// and the chain holds no commitment for it.
pub open spec fn commit_candidate(p: CommitProbe, current: u64) -> bool {
    p.timestamp <= current && !phase_commits(p.phase)
}

/// `e` is an entry that a commitment backfill may add: a fresh commitment for
/// a reached boundary, neither confirmed, queued nor given up before.
pub open spec fn commit_added(
    e: QueueEntry,
    pre: RandomOracleService,
    post: RandomOracleService,
    current: u64,
    probes: Seq<CommitProbe>,
) -> bool {
    let t = e.tx.timestamp_spec();
    &&& e.tx.kind_spec() == TxKind::Commitment
    &&& e.attempts == 0
    &&& !post.is_confirmed(TxKind::Commitment, t)
    &&& !queued_in(pre.transaction_queue@, TxKind::Commitment, t)
    &&& !failed_in(pre.persistent_failures@, TxKind::Commitment, t)
    &&& exists|j: int|
        0 <= j < probes.len() && #[trigger] probes[j].timestamp == t && commit_candidate(
            probes[j],
            current,
        ) && probes[j].commitment@ == e.tx.value_spec()
}

/// What a commitment backfill pass does to the engine, given the on-chain
/// phase of each boundary: boundaries committed on chain become known as
/// committed; rounds revealed on chain enter the randomness cache with the
/// chain's value (a cached value is kept); every reached boundary without a
/// known commitment, and not given up, is queued afterwards; the queue only
/// grows at its end, and only by such boundaries.
pub open spec fn commit_backfill_post(
    pre: RandomOracleService,
    post: RandomOracleService,
    current: u64,
    probes: Seq<CommitProbe>,
) -> bool {
    let oq = pre.transaction_queue@;
    let nq = post.transaction_queue@;
    &&& post.committed_timestamps@ == pre.committed_timestamps@.union(
        Set::new(|t: u64| commit_stored(probes, t)),
    )
    &&& post.sequencer_randomness_cache@.dom() == pre.sequencer_randomness_cache@.dom().union(
        Set::new(|t: u64| commit_revealed(probes, t)),
    )
    &&& forall|t: u64|
        #[trigger] pre.sequencer_randomness_cache@.contains_key(t)
            ==> post.sequencer_randomness_cache@[t] == pre.sequencer_randomness_cache@[t]
    &&& forall|t: u64|
        #[trigger] post.sequencer_randomness_cache@.contains_key(t)
            && !pre.sequencer_randomness_cache@.contains_key(t) ==> revealed_as(
            probes,
            probes.len() as int,
            t,
            post.sequencer_randomness_cache@[t]@,
        )
    &&& post.processed_drand_timestamps@ == pre.processed_drand_timestamps@
    &&& post.persistent_failures@ == pre.persistent_failures@
    &&& post.reveal_delay == pre.reveal_delay
    &&& post.max_retries == pre.max_retries
    &&& oq.len() <= nq.len()
    &&& nq.subrange(0, oq.len() as int) == oq
    &&& forall|i: int| oq.len() <= i < nq.len() ==> commit_added(#[trigger] nq[i], pre, post, current, probes)
    &&& forall|j: int|
        0 <= j < probes.len() && commit_candidate(#[trigger] probes[j], current)
            && !post.is_confirmed(TxKind::Commitment, probes[j].timestamp)
            && !failed_in(pre.persistent_failures@, TxKind::Commitment, probes[j].timestamp)
            ==> queued_in(nq, TxKind::Commitment, probes[j].timestamp)
}

/// One of the first `n` round probes shows a commitment for `t` on chain.
pub open spec fn round_committed_upto(probes: Seq<RoundProbe>, n: int, t: u64) -> bool {
    exists|k: int|
        0 <= k < n && #[trigger] probes[k].timestamp == t && phase_commits(probes[k].phase)
}

/// A probe that asks for a reveal: the chain shows the round committed and
/// not revealed, the reveal window is open, the pre-image is known, and the
/// reveal was not given up.
pub open spec fn reveal_candidate(p: RoundProbe, s: RandomOracleService, current: u64) -> bool {
    &&& phase_committed_only(p.phase)
    &&& p.timestamp + s.reveal_delay <= current
    &&& p.preimage is Some
    &&& !failed_in(s.persistent_failures@, TxKind::Reveal, p.timestamp)
}

/// `e` is an entry that a reveal pass may add: the reveal of a round that the
/// chain shows committed, whose commitment is thereby known as confirmed and
/// whose reveal window is open, neither confirmed nor queued before.
pub open spec fn reveal_added(
    e: QueueEntry,
    pre: RandomOracleService,
    post: RandomOracleService,
    current: u64,
    probes: Seq<RoundProbe>,
) -> bool {
    let t = e.tx.timestamp_spec();
    &&& e.tx.kind_spec() == TxKind::Reveal
    &&& e.attempts == 0
    &&& post.is_confirmed(TxKind::Commitment, t)
    &&& t + pre.reveal_delay <= current
    &&& !pre.is_confirmed(TxKind::Reveal, t)
    &&& !queued_in(pre.transaction_queue@, TxKind::Reveal, t)
    &&& exists|j: int|
        0 <= j < probes.len() && #[trigger] probes[j].timestamp == t && reveal_candidate(
            probes[j],
            pre,
            current,
        ) && preimage_value(probes[j].preimage) == e.tx.value_spec()
}

/// What a reveal pass does to the engine: rounds the chain shows committed
/// become known as committed; the queue only grows at its end, and only by
/// reveals that are owed; every owed reveal is queued afterwards. The caches
/// stay as they are.
pub open spec fn reveal_advance_post(
    pre: RandomOracleService,
    post: RandomOracleService,
    current: u64,
    probes: Seq<RoundProbe>,
) -> bool {
    let oq = pre.transaction_queue@;
    let nq = post.transaction_queue@;
    &&& post.committed_timestamps@ == pre.committed_timestamps@.union(
        Set::new(|t: u64| round_committed_upto(probes, probes.len() as int, t)),
    )
    &&& post.sequencer_randomness_cache@ == pre.sequencer_randomness_cache@
    &&& post.processed_drand_timestamps@ == pre.processed_drand_timestamps@
    &&& post.persistent_failures@ == pre.persistent_failures@
    &&& post.reveal_delay == pre.reveal_delay
    &&& post.max_retries == pre.max_retries
    &&& oq.len() <= nq.len()
    &&& nq.subrange(0, oq.len() as int) == oq
    &&& forall|i: int| oq.len() <= i < nq.len() ==> reveal_added(#[trigger] nq[i], pre, post, current, probes)
    &&& forall|j: int|
        0 <= j < probes.len() && reveal_candidate(#[trigger] probes[j], pre, current)
            && !pre.is_confirmed(TxKind::Reveal, probes[j].timestamp) ==> queued_in(
            nq,
            TxKind::Reveal,
            probes[j].timestamp,
        )
}

/// The effect of `next_submission`: heads of the queue whose work is known
/// to be recorded are dropped; nothing else changes, and the new head, if
/// any, is work not known to be recorded.
pub open spec fn drop_recorded_post(pre: RandomOracleService, post: RandomOracleService) -> bool {
    let oq = pre.transaction_queue@;
    let nq = post.transaction_queue@;
    &&& post.processed_drand_timestamps@ == pre.processed_drand_timestamps@
    &&& post.committed_timestamps@ == pre.committed_timestamps@
    &&& post.sequencer_randomness_cache@ == pre.sequencer_randomness_cache@
    &&& post.persistent_failures@ == pre.persistent_failures@
    &&& post.reveal_delay == pre.reveal_delay
    &&& post.max_retries == pre.max_retries
    &&& exists|k: int|
        0 <= k <= oq.len() && nq == oq.subrange(k, oq.len() as int) && forall|i: int|
            0 <= i < k ==> pre.is_confirmed(
                (#[trigger] oq[i]).tx.kind_spec(),
                oq[i].tx.timestamp_spec(),
            )
    &&& nq.len() > 0 ==> !post.is_confirmed(nq[0].tx.kind_spec(), nq[0].tx.timestamp_spec())
}

/// The effect of `record_outcome` on a confirmation or a benign revert: with
/// an empty queue nothing changes; otherwise the head leaves the queue, its
/// work is recorded, and what was recorded stays recorded.
pub open spec fn record_done_post(pre: RandomOracleService, post: RandomOracleService) -> bool {
    let oq = pre.transaction_queue@;
    if oq.len() == 0 {
        post == pre
    } else {
        &&& post.transaction_queue@ == oq.subrange(1, oq.len() as int)
        &&& post.is_confirmed(oq[0].tx.kind_spec(), oq[0].tx.timestamp_spec())
        &&& pre.processed_drand_timestamps@.subset_of(post.processed_drand_timestamps@)
        &&& pre.committed_timestamps@.subset_of(post.committed_timestamps@)
        &&& post.sequencer_randomness_cache@ == pre.sequencer_randomness_cache@
        &&& post.persistent_failures@ == pre.persistent_failures@
        &&& post.reveal_delay == pre.reveal_delay
        &&& post.max_retries == pre.max_retries
    }
}

impl RandomOracleService {
    /// The work of `kind` for `timestamp` is known to be recorded on chain. A
    /// confirmed reveal marks its timestamp processed, as a drand value does.
    pub open spec fn is_confirmed(&self, kind: TxKind, timestamp: u64) -> bool {
        match kind {
            TxKind::Drand => self.processed_drand_timestamps@.contains(timestamp),
            TxKind::Commitment => self.committed_timestamps@.contains(timestamp),
            TxKind::Reveal => self.processed_drand_timestamps@.contains(timestamp)
                || self.sequencer_randomness_cache@.contains_key(timestamp),
        }
    }

    /// The queue holds at most one entry per kind and timestamp, and no entry
    /// has used up its retry budget.
    pub open spec fn wf(&self) -> bool {
        &&& unique_entries(self.transaction_queue@)
        &&& forall|i: int|
            0 <= i < self.transaction_queue@.len() ==> #[trigger] self.transaction_queue@[i].attempts
                <= self.max_retries
    }

    /// An engine with an empty queue and empty caches.
    pub fn new(reveal_delay: u64, max_retries: u32) -> (r: RandomOracleService)
        ensures
            r.wf(),
            r.transaction_queue@.len() == 0,
            r.processed_drand_timestamps@ == Set::<u64>::empty(),
            r.committed_timestamps@ == Set::<u64>::empty(),
            r.sequencer_randomness_cache@ == Map::<u64, String>::empty(),
            r.persistent_failures@.len() == 0,
            r.reveal_delay == reveal_delay,
            r.max_retries == max_retries,
    {
        RandomOracleService {
            transaction_queue: Vec::new(),
            processed_drand_timestamps: HashSet::new(),
            committed_timestamps: HashSet::new(),
            sequencer_randomness_cache: HashMap::new(),
            persistent_failures: Vec::new(),
            reveal_delay,
            max_retries,
        }
    }

    /// Whether the work of `kind` for `timestamp` is known to be recorded.
    pub fn confirmed(&self, kind: TxKind, timestamp: u64) -> (r: bool)
        ensures
            r == self.is_confirmed(kind, timestamp),
    {
        match kind {
            TxKind::Drand => self.processed_drand_timestamps.contains(&timestamp),
            TxKind::Commitment => self.committed_timestamps.contains(&timestamp),
            TxKind::Reveal => self.processed_drand_timestamps.contains(&timestamp)
                || self.sequencer_randomness_cache.contains_key(&timestamp),
        }
    }

    /// Backfill Reconciler, drand side. `probes` are the scheduled rounds up
    /// to now, each with what the chain and the beacon said of it. A round
    /// that the chain stores becomes processed; a due round that is neither
    /// stored nor processed nor queued nor given up, and that the beacon
    /// delivered, is queued. A round the beacon did not deliver waits for a later pass.
    pub fn backfill_missing_values(&mut self, current_timestamp: u64, probes: &Vec<DrandProbe>)
        requires
            old(self).wf(),
        ensures
            final(self).wf(),
            drand_backfill_post(*old(self), *final(self), current_timestamp, probes@),
    {
        let ghost pre = *self;
        let mut j: usize = 0;
        while j < probes.len()
            invariant
                0 <= j <= probes.len(),
                self.wf(),
                self.transaction_queue@ == pre.transaction_queue@,
                self.committed_timestamps@ == pre.committed_timestamps@,
                self.sequencer_randomness_cache@ == pre.sequencer_randomness_cache@,
                self.persistent_failures@ == pre.persistent_failures@,
                self.reveal_delay == pre.reveal_delay,
                self.max_retries == pre.max_retries,
                self.processed_drand_timestamps@ == pre.processed_drand_timestamps@.union(
                    Set::new(|t: u64| drand_stored(probes@.subrange(0, j as int), t)),
                ),
            decreases probes.len() - j,
        {
            let ghost before = self.processed_drand_timestamps@;
            if probes[j].stored_on_chain {
                self.processed_drand_timestamps.insert(probes[j].timestamp);
            }
            proof {
                let s0 = probes@.subrange(0, j as int);
                let s1 = probes@.subrange(0, j + 1);
                assert forall|t: u64| drand_stored(s1, t) == (drand_stored(s0, t) || (
                probes@[j as int].stored_on_chain && probes@[j as int].timestamp == t)) by {
                    if drand_stored(s0, t) {
                        let k = choose|k: int|
                            0 <= k < s0.len() && #[trigger] s0[k].timestamp == t
                                && s0[k].stored_on_chain;
                        assert(s1[k] == s0[k]);
                    }
                    if probes@[j as int].stored_on_chain && probes@[j as int].timestamp == t {
                        assert(s1[j as int] == probes@[j as int]);
                    }
                    if drand_stored(s1, t) {
                        let k = choose|k: int|
                            0 <= k < s1.len() && #[trigger] s1[k].timestamp == t
                                && s1[k].stored_on_chain;
                        if k < j {
                            assert(s0[k] == s1[k]);
                        }
                    }
                }
                assert(self.processed_drand_timestamps@ =~= pre.processed_drand_timestamps@.union(
                    Set::new(|t: u64| drand_stored(s1, t)),
                ));
            }
            j = j + 1;
        }
        proof {
            assert(probes@.subrange(0, probes@.len() as int) =~= probes@);
        }
        let ghost mid = *self;
        let mut j: usize = 0;
        while j < probes.len()
            invariant
                0 <= j <= probes.len(),
                self.wf(),
                self.processed_drand_timestamps@ == mid.processed_drand_timestamps@,
                self.committed_timestamps@ == pre.committed_timestamps@,
                self.sequencer_randomness_cache@ == pre.sequencer_randomness_cache@,
                self.persistent_failures@ == pre.persistent_failures@,
                self.reveal_delay == pre.reveal_delay,
                self.max_retries == pre.max_retries,
                mid.processed_drand_timestamps@ == pre.processed_drand_timestamps@.union(
                    Set::new(|t: u64| drand_stored(probes@, t)),
                ),
                pre.transaction_queue@.len() <= self.transaction_queue@.len(),
                self.transaction_queue@.subrange(0, pre.transaction_queue@.len() as int)
                    == pre.transaction_queue@,
                forall|i: int|
                    pre.transaction_queue@.len() <= i < self.transaction_queue@.len()
                        ==> drand_added(
                        #[trigger] self.transaction_queue@[i],
                        pre,
                        mid,
                        current_timestamp,
                        probes@,
                    ),
                forall|k: int|
                    0 <= k < j && drand_candidate(#[trigger] probes@[k], current_timestamp)
                        && !mid.is_confirmed(TxKind::Drand, probes@[k].timestamp)
                        && !failed_in(pre.persistent_failures@, TxKind::Drand, probes@[k].timestamp)
                        ==> queued_in(
                        self.transaction_queue@,
                        TxKind::Drand,
                        probes@[k].timestamp,
                    ),
            decreases probes.len() - j,
        {
            let p = &probes[j];
            if p.timestamp <= current_timestamp && !p.stored_on_chain
                && !self.processed_drand_timestamps.contains(&p.timestamp) {
                match &p.beacon {
                    BeaconFetch::Ready(v) => {
                        if !is_queued(&self.transaction_queue, TxKind::Drand, p.timestamp)
                            && !has_failed(&self.persistent_failures, TxKind::Drand, p.timestamp) {
                            let tx = QueuedTransaction::new(TxKind::Drand, p.timestamp, v.clone());
                            let e = QueueEntry { tx, attempts: 0 };
                            proof {
                                crate::transaction::lemma_push_keeps_queued(self.transaction_queue@, e);
                            }
                            self.transaction_queue.push(e);
                            assert(self.transaction_queue@.subrange(0, pre.transaction_queue@.len() as int)
                                =~= pre.transaction_queue@);
                        }
                    },
                    _ => {},
                }
            }
            j = j + 1;
        }
        assert(self.transaction_queue@.subrange(0, pre.transaction_queue@.len() as int)
            == pre.transaction_queue@);
    }


    /// Backfill Reconciler, sequencer side. `probes` are the commitment
    /// boundaries up to now, each with the phase of its round on chain and
    /// the commitment this instance would submit. A boundary the chain holds
    /// as committed becomes known as committed; a round the chain shows
    /// revealed enters the randomness cache with the chain's value; a reached
    /// boundary that is neither known as committed, queued nor given up gets
    /// a commitment queued.
    pub fn backfill_sequencer_values(&mut self, current_timestamp: u64, probes: &Vec<CommitProbe>)
        requires
            old(self).wf(),
        ensures
            final(self).wf(),
            commit_backfill_post(*old(self), *final(self), current_timestamp, probes@),
    {
        let ghost pre = *self;
        let mut j: usize = 0;
        while j < probes.len()
            invariant
                0 <= j <= probes.len(),
                self.wf(),
                self.transaction_queue@ == pre.transaction_queue@,
                self.processed_drand_timestamps@ == pre.processed_drand_timestamps@,
                self.persistent_failures@ == pre.persistent_failures@,
                self.reveal_delay == pre.reveal_delay,
                self.max_retries == pre.max_retries,
                self.committed_timestamps@ == pre.committed_timestamps@.union(
                    Set::new(|t: u64| committed_upto(probes@, j as int, t)),
                ),
                self.sequencer_randomness_cache@.dom() == pre.sequencer_randomness_cache@.dom().union(
                    Set::new(|t: u64| revealed_upto(probes@, j as int, t)),
                ),
                forall|t: u64|
                    #[trigger] pre.sequencer_randomness_cache@.contains_key(t)
                        ==> self.sequencer_randomness_cache@[t] == pre.sequencer_randomness_cache@[t],
                forall|t: u64|
                    #[trigger] self.sequencer_randomness_cache@.contains_key(t)
                        && !pre.sequencer_randomness_cache@.contains_key(t) ==> revealed_as(
                        probes@,
                        j as int,
                        t,
                        self.sequencer_randomness_cache@[t]@,
                    ),
            decreases probes.len() - j,
        {
            let p = &probes[j];
            let ghost cache0 = self.sequencer_randomness_cache@;
            match &p.phase {
                RoundPhase::Pending => {},
                RoundPhase::Committed => {
                    self.committed_timestamps.insert(p.timestamp);
                },
                RoundPhase::Revealed(v) => {
                    self.committed_timestamps.insert(p.timestamp);
                    if !self.sequencer_randomness_cache.contains_key(&p.timestamp) {
                        self.sequencer_randomness_cache.insert(p.timestamp, v.clone());
                    }
                },
            }
            proof {
                let n1 = j + 1;
                assert(probes@[j as int] == *p);
                assert forall|t: u64| committed_upto(probes@, n1, t) == (committed_upto(probes@, j as int, t) || (
                phase_commits(p.phase) && p.timestamp == t)) by {
                    if committed_upto(probes@, n1, t) {
                        let k = choose|k: int|
                            0 <= k < n1 && #[trigger] probes@[k].timestamp == t
                                && phase_commits(probes@[k].phase);
                        if k < j {
                            assert(committed_upto(probes@, j as int, t));
                        }
                    }
                }
                assert forall|t: u64| revealed_upto(probes@, n1, t) == (revealed_upto(probes@, j as int, t) || (
                phase_revealed(p.phase) && p.timestamp == t)) by {
                    if revealed_upto(probes@, n1, t) {
                        let k = choose|k: int|
                            0 <= k < n1 && #[trigger] probes@[k].timestamp == t
                                && phase_revealed(probes@[k].phase);
                        if k < j {
                            assert(revealed_upto(probes@, j as int, t));
                        }
                    }
                }
                assert(self.committed_timestamps@ =~= pre.committed_timestamps@.union(
                    Set::new(|t: u64| committed_upto(probes@, n1, t)),
                ));
                assert(self.sequencer_randomness_cache@.dom() =~= pre.sequencer_randomness_cache@.dom().union(
                    Set::new(|t: u64| revealed_upto(probes@, n1, t)),
                ));
                assert forall|t: u64|
                    #[trigger] self.sequencer_randomness_cache@.contains_key(t)
                        && !pre.sequencer_randomness_cache@.contains_key(t) implies revealed_as(
                        probes@,
                        n1,
                        t,
                        self.sequencer_randomness_cache@[t]@,
                    ) by {
                    if cache0.contains_key(t) {
                        assert(revealed_as(probes@, j as int, t, cache0[t]@));
                        let k = choose|k: int|
                            0 <= k < j && #[trigger] probes@[k].timestamp == t && phase_revealed(probes@[k].phase)
                                && revealed_value(probes@[k].phase) == cache0[t]@;
                        assert(0 <= k < n1);
                    } else {
                        assert(probes@[j as int].timestamp == t);
                    }
                }
            }
            j = j + 1;
        }
        let ghost mid = *self;
        let mut j: usize = 0;
        while j < probes.len()
            invariant
                0 <= j <= probes.len(),
                self.wf(),
                self.committed_timestamps@ == mid.committed_timestamps@,
                self.sequencer_randomness_cache@ == mid.sequencer_randomness_cache@,
                self.processed_drand_timestamps@ == pre.processed_drand_timestamps@,
                self.persistent_failures@ == pre.persistent_failures@,
                self.reveal_delay == pre.reveal_delay,
                self.max_retries == pre.max_retries,
                mid.committed_timestamps@ == pre.committed_timestamps@.union(
                    Set::new(|t: u64| commit_stored(probes@, t)),
                ),
                mid.sequencer_randomness_cache@.dom() == pre.sequencer_randomness_cache@.dom().union(
                    Set::new(|t: u64| commit_revealed(probes@, t)),
                ),
                forall|t: u64|
                    #[trigger] pre.sequencer_randomness_cache@.contains_key(t)
                        ==> mid.sequencer_randomness_cache@[t] == pre.sequencer_randomness_cache@[t],
                forall|t: u64|
                    #[trigger] mid.sequencer_randomness_cache@.contains_key(t)
                        && !pre.sequencer_randomness_cache@.contains_key(t) ==> revealed_as(
                        probes@,
                        probes@.len() as int,
                        t,
                        mid.sequencer_randomness_cache@[t]@,
                    ),
                mid.processed_drand_timestamps@ == pre.processed_drand_timestamps@,
                pre.transaction_queue@.len() <= self.transaction_queue@.len(),
                self.transaction_queue@.subrange(0, pre.transaction_queue@.len() as int)
                    == pre.transaction_queue@,
                forall|i: int|
                    pre.transaction_queue@.len() <= i < self.transaction_queue@.len()
                        ==> commit_added(
                        #[trigger] self.transaction_queue@[i],
                        pre,
                        mid,
                        current_timestamp,
                        probes@,
                    ),
                forall|k: int|
                    0 <= k < j && commit_candidate(#[trigger] probes@[k], current_timestamp)
                        && !mid.is_confirmed(TxKind::Commitment, probes@[k].timestamp)
                        && !failed_in(pre.persistent_failures@, TxKind::Commitment, probes@[k].timestamp)
                        ==> queued_in(self.transaction_queue@, TxKind::Commitment, probes@[k].timestamp),
            decreases probes.len() - j,
        {
            let p = &probes[j];
            let uncommitted = match &p.phase {
                RoundPhase::Pending => true,
                _ => false,
            };
            if p.timestamp <= current_timestamp && uncommitted
                && !self.committed_timestamps.contains(&p.timestamp)
                && !is_queued(&self.transaction_queue, TxKind::Commitment, p.timestamp)
                && !has_failed(&self.persistent_failures, TxKind::Commitment, p.timestamp) {
                let tx = QueuedTransaction::new(TxKind::Commitment, p.timestamp, p.commitment.clone());
                let e = QueueEntry { tx, attempts: 0 };
                proof {
                    crate::transaction::lemma_push_keeps_queued(self.transaction_queue@, e);
                }
                self.transaction_queue.push(e);
                assert(self.transaction_queue@.subrange(0, pre.transaction_queue@.len() as int)
                    =~= pre.transaction_queue@);
            }
            j = j + 1;
        }
        assert(self.transaction_queue@.subrange(0, pre.transaction_queue@.len() as int)
            == pre.transaction_queue@);
    }

    /// Reveal Advancer. `rounds` are the commit-reveal rounds in flight, each
    /// with its phase on chain and its pre-image where this instance knows
    /// it. A round that the chain shows committed becomes known as committed.
    /// A round that the chain shows committed and not revealed, whose reveal
    /// window has opened, whose pre-image is known, and which is neither
    /// confirmed, queued nor given up, gets its reveal queued. The caches do
    /// not change. A round whose pre-image is lost cannot be revealed by this
    /// instance.
    pub fn process_sequencer_reveals(&mut self, current_timestamp: u64, rounds: &Vec<RoundProbe>)
        requires
            old(self).wf(),
        ensures
            final(self).wf(),
            reveal_advance_post(*old(self), *final(self), current_timestamp, rounds@),
    {
        let ghost pre = *self;
        let mut j: usize = 0;
        while j < rounds.len()
            invariant
                0 <= j <= rounds.len(),
                self.wf(),
                self.transaction_queue@ == pre.transaction_queue@,
                self.sequencer_randomness_cache@ == pre.sequencer_randomness_cache@,
                self.processed_drand_timestamps@ == pre.processed_drand_timestamps@,
                self.persistent_failures@ == pre.persistent_failures@,
                self.reveal_delay == pre.reveal_delay,
                self.max_retries == pre.max_retries,
                self.committed_timestamps@ == pre.committed_timestamps@.union(
                    Set::new(|t: u64| round_committed_upto(rounds@, j as int, t)),
                ),
            decreases rounds.len() - j,
        {
            let p = &rounds[j];
            match &p.phase {
                RoundPhase::Pending => {},
                _ => {
                    self.committed_timestamps.insert(p.timestamp);
                },
            }
            proof {
                let n1 = j + 1;
                assert(rounds@[j as int] == *p);
                assert forall|t: u64| round_committed_upto(rounds@, n1, t) == (round_committed_upto(
                    rounds@,
                    j as int,
                    t,
                ) || (phase_commits(p.phase) && p.timestamp == t)) by {
                    if round_committed_upto(rounds@, n1, t) {
                        let k = choose|k: int|
                            0 <= k < n1 && #[trigger] rounds@[k].timestamp == t
                                && phase_commits(rounds@[k].phase);
                        if k < j {
                            assert(round_committed_upto(rounds@, j as int, t));
                        }
                    }
                }
                assert(self.committed_timestamps@ =~= pre.committed_timestamps@.union(
                    Set::new(|t: u64| round_committed_upto(rounds@, n1, t)),
                ));
            }
            j = j + 1;
        }
        let ghost mid = *self;
        let mut j: usize = 0;
        while j < rounds.len()
            invariant
                0 <= j <= rounds.len(),
                self.wf(),
                self.committed_timestamps@ == mid.committed_timestamps@,
                self.sequencer_randomness_cache@ == pre.sequencer_randomness_cache@,
                self.processed_drand_timestamps@ == pre.processed_drand_timestamps@,
                self.persistent_failures@ == pre.persistent_failures@,
                self.reveal_delay == pre.reveal_delay,
                self.max_retries == pre.max_retries,
                mid.committed_timestamps@ == pre.committed_timestamps@.union(
                    Set::new(|t: u64| round_committed_upto(rounds@, rounds@.len() as int, t)),
                ),
                pre.transaction_queue@.len() <= self.transaction_queue@.len(),
                self.transaction_queue@.subrange(0, pre.transaction_queue@.len() as int)
                    == pre.transaction_queue@,
                forall|i: int|
                    pre.transaction_queue@.len() <= i < self.transaction_queue@.len()
                        ==> reveal_added(
                        #[trigger] self.transaction_queue@[i],
                        pre,
                        mid,
                        current_timestamp,
                        rounds@,
                    ),
                forall|k: int|
                    0 <= k < j && reveal_candidate(#[trigger] rounds@[k], pre, current_timestamp)
                        && !pre.is_confirmed(TxKind::Reveal, rounds@[k].timestamp) ==> queued_in(
                        self.transaction_queue@,
                        TxKind::Reveal,
                        rounds@[k].timestamp,
                    ),
            decreases rounds.len() - j,
        {
            let p = &rounds[j];
            let window_open = p.timestamp <= current_timestamp && current_timestamp - p.timestamp
                >= self.reveal_delay;
            let committed_only = match &p.phase {
                RoundPhase::Committed => true,
                _ => false,
            };
            if committed_only && window_open && !self.confirmed(TxKind::Reveal, p.timestamp)
                && !has_failed(&self.persistent_failures, TxKind::Reveal, p.timestamp) {
                match &p.preimage {
                    Some(v) => {
                        if !is_queued(&self.transaction_queue, TxKind::Reveal, p.timestamp) {
                            proof {
                                assert(rounds@[j as int] == *p);
                                assert(round_committed_upto(rounds@, rounds@.len() as int, p.timestamp));
                            }
                            let tx = QueuedTransaction::new(TxKind::Reveal, p.timestamp, v.clone());
                            let e = QueueEntry { tx, attempts: 0 };
                            proof {
                                crate::transaction::lemma_push_keeps_queued(self.transaction_queue@, e);
                            }
                            self.transaction_queue.push(e);
                            assert(self.transaction_queue@.subrange(0, pre.transaction_queue@.len() as int)
                                =~= pre.transaction_queue@);
                        }
                    },
                    None => {},
                }
            }
            j = j + 1;
        }
        assert(self.transaction_queue@.subrange(0, pre.transaction_queue@.len() as int)
            == pre.transaction_queue@);
    }

    /// Enters the final randomness of a revealed round, as read from the
    /// chain once its reveal is confirmed, in the randomness cache.
    pub fn record_revealed_randomness(&mut self, timestamp: u64, randomness: String)
        requires
            old(self).wf(),
        ensures
            final(self).wf(),
            final(self).sequencer_randomness_cache@ == old(
                self,
            ).sequencer_randomness_cache@.insert(timestamp, randomness),
            final(self).transaction_queue@ == old(self).transaction_queue@,
            final(self).processed_drand_timestamps@ == old(self).processed_drand_timestamps@,
            final(self).committed_timestamps@ == old(self).committed_timestamps@,
            final(self).persistent_failures@ == old(self).persistent_failures@,
            final(self).reveal_delay == old(self).reveal_delay,
            final(self).max_retries == old(self).max_retries,
    {
        self.sequencer_randomness_cache.insert(timestamp, randomness);
    }

    /// Queue Processor, first half: the transaction to submit this tick.
    /// Entries at the head whose work is already known to be recorded are
    /// dropped first, so nothing confirmed is submitted again. The returned
    /// transaction stays at the head of the queue until its outcome is
    /// recorded.
    pub fn next_submission(&mut self) -> (r: Option<QueuedTransaction>)
        requires
            old(self).wf(),
        ensures
            final(self).wf(),
            drop_recorded_post(*old(self), *final(self)),
            final(self).processed_drand_timestamps@ == old(self).processed_drand_timestamps@,
            final(self).committed_timestamps@ == old(self).committed_timestamps@,
            final(self).sequencer_randomness_cache@ == old(self).sequencer_randomness_cache@,
            final(self).persistent_failures@ == old(self).persistent_failures@,
            final(self).reveal_delay == old(self).reveal_delay,
            final(self).max_retries == old(self).max_retries,
            exists|k: int|
                0 <= k <= old(self).transaction_queue@.len() && final(self).transaction_queue@
                    == old(self).transaction_queue@.subrange(
                    k,
                    old(self).transaction_queue@.len() as int,
                ) && forall|i: int|
                    0 <= i < k ==> old(self).is_confirmed(
                        (#[trigger] old(self).transaction_queue@[i]).tx.kind_spec(),
                        old(self).transaction_queue@[i].tx.timestamp_spec(),
                    ),
            r is None <==> final(self).transaction_queue@.len() == 0,
            r matches Some(tx) ==> {
                let head = final(self).transaction_queue@[0].tx;
                &&& tx.kind_spec() == head.kind_spec()
                &&& tx.timestamp_spec() == head.timestamp_spec()
                &&& tx.value_spec() == head.value_spec()
                &&& !final(self).is_confirmed(tx.kind_spec(), tx.timestamp_spec())
            },
    {
        let ghost pre = *self;
        let ghost mut k: int = 0;
        loop
            invariant
                0 <= k <= pre.transaction_queue@.len(),
                self.transaction_queue@ == pre.transaction_queue@.subrange(
                    k,
                    pre.transaction_queue@.len() as int,
                ),
                forall|i: int|
                    0 <= i < k ==> pre.is_confirmed(
                        (#[trigger] pre.transaction_queue@[i]).tx.kind_spec(),
                        pre.transaction_queue@[i].tx.timestamp_spec(),
                    ),
                self.processed_drand_timestamps@ == pre.processed_drand_timestamps@,
                self.committed_timestamps@ == pre.committed_timestamps@,
                self.sequencer_randomness_cache@ == pre.sequencer_randomness_cache@,
                self.persistent_failures@ == pre.persistent_failures@,
                self.reveal_delay == pre.reveal_delay,
                self.max_retries == pre.max_retries,
                pre.wf(),
            ensures
                self.wf(),
                self.processed_drand_timestamps@ == pre.processed_drand_timestamps@,
                self.committed_timestamps@ == pre.committed_timestamps@,
                self.sequencer_randomness_cache@ == pre.sequencer_randomness_cache@,
                self.persistent_failures@ == pre.persistent_failures@,
                self.reveal_delay == pre.reveal_delay,
                self.max_retries == pre.max_retries,
                0 <= k <= pre.transaction_queue@.len(),
                self.transaction_queue@ == pre.transaction_queue@.subrange(
                    k,
                    pre.transaction_queue@.len() as int,
                ),
                forall|i: int|
                    0 <= i < k ==> pre.is_confirmed(
                        (#[trigger] pre.transaction_queue@[i]).tx.kind_spec(),
                        pre.transaction_queue@[i].tx.timestamp_spec(),
                    ),
                self.transaction_queue@.len() > 0 ==> !self.is_confirmed(
                    self.transaction_queue@[0].tx.kind_spec(),
                    self.transaction_queue@[0].tx.timestamp_spec(),
                ),
            decreases self.transaction_queue@.len(),
        {
            proof {
                let q = self.transaction_queue@;
                assert forall|a: int, b: int|
                    0 <= a < q.len() && 0 <= b < q.len() && a != b implies !(
                    #[trigger] q[a].tx.kind_spec() == #[trigger] q[b].tx.kind_spec()
                        && q[a].tx.timestamp_spec() == q[b].tx.timestamp_spec()) by {
                    assert(q[a] == pre.transaction_queue@[a + k]);
                    assert(q[b] == pre.transaction_queue@[b + k]);
                }
                assert forall|a: int| 0 <= a < q.len() implies #[trigger] q[a].attempts
                    <= self.max_retries by {
                    assert(q[a] == pre.transaction_queue@[a + k]);
                }
            }
            if self.transaction_queue.len() == 0 {
                break;
            }
            let done = self.confirmed(
                self.transaction_queue[0].tx.kind(),
                self.transaction_queue[0].tx.timestamp(),
            );
            if !done {
                break;
            }
            self.transaction_queue.remove(0);
            proof {
                assert(pre.transaction_queue@[k] == pre.transaction_queue@.subrange(
                    k,
                    pre.transaction_queue@.len() as int,
                )[0]);
                k = k + 1;
                assert(self.transaction_queue@ =~= pre.transaction_queue@.subrange(
                    k,
                    pre.transaction_queue@.len() as int,
                ));
            }
        }
        if self.transaction_queue.len() == 0 {
            None
        } else {
            Some(self.transaction_queue[0].tx.duplicate())
        }
    }

    /// Queue Processor, second half: records how the submission of the head
    /// of the queue ended. A confirmation, or a revert because the value is
    /// already recorded, marks the work as done and takes the entry off the
    /// queue: a drand value or a reveal marks its timestamp processed, a
    /// commitment marks it committed. The round's final randomness enters
    /// the cache when a later pass reads it from the chain. A transient failure keeps the entry at the head for the next
    /// tick while its retry budget lasts; past the budget the entry moves to
    /// the persistent failures, where an operator sees it.
    pub fn record_outcome(&mut self, outcome: SubmissionOutcome) -> (r: OutcomeEffect)
        requires
            old(self).wf(),
        ensures
            final(self).wf(),
            outcome != SubmissionOutcome::TransientFailure ==> record_done_post(
                *old(self),
                *final(self),
            ),
            final(self).reveal_delay == old(self).reveal_delay,
            final(self).max_retries == old(self).max_retries,
            old(self).transaction_queue@.len() == 0 ==> r == OutcomeEffect::NothingInFlight
                && *final(self) == *old(self),
            old(self).transaction_queue@.len() > 0 ==> ({
                let oq = old(self).transaction_queue@;
                let nq = final(self).transaction_queue@;
                let head = oq[0];
                let kind = head.tx.kind_spec();
                let t = head.tx.timestamp_spec();
                let tail = oq.subrange(1, oq.len() as int);
                if outcome != SubmissionOutcome::TransientFailure {
                    &&& r == OutcomeEffect::Recorded
                    &&& nq == tail
                    &&& final(self).is_confirmed(kind, t)
                    &&& !queued_in(nq, kind, t)
                    &&& final(self).persistent_failures@ == old(self).persistent_failures@
                    &&& final(self).processed_drand_timestamps@ == (if kind == TxKind::Drand || kind
                        == TxKind::Reveal {
                        old(self).processed_drand_timestamps@.insert(t)
                    } else {
                        old(self).processed_drand_timestamps@
                    })
                    &&& final(self).committed_timestamps@ == (if kind == TxKind::Commitment {
                        old(self).committed_timestamps@.insert(t)
                    } else {
                        old(self).committed_timestamps@
                    })
                    &&& final(self).sequencer_randomness_cache@
                        == old(self).sequencer_randomness_cache@
                } else {
                    &&& final(self).processed_drand_timestamps@ == old(self).processed_drand_timestamps@
                    &&& final(self).committed_timestamps@ == old(self).committed_timestamps@
                    &&& final(self).sequencer_randomness_cache@ == old(self).sequencer_randomness_cache@
                    &&& if head.attempts >= old(self).max_retries {
                        &&& r == OutcomeEffect::PersistentFailure
                        &&& nq == tail
                        &&& final(self).persistent_failures@ == old(self).persistent_failures@.push(
                            head.tx,
                        )
                    } else {
                        &&& r == OutcomeEffect::Requeued
                        &&& nq.len() == oq.len()
                        &&& nq[0].tx == head.tx
                        &&& nq[0].attempts == head.attempts + 1
                        &&& nq.subrange(1, nq.len() as int) == tail
                        &&& final(self).persistent_failures@ == old(self).persistent_failures@
                    }
                }
            }),
    {
        if self.transaction_queue.len() == 0 {
            return OutcomeEffect::NothingInFlight;
        }
        let ghost pre = *self;
        proof {
            crate::transaction::lemma_unique_tail(self.transaction_queue@);
        }
        let e = self.transaction_queue.remove(0);
        proof {
            assert(self.transaction_queue@ =~= pre.transaction_queue@.subrange(
                1,
                pre.transaction_queue@.len() as int,
            ));
        }
        match outcome {
            SubmissionOutcome::TransientFailure => {
                if e.attempts >= self.max_retries {
                    self.persistent_failures.push(e.tx);
                    OutcomeEffect::PersistentFailure
                } else {
                    let ne = QueueEntry { tx: e.tx, attempts: e.attempts + 1 };
                    proof {
                        crate::transaction::lemma_unique_update_same_tx(pre.transaction_queue@, 0, ne);
                    }
                    self.transaction_queue.insert(0, ne);
                    proof {
                        assert(self.transaction_queue@ =~= pre.transaction_queue@.update(0, ne));
                        assert(self.transaction_queue@.subrange(1, self.transaction_queue@.len() as int)
                            =~= pre.transaction_queue@.subrange(1, pre.transaction_queue@.len() as int));
                    }
                    OutcomeEffect::Requeued
                }
            },
            _ => {
                let t = e.tx.timestamp();
                match e.tx.kind() {
                    TxKind::Drand => {
                        self.processed_drand_timestamps.insert(t);
                    },
                    TxKind::Commitment => {
                        self.committed_timestamps.insert(t);
                    },
                    TxKind::Reveal => {
                        self.processed_drand_timestamps.insert(t);
                    },
                }
                OutcomeEffect::Recorded
            },
        }
    }
}

} // verus!
