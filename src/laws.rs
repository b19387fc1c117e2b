use vstd::prelude::*;
use crate::service::CommitProbe;
use crate::service::DrandProbe;
use crate::service::RandomOracleService;
use crate::service::RoundProbe;
use crate::service::commit_backfill_post;
use crate::service::commit_revealed;
use crate::service::commit_stored;
use crate::service::drand_backfill_post;
use crate::service::drand_candidate;
use crate::service::drop_recorded_post;
use crate::service::record_done_post;
use crate::service::drand_stored;
use crate::service::reveal_advance_post;
use crate::service::revealed_as;
use crate::transaction::TxKind;
use crate::transaction::lemma_prefix_keeps_queued;
use crate::transaction::QueuedTransaction;
use crate::transaction::failed_in;
use crate::transaction::queued_in;

verus! {

/// A drand pass adds nothing when an earlier pass on the same observations
/// left the processed set as it is and the queue as a prefix of the current one.
proof fn lemma_drand_pass_adds_nothing(
    s0: RandomOracleService,
    s1: RandomOracleService,
    s2: RandomOracleService,
    s3: RandomOracleService,
    current: u64,
    probes: Seq<DrandProbe>,
)
    requires
        drand_backfill_post(s0, s1, current, probes),
        s2.processed_drand_timestamps@ == s1.processed_drand_timestamps@,
        s2.persistent_failures@ == s1.persistent_failures@,
        s1.transaction_queue@.len() <= s2.transaction_queue@.len(),
        s2.transaction_queue@.subrange(0, s1.transaction_queue@.len() as int)
            == s1.transaction_queue@,
        drand_backfill_post(s2, s3, current, probes),
    ensures
        s3.transaction_queue@ == s2.transaction_queue@,
        s3.processed_drand_timestamps@ == s2.processed_drand_timestamps@,
{
    assert(s3.processed_drand_timestamps@ =~= s2.processed_drand_timestamps@);
    lemma_prefix_keeps_queued(s1.transaction_queue@, s2.transaction_queue@);
    let q2 = s2.transaction_queue@;
    let q3 = s3.transaction_queue@;
    if q3.len() > q2.len() {
        let e = q3[q2.len() as int];
        let t = e.tx.timestamp_spec();
        let j = choose|j: int|
            0 <= j < probes.len() && #[trigger] probes[j].timestamp == t
                && crate::service::drand_candidate(probes[j], current)
                && crate::service::beacon_value(probes[j].beacon) == e.tx.value_spec();
        assert(queued_in(s1.transaction_queue@, TxKind::Drand, probes[j].timestamp));
    }
    assert(q3 =~= q3.subrange(0, q2.len() as int));
}

/// A commitment pass adds nothing when an earlier pass on the same
/// observations left the committed set as it is and the queue as a prefix of
/// the current one.
proof fn lemma_commit_pass_adds_nothing(
    s0: RandomOracleService,
    s1: RandomOracleService,
    s2: RandomOracleService,
    s3: RandomOracleService,
    current: u64,
    probes: Seq<CommitProbe>,
)
    requires
        commit_backfill_post(s0, s1, current, probes),
        s2.committed_timestamps@ == s1.committed_timestamps@,
        s2.persistent_failures@ == s1.persistent_failures@,
        s1.transaction_queue@.len() <= s2.transaction_queue@.len(),
        s2.transaction_queue@.subrange(0, s1.transaction_queue@.len() as int)
            == s1.transaction_queue@,
        commit_backfill_post(s2, s3, current, probes),
    ensures
        s3.transaction_queue@ == s2.transaction_queue@,
        s3.committed_timestamps@ == s2.committed_timestamps@,
{
    assert(s3.committed_timestamps@ =~= s2.committed_timestamps@);
    lemma_prefix_keeps_queued(s1.transaction_queue@, s2.transaction_queue@);
    let q2 = s2.transaction_queue@;
    let q3 = s3.transaction_queue@;
    if q3.len() > q2.len() {
        let e = q3[q2.len() as int];
        let t = e.tx.timestamp_spec();
        let j = choose|j: int|
            0 <= j < probes.len() && #[trigger] probes[j].timestamp == t
                && crate::service::commit_candidate(probes[j], current) && probes[j].commitment@
                == e.tx.value_spec();
        assert(queued_in(s1.transaction_queue@, TxKind::Commitment, probes[j].timestamp));
    }
    assert(q3 =~= q3.subrange(0, q2.len() as int));
}

/// Reconciliation is idempotent: a full reconciler pass (drand side, then
/// sequencer side) run a second time on the same chain and beacon
/// observations enqueues nothing and leaves the caches as they were.
pub proof fn lemma_reconciliation_idempotent(
    s0: RandomOracleService,
    s1: RandomOracleService,
    s2: RandomOracleService,
    s3: RandomOracleService,
    s4: RandomOracleService,
    current: u64,
    drand_probes: Seq<DrandProbe>,
    commit_probes: Seq<CommitProbe>,
)
    requires
        drand_backfill_post(s0, s1, current, drand_probes),
        commit_backfill_post(s1, s2, current, commit_probes),
        drand_backfill_post(s2, s3, current, drand_probes),
        commit_backfill_post(s3, s4, current, commit_probes),
    ensures
        s4.transaction_queue@ == s2.transaction_queue@,
        s4.processed_drand_timestamps@ == s2.processed_drand_timestamps@,
        s4.committed_timestamps@ == s2.committed_timestamps@,
        s4.sequencer_randomness_cache@ == s2.sequencer_randomness_cache@,
{
    assert(s1.transaction_queue@.subrange(0, s1.transaction_queue@.len() as int)
        =~= s1.transaction_queue@);
    lemma_drand_pass_adds_nothing(s0, s1, s2, s3, current, drand_probes);
    lemma_commit_pass_adds_nothing(s1, s2, s3, s4, current, commit_probes);
}

/// Restart safety: an engine started with empty caches and an empty queue
/// rebuilds its processed and committed sets and its randomness cache from
/// the chain's answers alone, and queues nothing that the chain already
/// records, before it submits anything.
pub proof fn lemma_restart_rebuilds_from_chain(
    s0: RandomOracleService,
    s1: RandomOracleService,
    s2: RandomOracleService,
    current: u64,
    drand_probes: Seq<DrandProbe>,
    commit_probes: Seq<CommitProbe>,
)
    requires
        s0.transaction_queue@.len() == 0,
        s0.processed_drand_timestamps@ == Set::<u64>::empty(),
        s0.committed_timestamps@ == Set::<u64>::empty(),
        s0.sequencer_randomness_cache@ == Map::<u64, String>::empty(),
        drand_backfill_post(s0, s1, current, drand_probes),
        commit_backfill_post(s1, s2, current, commit_probes),
    ensures
        s2.processed_drand_timestamps@ == Set::new(|t: u64| drand_stored(drand_probes, t)),
        s2.committed_timestamps@ == Set::new(|t: u64| commit_stored(commit_probes, t)),
        s2.sequencer_randomness_cache@.dom() == Set::new(|t: u64| commit_revealed(commit_probes, t)),
        forall|t: u64|
            #[trigger] s2.sequencer_randomness_cache@.contains_key(t) ==> revealed_as(
                commit_probes,
                commit_probes.len() as int,
                t,
                s2.sequencer_randomness_cache@[t]@,
            ),
        forall|i: int|
            0 <= i < s2.transaction_queue@.len() ==> !s2.is_confirmed(
                (#[trigger] s2.transaction_queue@[i]).tx.kind_spec(),
                s2.transaction_queue@[i].tx.timestamp_spec(),
            ),
        forall|i: int|
            0 <= i < s2.transaction_queue@.len() ==> match (
            #[trigger] s2.transaction_queue@[i]).tx.kind_spec() {
                TxKind::Drand => !drand_stored(drand_probes, s2.transaction_queue@[i].tx.timestamp_spec()),
                TxKind::Commitment => !commit_stored(
                    commit_probes,
                    s2.transaction_queue@[i].tx.timestamp_spec(),
                ),
                TxKind::Reveal => false,
            },
{
    assert(s2.processed_drand_timestamps@ =~= Set::new(|t: u64| drand_stored(drand_probes, t)));
    assert(s2.committed_timestamps@ =~= Set::new(|t: u64| commit_stored(commit_probes, t)));
    assert(s2.sequencer_randomness_cache@.dom() =~= Set::new(
        |t: u64| commit_revealed(commit_probes, t),
    ));
    let q1 = s1.transaction_queue@;
    let q2 = s2.transaction_queue@;
    assert forall|i: int| 0 <= i < q2.len() implies !s2.is_confirmed(
        (#[trigger] q2[i]).tx.kind_spec(),
        q2[i].tx.timestamp_spec(),
    ) && match q2[i].tx.kind_spec() {
        TxKind::Drand => !drand_stored(drand_probes, q2[i].tx.timestamp_spec()),
        TxKind::Commitment => !commit_stored(commit_probes, q2[i].tx.timestamp_spec()),
        TxKind::Reveal => false,
    } by {
        if i < q1.len() {
            assert(q2[i] == q2.subrange(0, q1.len() as int)[i]);
            assert(crate::service::drand_added(q1[i], s0, s1, current, drand_probes));
        }
    }
}

/// At most one recording per timestamp: the queue holds at most one entry per
/// kind and timestamp (the engine's well-formedness), and work recorded as
/// done is never queued again: if the work of `kind` for `t`
/// is confirmed and not queued, it stays confirmed and unqueued through a
/// whole tick of reconciliation and reveal scanning, whatever the chain and
/// the beacon report.
pub proof fn lemma_recorded_work_never_requeued(
    s0: RandomOracleService,
    s1: RandomOracleService,
    s2: RandomOracleService,
    s3: RandomOracleService,
    current: u64,
    drand_probes: Seq<DrandProbe>,
    commit_probes: Seq<CommitProbe>,
    rounds: Seq<RoundProbe>,
    kind: TxKind,
    t: u64,
)
    requires
        s0.is_confirmed(kind, t),
        !queued_in(s0.transaction_queue@, kind, t),
        drand_backfill_post(s0, s1, current, drand_probes),
        commit_backfill_post(s1, s2, current, commit_probes),
        reveal_advance_post(s2, s3, current, rounds),
    ensures
        s3.is_confirmed(kind, t),
        !queued_in(s3.transaction_queue@, kind, t),
{
    assert(s1.is_confirmed(kind, t));
    assert(s2.is_confirmed(kind, t));
    assert(s3.is_confirmed(kind, t));
    if queued_in(s1.transaction_queue@, kind, t) {
        let i = choose|i: int|
            0 <= i < s1.transaction_queue@.len() && #[trigger] s1.transaction_queue@[i].tx.kind_spec()
                == kind && s1.transaction_queue@[i].tx.timestamp_spec() == t;
        if i < s0.transaction_queue@.len() {
            assert(s1.transaction_queue@[i] == s1.transaction_queue@.subrange(0, s0.transaction_queue@.len() as int)[i]);
        }
    }
    if queued_in(s2.transaction_queue@, kind, t) {
        let i = choose|i: int|
            0 <= i < s2.transaction_queue@.len() && #[trigger] s2.transaction_queue@[i].tx.kind_spec()
                == kind && s2.transaction_queue@[i].tx.timestamp_spec() == t;
        if i < s1.transaction_queue@.len() {
            assert(s2.transaction_queue@[i] == s2.transaction_queue@.subrange(0, s1.transaction_queue@.len() as int)[i]);
        }
    }
    if queued_in(s3.transaction_queue@, kind, t) {
        let i = choose|i: int|
            0 <= i < s3.transaction_queue@.len() && #[trigger] s3.transaction_queue@[i].tx.kind_spec()
                == kind && s3.transaction_queue@[i].tx.timestamp_spec() == t;
        if i < s2.transaction_queue@.len() {
            assert(s3.transaction_queue@[i] == s3.transaction_queue@.subrange(0, s2.transaction_queue@.len() as int)[i]);
        }
    }
}

/// Every queued reveal has its commitment confirmed.
pub open spec fn reveals_follow_commitments(s: RandomOracleService) -> bool {
    forall|i: int|
        0 <= i < s.transaction_queue@.len() && (#[trigger] s.transaction_queue@[i]).tx.kind_spec()
            == TxKind::Reveal ==> s.is_confirmed(
            TxKind::Commitment,
            s.transaction_queue@[i].tx.timestamp_spec(),
        )
}

/// Commit precedes reveal: if every queued reveal has its commitment
/// confirmed, this still holds after a whole tick of reconciliation and
/// reveal scanning, and each reveal that the tick queued has its reveal
/// delay elapsed.
pub proof fn lemma_commit_precedes_reveal(
    s0: RandomOracleService,
    s1: RandomOracleService,
    s2: RandomOracleService,
    s3: RandomOracleService,
    current: u64,
    drand_probes: Seq<DrandProbe>,
    commit_probes: Seq<CommitProbe>,
    rounds: Seq<RoundProbe>,
)
    requires
        reveals_follow_commitments(s0),
        drand_backfill_post(s0, s1, current, drand_probes),
        commit_backfill_post(s1, s2, current, commit_probes),
        reveal_advance_post(s2, s3, current, rounds),
    ensures
        reveals_follow_commitments(s3),
        forall|i: int|
            s0.transaction_queue@.len() <= i < s3.transaction_queue@.len() && (
            #[trigger] s3.transaction_queue@[i]).tx.kind_spec() == TxKind::Reveal
                ==> s3.transaction_queue@[i].tx.timestamp_spec() + s3.reveal_delay <= current,
{
    let q0 = s0.transaction_queue@;
    let q1 = s1.transaction_queue@;
    let q2 = s2.transaction_queue@;
    let q3 = s3.transaction_queue@;
    assert forall|i: int| 0 <= i < q3.len() && (#[trigger] q3[i]).tx.kind_spec() == TxKind::Reveal
        implies s3.is_confirmed(TxKind::Commitment, q3[i].tx.timestamp_spec()) && (i >= q0.len()
        ==> q3[i].tx.timestamp_spec() + s3.reveal_delay <= current) by {
        if i < q2.len() {
            assert(q3[i] == q3.subrange(0, q2.len() as int)[i]);
            assert(i < q1.len());
            assert(q2[i] == q2.subrange(0, q1.len() as int)[i]);
            assert(i < q0.len());
            assert(q1[i] == q1.subrange(0, q0.len() as int)[i]);
        }
    }
}

/// Between ticks of a drand relay: only drand work is queued, failures are
/// those given up before, and every due round the beacon delivered is either
/// processed or queued.
pub open spec fn relay_settled(
    s: RandomOracleService,
    current: u64,
    probes: Seq<DrandProbe>,
    failed: Seq<QueuedTransaction>,
) -> bool {
    &&& s.persistent_failures@ == failed
    &&& forall|i: int|
        0 <= i < s.transaction_queue@.len() ==> (#[trigger] s.transaction_queue@[i]).tx.kind_spec()
            == TxKind::Drand
    &&& forall|j: int|
        0 <= j < probes.len() && drand_candidate(#[trigger] probes[j], current) && !failed_in(
            failed,
            TxKind::Drand,
            probes[j].timestamp,
        ) ==> s.processed_drand_timestamps@.contains(probes[j].timestamp) || queued_in(
            s.transaction_queue@,
            TxKind::Drand,
            probes[j].timestamp,
        )
}

/// One tick whose submission is confirmed: a drand pass, then the queue's
/// head is taken and recorded. From an empty queue or a settled state, the
/// tick ends settled; from a settled state the pass queues nothing, so a
/// non-empty queue shrinks.
proof fn lemma_confirmed_tick(
    a: RandomOracleService,
    b: RandomOracleService,
    c: RandomOracleService,
    d: RandomOracleService,
    current: u64,
    probes: Seq<DrandProbe>,
    failed: Seq<QueuedTransaction>,
)
    requires
        a.transaction_queue@.len() == 0 || relay_settled(a, current, probes, failed),
        a.persistent_failures@ == failed,
        drand_backfill_post(a, b, current, probes),
        drop_recorded_post(b, c),
        record_done_post(c, d),
    ensures
        relay_settled(d, current, probes, failed),
        d.transaction_queue@.len() == 0 || d.transaction_queue@.len() < b.transaction_queue@.len(),
        relay_settled(a, current, probes, failed) ==> b.transaction_queue@ == a.transaction_queue@,
        a.transaction_queue@.len() == 0 ==> b.transaction_queue@.len() <= d.transaction_queue@.len()
            + 1 || d.transaction_queue@.len() == 0,
{
    let qa = a.transaction_queue@;
    let qb = b.transaction_queue@;
    let qc = c.transaction_queue@;
    let qd = d.transaction_queue@;
    if relay_settled(a, current, probes, failed) {
        if qb.len() > qa.len() {
            let e = qb[qa.len() as int];
            let t = e.tx.timestamp_spec();
            let j = choose|j: int|
                0 <= j < probes.len() && #[trigger] probes[j].timestamp == t && drand_candidate(
                    probes[j],
                    current,
                ) && crate::service::beacon_value(probes[j].beacon) == e.tx.value_spec();
            assert(a.processed_drand_timestamps@.contains(t) || queued_in(qa, TxKind::Drand, t));
        }
        assert(qb =~= qb.subrange(0, qa.len() as int));
    }
    assert forall|i: int| 0 <= i < qb.len() implies (#[trigger] qb[i]).tx.kind_spec() == TxKind::Drand by {
        if i < qa.len() {
            assert(qb[i] == qb.subrange(0, qa.len() as int)[i]);
        }
    }
    let k = choose|k: int|
        0 <= k <= qb.len() && qc == qb.subrange(k, qb.len() as int) && forall|i: int|
            0 <= i < k ==> b.is_confirmed((#[trigger] qb[i]).tx.kind_spec(), qb[i].tx.timestamp_spec());
    lemma_prefix_keeps_queued(qa, qb);
    assert forall|i: int| 0 <= i < qd.len() implies (#[trigger] qd[i]).tx.kind_spec() == TxKind::Drand by {
        assert(qd[i] == qc[i + 1]);
        assert(qc[i + 1] == qb[k + i + 1]);
    }
    assert forall|j: int|
        0 <= j < probes.len() && drand_candidate(#[trigger] probes[j], current) && !failed_in(
            failed,
            TxKind::Drand,
            probes[j].timestamp,
        ) implies d.processed_drand_timestamps@.contains(probes[j].timestamp) || queued_in(
        qd,
        TxKind::Drand,
        probes[j].timestamp,
    ) by {
        let t = probes[j].timestamp;
        if !b.processed_drand_timestamps@.contains(t) {
            assert(queued_in(qb, TxKind::Drand, t));
            let i = choose|i: int|
                0 <= i < qb.len() && #[trigger] qb[i].tx.kind_spec() == TxKind::Drand
                    && qb[i].tx.timestamp_spec() == t;
            if i >= k {
                assert(qc[i - k] == qb[i]);
                if i > k {
                    assert(qd[i - k - 1] == qc[i - k]);
                }
            }
        }
    }
}

/// Ticks of the drand relay, `n` of them, each a drand pass over the same
/// observations followed by a confirmed submission, starting from an empty
/// queue and a settled or empty state at every tick boundary.
proof fn lemma_confirmed_ticks(
    a: Seq<RandomOracleService>,
    b: Seq<RandomOracleService>,
    c: Seq<RandomOracleService>,
    n: int,
    current: u64,
    probes: Seq<DrandProbe>,
)
    requires
        0 <= n < a.len(),
        b.len() + 1 == a.len(),
        c.len() + 1 == a.len(),
        a[0].transaction_queue@.len() == 0,
        forall|k: int|
            0 <= k < b.len() ==> drand_backfill_post(#[trigger] a[k], b[k], current, probes)
                && drop_recorded_post(b[k], c[k]) && record_done_post(c[k], a[k + 1]),
    ensures
        n == 0 || relay_settled(a[n], current, probes, a[0].persistent_failures@),
        n >= 1 ==> a[n].transaction_queue@.len() == 0 || a[n].transaction_queue@.len() + n
            <= b[0].transaction_queue@.len(),
    decreases n,
{
    let f = a[0].persistent_failures@;
    if n >= 1 {
        lemma_confirmed_ticks(a, b, c, n - 1, current, probes);
        let k = n - 1;
        assert(drand_backfill_post(a[k], b[k], current, probes));
        lemma_confirmed_tick(a[k], b[k], c[k], a[k + 1], current, probes, f);
    }
}

/// Convergent backfill: starting from an empty queue, with the chain and the
/// beacon reporting the same rounds at every tick and every submission
/// confirmed, after as many ticks as the first drand pass queued rounds,
/// every due round that the beacon delivered (and that was not given up
/// before) is processed, and nothing is left in the queue.
pub proof fn lemma_convergent_backfill(
    a: Seq<RandomOracleService>,
    b: Seq<RandomOracleService>,
    c: Seq<RandomOracleService>,
    current: u64,
    probes: Seq<DrandProbe>,
)
    requires
        a.len() >= 2,
        b.len() + 1 == a.len(),
        c.len() + 1 == a.len(),
        a[0].transaction_queue@.len() == 0,
        forall|k: int|
            0 <= k < b.len() ==> drand_backfill_post(#[trigger] a[k], b[k], current, probes)
                && drop_recorded_post(b[k], c[k]) && record_done_post(c[k], a[k + 1]),
        b.len() >= b[0].transaction_queue@.len(),
    ensures
        a.last().transaction_queue@.len() == 0,
        forall|j: int|
            0 <= j < probes.len() && drand_candidate(#[trigger] probes[j], current) && !failed_in(
                a[0].persistent_failures@,
                TxKind::Drand,
                probes[j].timestamp,
            ) ==> a.last().processed_drand_timestamps@.contains(probes[j].timestamp),
{
    let n = a.len() - 1;
    lemma_confirmed_ticks(a, b, c, n, current, probes);
    assert(a.last() == a[n]);
}

} // verus!
