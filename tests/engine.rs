use oracle_engine::schedule::Schedule;
use oracle_engine::service::BeaconFetch;
use oracle_engine::service::CommitProbe;
use oracle_engine::service::DrandProbe;
use oracle_engine::service::OutcomeEffect;
use oracle_engine::service::RandomOracleService;
use oracle_engine::service::RoundPhase;
use oracle_engine::service::RoundProbe;
use oracle_engine::service::SubmissionOutcome;
use oracle_engine::transaction::QueuedTransaction;
use oracle_engine::transaction::TxKind;

fn ready(ts: u64, value: &str) -> DrandProbe {
    DrandProbe { timestamp: ts, stored_on_chain: false, beacon: BeaconFetch::Ready(value.to_string()) }
}

fn stored(ts: u64) -> DrandProbe {
    DrandProbe { timestamp: ts, stored_on_chain: true, beacon: BeaconFetch::NotYetAvailable }
}

fn queue_keys(svc: &RandomOracleService) -> Vec<(TxKind, u64)> {
    svc.transaction_queue.iter().map(|e| (e.tx.kind(), e.tx.timestamp())).collect()
}

#[test]
fn backfill_queues_only_due_missing_delivered_rounds() {
    let mut svc = RandomOracleService::new(10, 3);
    let probes = vec![
        ready(100, "aa"),
        DrandProbe { timestamp: 103, stored_on_chain: false, beacon: BeaconFetch::NotYetAvailable },
        DrandProbe { timestamp: 106, stored_on_chain: false, beacon: BeaconFetch::FetchError },
        stored(109),
        ready(200, "future"),
    ];
    svc.backfill_missing_values(150, &probes);
    assert_eq!(queue_keys(&svc), vec![(TxKind::Drand, 100)]);
    assert_eq!(svc.transaction_queue[0].tx.value(), "aa");
    assert_eq!(svc.transaction_queue[0].attempts, 0);
    assert!(svc.processed_drand_timestamps.contains(&109));
    assert!(!svc.processed_drand_timestamps.contains(&100));
}

#[test]
fn reconciliation_twice_enqueues_nothing_new() {
    let mut svc = RandomOracleService::new(10, 3);
    let drand = vec![ready(100, "aa"), ready(103, "bb"), stored(106)];
    let commits = vec![
        CommitProbe { timestamp: 100, phase: RoundPhase::Pending, commitment: "c100".to_string() },
        CommitProbe { timestamp: 110, phase: RoundPhase::Committed, commitment: "c110".to_string() },
    ];
    svc.backfill_missing_values(120, &drand);
    svc.backfill_sequencer_values(120, &commits);
    let first = queue_keys(&svc);
    assert_eq!(first, vec![(TxKind::Drand, 100), (TxKind::Drand, 103), (TxKind::Commitment, 100)]);
    svc.backfill_missing_values(120, &drand);
    svc.backfill_sequencer_values(120, &commits);
    assert_eq!(queue_keys(&svc), first);
}

#[test]
fn duplicate_probes_queue_one_entry_per_timestamp() {
    let mut svc = RandomOracleService::new(10, 3);
    let probes = vec![ready(100, "aa"), ready(100, "bb"), ready(100, "aa")];
    svc.backfill_missing_values(100, &probes);
    assert_eq!(queue_keys(&svc), vec![(TxKind::Drand, 100)]);
    let tx = svc.next_submission().unwrap();
    assert_eq!(svc.record_outcome(SubmissionOutcome::Confirmed), OutcomeEffect::Recorded);
    assert_eq!(tx.timestamp(), 100);
    svc.backfill_missing_values(100, &probes);
    assert!(svc.transaction_queue.is_empty());
    assert!(svc.next_submission().is_none());
}

#[test]
fn convergent_backfill_three_rounds() {
    let mut svc = RandomOracleService::new(10, 3);
    let mut on_chain: Vec<u64> = Vec::new();
    let rounds = [(100u64, "r1"), (103u64, "r2"), (106u64, "r3")];
    for _tick in 0..3 {
        let probes: Vec<DrandProbe> = rounds
            .iter()
            .map(|(ts, v)| DrandProbe {
                timestamp: *ts,
                stored_on_chain: on_chain.contains(ts),
                beacon: BeaconFetch::Ready(v.to_string()),
            })
            .collect();
        svc.backfill_missing_values(110, &probes);
        if let Some(tx) = svc.next_submission() {
            on_chain.push(tx.timestamp());
            assert_eq!(svc.record_outcome(SubmissionOutcome::Confirmed), OutcomeEffect::Recorded);
        }
    }
    assert_eq!(on_chain, vec![100, 103, 106]);
    for (ts, _) in rounds.iter() {
        assert!(svc.processed_drand_timestamps.contains(ts));
    }
    assert!(svc.transaction_queue.is_empty());
}

#[test]
fn duplicate_submission_is_benign() {
    let mut svc = RandomOracleService::new(10, 0);
    svc.backfill_missing_values(100, &vec![ready(100, "aa")]);
    assert!(svc.next_submission().is_some());
    assert_eq!(svc.record_outcome(SubmissionOutcome::RevertedAsDuplicate), OutcomeEffect::Recorded);
    assert!(svc.processed_drand_timestamps.contains(&100));
    assert!(svc.persistent_failures.is_empty());
    assert!(svc.transaction_queue.is_empty());
}

#[test]
fn restart_rebuilds_processed_from_chain() {
    let mut svc = RandomOracleService::new(10, 3);
    let probes = vec![stored(100), ready(103, "bb"), stored(106)];
    let commits = vec![
        CommitProbe { timestamp: 100, phase: RoundPhase::Committed, commitment: "c100".to_string() },
        CommitProbe { timestamp: 110, phase: RoundPhase::Pending, commitment: "c110".to_string() },
        CommitProbe { timestamp: 90, phase: RoundPhase::Revealed("final90".to_string()), commitment: "c90".to_string() },
    ];
    svc.backfill_missing_values(120, &probes);
    svc.backfill_sequencer_values(120, &commits);
    assert!(svc.processed_drand_timestamps.contains(&100));
    assert!(svc.processed_drand_timestamps.contains(&106));
    assert!(svc.committed_timestamps.contains(&100));
    assert!(svc.committed_timestamps.contains(&90));
    assert_eq!(svc.sequencer_randomness_cache.len(), 1);
    assert_eq!(svc.sequencer_randomness_cache.get(&90).map(|s| s.as_str()), Some("final90"));
    assert_eq!(queue_keys(&svc), vec![(TxKind::Drand, 103), (TxKind::Commitment, 110)]);
}

#[test]
fn next_submission_skips_work_confirmed_meanwhile() {
    let mut svc = RandomOracleService::new(10, 3);
    svc.backfill_missing_values(120, &vec![ready(100, "aa"), ready(103, "bb")]);
    // another instance recorded round 100 in the meantime
    svc.backfill_missing_values(120, &vec![stored(100)]);
    let tx = svc.next_submission().unwrap();
    assert_eq!(tx.kind(), TxKind::Drand);
    assert_eq!(tx.timestamp(), 103);
    assert_eq!(tx.value(), "bb");
    assert_eq!(queue_keys(&svc), vec![(TxKind::Drand, 103)]);
}

#[test]
fn reveal_waits_for_commitment_and_delay() {
    let mut svc = RandomOracleService::new(10, 3);
    let commits = vec![
        CommitProbe { timestamp: 105, phase: RoundPhase::Committed, commitment: "c105".to_string() },
        CommitProbe { timestamp: 90, phase: RoundPhase::Committed, commitment: "c90".to_string() },
        CommitProbe { timestamp: 80, phase: RoundPhase::Committed, commitment: "c80".to_string() },
        CommitProbe { timestamp: 70, phase: RoundPhase::Revealed("final70".to_string()), commitment: "c70".to_string() },
    ];
    svc.backfill_sequencer_values(110, &commits);
    assert!(svc.transaction_queue.is_empty());
    assert_eq!(svc.sequencer_randomness_cache.get(&70).map(|s| s.as_str()), Some("final70"));
    let rounds = vec![
        RoundProbe { timestamp: 100, phase: RoundPhase::Pending, preimage: Some("p100".to_string()) },
        RoundProbe { timestamp: 105, phase: RoundPhase::Committed, preimage: Some("p105".to_string()) },
        RoundProbe { timestamp: 90, phase: RoundPhase::Committed, preimage: Some("p90".to_string()) },
        RoundProbe { timestamp: 80, phase: RoundPhase::Committed, preimage: None },
        RoundProbe { timestamp: 70, phase: RoundPhase::Revealed("final70".to_string()), preimage: Some("p70".to_string()) },
    ];
    svc.process_sequencer_reveals(110, &rounds);
    assert_eq!(queue_keys(&svc), vec![(TxKind::Reveal, 90)]);
    assert_eq!(svc.transaction_queue[0].tx.value(), "p90");
    assert!(!svc.committed_timestamps.contains(&100));
    // the window of round 105 opens at 115
    svc.process_sequencer_reveals(115, &rounds);
    assert_eq!(queue_keys(&svc), vec![(TxKind::Reveal, 90), (TxKind::Reveal, 105)]);
}

#[test]
fn reveal_follows_commitment_seen_on_chain() {
    let mut svc = RandomOracleService::new(0, 3);
    let pending = vec![RoundProbe { timestamp: 100, phase: RoundPhase::Pending, preimage: Some("p".to_string()) }];
    svc.process_sequencer_reveals(u64::MAX, &pending);
    assert!(svc.transaction_queue.is_empty());
    assert!(!svc.committed_timestamps.contains(&100));
    // the engine has not seen the commitment before; the chain's answer is enough
    let rounds = vec![RoundProbe { timestamp: 100, phase: RoundPhase::Committed, preimage: Some("p".to_string()) }];
    svc.process_sequencer_reveals(u64::MAX, &rounds);
    assert!(svc.committed_timestamps.contains(&100));
    assert_eq!(queue_keys(&svc), vec![(TxKind::Reveal, 100)]);
    assert_eq!(svc.transaction_queue[0].tx.value(), "p");
}

#[test]
fn reveal_pass_keeps_caches() {
    let mut svc = RandomOracleService::new(0, 3);
    let rounds = vec![
        RoundProbe { timestamp: 100, phase: RoundPhase::Revealed("r".to_string()), preimage: None },
        RoundProbe { timestamp: 110, phase: RoundPhase::Committed, preimage: None },
    ];
    svc.process_sequencer_reveals(200, &rounds);
    assert!(svc.sequencer_randomness_cache.is_empty());
    assert!(svc.processed_drand_timestamps.is_empty());
    assert!(svc.committed_timestamps.contains(&100));
    assert!(svc.committed_timestamps.contains(&110));
    assert!(svc.transaction_queue.is_empty());
}

#[test]
fn confirmed_reveal_fills_cache_with_chain_randomness() {
    let mut svc = RandomOracleService::new(5, 3);
    let committed = vec![CommitProbe { timestamp: 100, phase: RoundPhase::Committed, commitment: "c".to_string() }];
    svc.backfill_sequencer_values(105, &committed);
    let rounds = vec![RoundProbe { timestamp: 100, phase: RoundPhase::Committed, preimage: Some("pre".to_string()) }];
    svc.process_sequencer_reveals(105, &rounds);
    let tx = svc.next_submission().unwrap();
    assert_eq!(tx.kind(), TxKind::Reveal);
    assert_eq!(svc.record_outcome(SubmissionOutcome::Confirmed), OutcomeEffect::Recorded);
    assert!(svc.processed_drand_timestamps.contains(&100));
    svc.record_revealed_randomness(100, "final".to_string());
    assert_eq!(svc.sequencer_randomness_cache.get(&100).map(|s| s.as_str()), Some("final"));
    svc.process_sequencer_reveals(105, &rounds);
    assert!(svc.transaction_queue.is_empty());
    let revealed = vec![CommitProbe { timestamp: 100, phase: RoundPhase::Revealed("final".to_string()), commitment: "c".to_string() }];
    svc.backfill_sequencer_values(106, &revealed);
    assert_eq!(svc.sequencer_randomness_cache.len(), 1);
    assert_eq!(svc.sequencer_randomness_cache.get(&100).map(|s| s.as_str()), Some("final"));
}

#[test]
fn reveal_skips_processed_timestamp() {
    let mut svc = RandomOracleService::new(0, 3);
    svc.backfill_missing_values(100, &vec![stored(100)]);
    svc.backfill_sequencer_values(100, &vec![CommitProbe { timestamp: 100, phase: RoundPhase::Committed, commitment: "c".to_string() }]);
    let rounds = vec![RoundProbe { timestamp: 100, phase: RoundPhase::Committed, preimage: Some("p".to_string()) }];
    svc.process_sequencer_reveals(100, &rounds);
    assert!(svc.transaction_queue.is_empty());
}

#[test]
fn persistent_failure_is_not_queued_again() {
    let mut svc = RandomOracleService::new(0, 0);
    let probes = vec![ready(100, "aa")];
    svc.backfill_missing_values(100, &probes);
    assert_eq!(svc.record_outcome(SubmissionOutcome::TransientFailure), OutcomeEffect::PersistentFailure);
    svc.backfill_missing_values(100, &probes);
    assert!(svc.transaction_queue.is_empty());
    let commits = vec![CommitProbe { timestamp: 100, phase: RoundPhase::Pending, commitment: "c".to_string() }];
    svc.backfill_sequencer_values(100, &commits);
    assert_eq!(svc.record_outcome(SubmissionOutcome::TransientFailure), OutcomeEffect::PersistentFailure);
    svc.backfill_sequencer_values(100, &commits);
    assert!(svc.transaction_queue.is_empty());
    assert_eq!(svc.persistent_failures.len(), 2);
}

#[test]
fn confirmed_commitment_is_recorded() {
    let mut svc = RandomOracleService::new(5, 3);
    let commits = vec![CommitProbe { timestamp: 100, phase: RoundPhase::Pending, commitment: "c".to_string() }];
    svc.backfill_sequencer_values(99, &commits);
    assert!(svc.transaction_queue.is_empty());
    svc.backfill_sequencer_values(100, &commits);
    assert_eq!(queue_keys(&svc), vec![(TxKind::Commitment, 100)]);
    assert_eq!(svc.record_outcome(SubmissionOutcome::Confirmed), OutcomeEffect::Recorded);
    assert!(svc.committed_timestamps.contains(&100));
    assert!(!svc.processed_drand_timestamps.contains(&100));
}

#[test]
fn transient_failures_retry_then_persist() {
    let mut svc = RandomOracleService::new(10, 2);
    svc.backfill_missing_values(100, &vec![ready(100, "aa"), ready(90, "bb")]);
    assert_eq!(svc.record_outcome(SubmissionOutcome::TransientFailure), OutcomeEffect::Requeued);
    assert_eq!(svc.transaction_queue[0].attempts, 1);
    assert_eq!(svc.record_outcome(SubmissionOutcome::TransientFailure), OutcomeEffect::Requeued);
    assert_eq!(svc.transaction_queue[0].attempts, 2);
    assert_eq!(queue_keys(&svc), vec![(TxKind::Drand, 100), (TxKind::Drand, 90)]);
    assert_eq!(svc.record_outcome(SubmissionOutcome::TransientFailure), OutcomeEffect::PersistentFailure);
    assert_eq!(queue_keys(&svc), vec![(TxKind::Drand, 90)]);
    assert_eq!(svc.persistent_failures.len(), 1);
    assert!(matches!(&svc.persistent_failures[0], QueuedTransaction::Drand { timestamp: 100, .. }));
    assert!(!svc.processed_drand_timestamps.contains(&100));
}

#[test]
fn outcome_with_empty_queue_does_nothing() {
    let mut svc = RandomOracleService::new(10, 2);
    assert_eq!(svc.record_outcome(SubmissionOutcome::Confirmed), OutcomeEffect::NothingInFlight);
    assert!(svc.processed_drand_timestamps.is_empty());
    assert!(svc.next_submission().is_none());
}

#[test]
fn transaction_accessors() {
    let tx = QueuedTransaction::new(TxKind::Commitment, 42, "v".to_string());
    assert_eq!(tx.kind(), TxKind::Commitment);
    assert_eq!(tx.timestamp(), 42);
    assert_eq!(tx.value(), "v");
    let copy = tx.duplicate();
    assert!(matches!(copy, QueuedTransaction::Commitment { timestamp: 42, .. }));
    assert_eq!(copy.value(), "v");
}

#[test]
fn schedule_lists_latest_due_rounds() {
    let s = Schedule::new(1000, 3);
    assert_eq!(s.due_timestamps(1010, 10), vec![1000, 1003, 1006, 1009]);
    assert_eq!(s.due_timestamps(1010, 2), vec![1006, 1009]);
    assert_eq!(s.due_timestamps(1009, 1), vec![1009]);
    assert_eq!(s.due_timestamps(1000, 5), vec![1000]);
    assert_eq!(s.due_timestamps(999, 5), Vec::<u64>::new());
    assert_eq!(s.due_timestamps(1010, 0), Vec::<u64>::new());
}

#[test]
fn schedule_handles_largest_times() {
    let s = Schedule::new(0, 1);
    assert_eq!(s.due_timestamps(u64::MAX, 2), vec![u64::MAX - 1, u64::MAX]);
    let t = Schedule::new(u64::MAX - 5, 2);
    assert_eq!(t.due_timestamps(u64::MAX, 10), vec![u64::MAX - 5, u64::MAX - 3, u64::MAX - 1]);
}

#[test]
fn schedule_round_numbers_start_at_one() {
    let s = Schedule::new(1692803367, 3);
    assert_eq!(s.round_at(1692803367), 1);
    assert_eq!(s.round_at(1692803369), 1);
    assert_eq!(s.round_at(1692803370), 2);
    assert_eq!(s.round_at(1692803367 + 300), 101);
}

#[test]
fn retried_fetch_queues_round_once() {
    let mut svc = RandomOracleService::new(10, 3);
    let failing = vec![DrandProbe { timestamp: 100, stored_on_chain: false, beacon: BeaconFetch::FetchError }];
    svc.backfill_missing_values(100, &failing);
    assert!(svc.transaction_queue.is_empty());
    svc.backfill_missing_values(100, &vec![ready(100, "aa")]);
    svc.backfill_missing_values(100, &vec![ready(100, "aa")]);
    assert_eq!(queue_keys(&svc), vec![(TxKind::Drand, 100)]);
    assert_eq!(svc.transaction_queue[0].tx.value(), "aa");
}
