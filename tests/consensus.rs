use poi_core::aggregate::{compute_weighted_median, get_validator_stake_weight};
use poi_core::clip::clip_outliers;
use poi_core::epoch::{finalize_consensus, submit_weights, ConsensusState};
use poi_core::median::weighted_median;
use poi_core::trust::{alignment, calculate_trust_scores};
use poi_core::types::{ConsensusEntry, ConsensusError, WeightEntry, WeightSubmission};

fn entry(miner_uid: u16, weight: u64) -> WeightEntry {
    WeightEntry { miner_uid, weight }
}

fn submission(validator_uid: u16, weights: Vec<WeightEntry>) -> WeightSubmission {
    WeightSubmission { validator_uid, subnet_id: 1, epoch: 9, weights, timestamp: 0 }
}

fn miner(uid: u16, consensus_weight: u64, trust_score: u64) -> ConsensusEntry {
    ConsensusEntry { uid, consensus_weight, trust_score, emission_share: 0 }
}

fn validator(uid: u16, trust_score: u64) -> ConsensusEntry {
    ConsensusEntry { uid, consensus_weight: 0, trust_score, emission_share: 0 }
}

#[test]
fn alignment_is_bounded_and_perfect_on_agreement() {
    assert_eq!(alignment(5000, 5000), 10000);
    assert_eq!(alignment(0, 0), 10000);
    assert_eq!(alignment(7000, 5000), 8000);
    assert_eq!(alignment(5000, 7000), 8000);
    assert_eq!(alignment(0, 10000), 0);
    assert_eq!(alignment(u64::MAX, 0), 0);
    assert_eq!(alignment(0, u64::MAX), 0);
    assert_eq!(alignment(1, 10000), 1);
}

#[test]
fn median_with_equal_stakes_stops_at_half_the_stake() {
    // Total stake 3, target 3 / 2 = 1: the first sample already reaches it.
    assert_eq!(weighted_median(&vec![(10, 1), (20, 1), (30, 1)]), 10);
    // Total stake 4, target 2: reached at the second sample.
    assert_eq!(weighted_median(&vec![(10, 1), (20, 1), (30, 1), (40, 1)]), 20);
}

#[test]
fn median_with_heavy_first_sample() {
    assert_eq!(weighted_median(&vec![(10, 5), (20, 1), (30, 1)]), 10);
    assert_eq!(weighted_median(&vec![(30, 1), (20, 1), (10, 5)]), 10);
}

#[test]
fn median_ignores_input_order() {
    assert_eq!(weighted_median(&vec![(30, 1), (10, 1), (20, 2)]), 20);
    assert_eq!(weighted_median(&vec![(20, 2), (30, 1), (10, 1)]), 20);
    assert_eq!(weighted_median(&vec![(30, 10), (10, 1), (20, 2)]), 30);
}

#[test]
fn median_degenerate_inputs() {
    assert_eq!(weighted_median(&vec![]), 0);
    assert_eq!(weighted_median(&vec![(30, 0), (10, 0), (20, 0)]), 10);
    assert_eq!(weighted_median(&vec![(42, 7)]), 42);
}

#[test]
fn clipping_keeps_an_outlier_exactly_on_the_two_sigma_boundary() {
    // Mean 208, standard deviation 396: 1000 lies exactly 2 sigma away and is kept.
    let ws = vec![(10, 1), (10, 1), (10, 1), (10, 1), (1000, 1)];
    assert_eq!(clip_outliers(10, &ws), 208);
}

#[test]
fn clipping_removes_a_wild_outlier() {
    let ws = vec![(10, 1), (10, 1), (10, 1), (10, 1), (10, 1), (10, 1), (1000, 1)];
    assert_eq!(clip_outliers(10, &ws), 10);
}

#[test]
fn clipping_identical_and_spread_weights() {
    assert_eq!(clip_outliers(0, &vec![(5, 1), (5, 2), (5, 3)]), 5);
    assert_eq!(clip_outliers(0, &vec![(10, 1), (20, 1), (30, 1)]), 20);
    assert_eq!(clip_outliers(0, &vec![(10, 1), (11, 1)]), 10);
    assert_eq!(clip_outliers(77, &vec![]), 77);
}

#[test]
fn clipping_at_the_largest_weights() {
    assert_eq!(clip_outliers(0, &vec![(u64::MAX, 1), (0, 1)]), u64::MAX / 2);
    assert_eq!(clip_outliers(0, &vec![(u64::MAX, 1), (u64::MAX, 9), (u64::MAX, 0)]), u64::MAX);
    let mut ws = vec![(u64::MAX - 4, 1); 6];
    ws.push((0, 1));
    assert_eq!(clip_outliers(0, &ws), u64::MAX - 4);
}

#[test]
fn stake_lookup_takes_first_row_and_defaults_to_zero() {
    let table = vec![(3, 100), (4, 50), (3, 7)];
    assert_eq!(get_validator_stake_weight(3, &table), 100);
    assert_eq!(get_validator_stake_weight(4, &table), 50);
    assert_eq!(get_validator_stake_weight(5, &table), 0);
    assert_eq!(get_validator_stake_weight(5, &vec![]), 0);
}

#[test]
fn aggregation_one_entry_per_rated_miner_in_order_of_first_mention() {
    let subs = vec![
        submission(1, vec![entry(5, 100), entry(2, 300)]),
        submission(2, vec![entry(2, 500), entry(9, 10)]),
        submission(3, vec![entry(5, 300)]),
    ];
    let stakes = vec![(1, 10), (2, 10), (3, 10)];
    let r = compute_weighted_median(&subs, &stakes);
    assert_eq!(r, vec![miner(5, 200, 0), miner(2, 400, 0), miner(9, 10, 0)]);
    assert!(r.iter().all(|e| e.uid != 4));
}

#[test]
fn aggregation_of_no_submissions_is_empty() {
    assert_eq!(compute_weighted_median(&vec![], &vec![(1, 5)]), vec![]);
}

#[test]
fn aggregation_ignores_submissions_about_other_miners() {
    let a = vec![
        submission(1, vec![entry(7, 100)]),
        submission(2, vec![entry(8, 9000)]),
        submission(3, vec![entry(7, 130)]),
    ];
    let b = vec![
        submission(2, vec![entry(8, 9000)]),
        submission(1, vec![entry(7, 100)]),
        submission(3, vec![entry(7, 130)]),
    ];
    let stakes = vec![(1, 1), (2, 1), (3, 1)];
    let ra = compute_weighted_median(&a, &stakes);
    let rb = compute_weighted_median(&b, &stakes);
    assert_eq!(ra, compute_weighted_median(&a, &stakes));
    let of = |r: &Vec<ConsensusEntry>, uid: u16| r.iter().find(|e| e.uid == uid).copied();
    assert_eq!(of(&ra, 7), of(&rb, 7));
    assert_eq!(of(&ra, 8), of(&rb, 8));
    assert_eq!(of(&ra, 7), Some(miner(7, 115, 0)));
}

#[test]
fn trust_uses_first_report_for_miners_and_all_reports_for_validators() {
    let subs = vec![
        submission(1, vec![entry(7, 5000), entry(7, 9000), entry(8, 100)]),
        submission(2, vec![entry(7, 4000)]),
    ];
    let cs = vec![miner(7, 5000, 0)];
    let t = calculate_trust_scores(&subs, &cs);
    // Miner 7: alignments 10000 (first report of validator 1) and 9000.
    assert_eq!(t.miner_trust, vec![(7, 9500)]);
    // Validator 1: 10000 and 6000 for miner 7; miner 8 has no consensus and is skipped.
    assert_eq!(t.validator_trust, vec![validator(1, 8000), validator(2, 9000)]);
}

#[test]
fn trust_without_samples_is_zero() {
    let subs = vec![submission(1, vec![entry(8, 100)]), submission(2, vec![])];
    let cs = vec![miner(7, 5000, 0)];
    let t = calculate_trust_scores(&subs, &cs);
    assert_eq!(t.miner_trust, vec![(7, 0)]);
    assert_eq!(t.validator_trust, vec![validator(1, 0), validator(2, 0)]);
}

#[test]
fn two_agreeing_validators_get_full_trust() {
    let mut st = ConsensusState::new(1, 9);
    assert_eq!(submit_weights(&mut st, 1, 9, 1, vec![entry(7, 5000)], 100), Ok(()));
    assert_eq!(submit_weights(&mut st, 1, 9, 2, vec![entry(7, 5000)], 101), Ok(()));
    assert_eq!(finalize_consensus(&mut st, 1, 9, &vec![(1, 1000), (2, 1000)], 200), Ok(()));
    assert_eq!(st.miner_consensus, vec![miner(7, 5000, 10000)]);
    assert_eq!(st.validator_consensus, vec![validator(1, 10000), validator(2, 10000)]);
    assert!(st.finalized);
    assert_eq!(st.finalized_at, 200);
}

#[test]
fn submission_is_appended_with_its_timestamp() {
    let mut st = ConsensusState::new(1, 9);
    assert_eq!(submit_weights(&mut st, 1, 9, 4, vec![entry(3, 11), entry(3, 12)], 55), Ok(()));
    assert_eq!(st.submissions.len(), 1);
    let s = &st.submissions[0];
    assert_eq!((s.validator_uid, s.subnet_id, s.epoch, s.timestamp), (4, 1, 9, 55));
    assert_eq!(s.weights, vec![entry(3, 11), entry(3, 12)]);
    assert!(!st.finalized);
    assert!(st.miner_consensus.is_empty());
}

#[test]
fn submit_rejects_wrong_subnet_then_wrong_epoch() {
    let mut st = ConsensusState::new(1, 9);
    assert_eq!(submit_weights(&mut st, 2, 8, 1, vec![entry(7, 1)], 0), Err(ConsensusError::InvalidSubnet));
    assert_eq!(submit_weights(&mut st, 1, 8, 1, vec![entry(7, 1)], 0), Err(ConsensusError::InvalidEpoch));
    assert!(st.submissions.is_empty());
}

#[test]
fn finalize_rejects_wrong_subnet_or_epoch() {
    let mut st = ConsensusState::new(1, 9);
    assert_eq!(finalize_consensus(&mut st, 2, 9, &vec![], 0), Err(ConsensusError::InvalidEpoch));
    assert_eq!(finalize_consensus(&mut st, 1, 8, &vec![], 0), Err(ConsensusError::InvalidEpoch));
    assert!(!st.finalized);
}

#[test]
fn second_finalize_fails_and_keeps_entries() {
    let mut st = ConsensusState::new(1, 9);
    assert_eq!(submit_weights(&mut st, 1, 9, 1, vec![entry(7, 3000), entry(8, 100)], 1), Ok(()));
    assert_eq!(finalize_consensus(&mut st, 1, 9, &vec![(1, 5)], 2), Ok(()));
    let miners = st.miner_consensus.clone();
    let validators = st.validator_consensus.clone();
    assert_eq!(finalize_consensus(&mut st, 1, 9, &vec![(1, 5)], 3), Err(ConsensusError::EpochFinalized));
    assert_eq!(st.miner_consensus, miners);
    assert_eq!(st.validator_consensus, validators);
    assert_eq!(st.finalized_at, 2);
}

#[test]
fn submission_after_finalize_is_rejected() {
    let mut st = ConsensusState::new(1, 9);
    assert_eq!(submit_weights(&mut st, 1, 9, 1, vec![entry(7, 3000)], 1), Ok(()));
    assert_eq!(finalize_consensus(&mut st, 1, 9, &vec![(1, 5)], 2), Ok(()));
    let miners = st.miner_consensus.clone();
    assert_eq!(submit_weights(&mut st, 1, 9, 2, vec![entry(7, 9000)], 3), Err(ConsensusError::EpochFinalized));
    assert_eq!(st.miner_consensus, miners);
    assert_eq!(st.submissions.len(), 1);
}

#[test]
fn empty_epoch_finalizes_with_empty_results() {
    let mut st = ConsensusState::new(3, 4);
    assert_eq!(finalize_consensus(&mut st, 3, 4, &vec![], 10), Ok(()));
    assert!(st.finalized);
    assert!(st.miner_consensus.is_empty());
    assert!(st.validator_consensus.is_empty());
}

#[test]
fn unrated_miner_never_appears() {
    let mut st = ConsensusState::new(1, 9);
    assert_eq!(submit_weights(&mut st, 1, 9, 1, vec![entry(7, 3000)], 1), Ok(()));
    assert_eq!(submit_weights(&mut st, 1, 9, 2, vec![], 1), Ok(()));
    assert_eq!(finalize_consensus(&mut st, 1, 9, &vec![], 2), Ok(()));
    assert!(st.miner_consensus.iter().all(|e| e.uid == 7));
    assert_eq!(st.miner_consensus.len(), 1);
    assert_eq!(st.validator_consensus, vec![validator(1, 10000), validator(2, 0)]);
}

#[test]
fn swapping_submissions_keeps_every_consensus_weight() {
    let s1 = submission(1, vec![entry(7, 100), entry(8, 5)]);
    let s2 = submission(2, vec![entry(7, 300), entry(9, 40)]);
    let s3 = submission(3, vec![entry(8, 15), entry(7, 250)]);
    let stakes = vec![(1, 4), (2, 1), (3, 9)];
    let a = compute_weighted_median(&vec![s1.clone(), s2.clone(), s3.clone()], &stakes);
    let b = compute_weighted_median(&vec![s3, s1, s2], &stakes);
    let of = |r: &Vec<ConsensusEntry>, uid: u16| r.iter().find(|e| e.uid == uid).copied();
    for uid in [7u16, 8, 9] {
        assert_eq!(of(&a, uid), of(&b, uid));
    }
    assert_eq!(of(&a, 7), Some(miner(7, 216, 0)));
    assert_eq!(a.iter().map(|e| e.uid).collect::<Vec<_>>(), vec![7, 8, 9]);
    assert_eq!(b.iter().map(|e| e.uid).collect::<Vec<_>>(), vec![8, 7, 9]);
}
