use poi_core::emissions::{
    claim_rewards, cross_subnet_allocation, distribute_emissions, EmissionBalance, EmissionsError,
    SubnetAllocation,
};
use poi_core::epoch::{finalize_consensus, submit_weights, ConsensusState};
use poi_core::hive::{
    allocate_cross_subnet_emissions, register_subnet, update_governance, Governance, HiveError, Metagraph,
};
use poi_core::staking::{
    calculate_stake_weight, delegate, stake_validator, unstake, withdraw_unstaked, Delegation, StakeAccount,
    StakingError, UNSTAKE_COOLDOWN,
};
use poi_core::types::{ConsensusEntry, WeightEntry};

fn key(b: u8) -> [u8; 32] {
    [b; 32]
}

fn stake(amount: u64, delegated: u64) -> StakeAccount {
    StakeAccount {
        validator: key(1),
        subnet_id: 3,
        amount,
        delegated_amount: delegated,
        unstake_pending: 0,
        unstake_cooldown_until: 0,
    }
}

#[test]
fn stake_weight_counts_eighteen_percent_of_delegation() {
    assert_eq!(calculate_stake_weight(&stake(1000, 0)), 1000);
    assert_eq!(calculate_stake_weight(&stake(1000, 100)), 918);
    assert_eq!(calculate_stake_weight(&stake(1000, 1000)), 180);
    assert_eq!(calculate_stake_weight(&stake(10, 5)), 5);
    assert_eq!(calculate_stake_weight(&stake(u64::MAX, u64::MAX)), 3320413933267719290);
}

#[test]
fn staking_and_delegating() {
    let mut s = stake(0, 0);
    assert_eq!(stake_validator(&mut s, key(9), 4, 0), Err(StakingError::InvalidAmount));
    assert_eq!(stake_validator(&mut s, key(9), 4, 500), Ok(()));
    assert_eq!((s.validator, s.subnet_id, s.amount, s.delegated_amount), (key(9), 4, 500, 0));
    let mut d = Delegation { delegator: key(0), validator: key(0), subnet_id: 0, amount: 0 };
    assert_eq!(delegate(&mut d, &mut s, key(5), key(9), 4, 0), Err(StakingError::InvalidAmount));
    assert_eq!(delegate(&mut d, &mut s, key(5), key(9), 4, 70), Ok(()));
    assert_eq!(d, Delegation { delegator: key(5), validator: key(9), subnet_id: 4, amount: 70 });
    assert_eq!(delegate(&mut d, &mut s, key(6), key(6), 6, 30), Ok(()));
    assert_eq!(d, Delegation { delegator: key(5), validator: key(9), subnet_id: 4, amount: 100 });
    assert_eq!(s.delegated_amount, 100);
}

#[test]
fn unstaking_own_and_delegated_stake() {
    let mut s = stake(1000, 300);
    let mut none: Option<Delegation> = None;
    assert_eq!(unstake(&mut s, &mut none, &key(1), 800, 10), Err(StakingError::CannotUnstakeDelegated));
    assert_eq!(unstake(&mut s, &mut none, &key(1), 700, 10), Ok(()));
    assert_eq!((s.amount, s.unstake_pending, s.unstake_cooldown_until), (300, 700, 10 + UNSTAKE_COOLDOWN));
    let mut d = Some(Delegation { delegator: key(2), validator: key(1), subnet_id: 3, amount: 200 });
    assert_eq!(unstake(&mut s, &mut d, &key(2), 250, 20), Err(StakingError::InsufficientStake));
    assert_eq!(unstake(&mut s, &mut d, &key(2), 150, 20), Ok(()));
    assert_eq!(d.unwrap().amount, 50);
    assert_eq!((s.amount, s.delegated_amount, s.unstake_pending), (300, 150, 850));
    assert_eq!(unstake(&mut s, &mut none, &key(2), 1, 20), Err(StakingError::Unauthorized));
    assert_eq!(unstake(&mut s, &mut none, &key(1), 0, 20), Err(StakingError::InvalidAmount));
    assert_eq!(unstake(&mut s, &mut none, &key(1), 301, 20), Err(StakingError::InsufficientStake));
}

#[test]
fn withdrawing_after_cooldown() {
    let mut s = StakeAccount { unstake_pending: 100, unstake_cooldown_until: 50, ..stake(0, 0) };
    assert_eq!(withdraw_unstaked(&mut s, 10, 49), Err(StakingError::CooldownActive));
    assert_eq!(withdraw_unstaked(&mut s, 101, 50), Err(StakingError::InsufficientUnstakePending));
    assert_eq!(withdraw_unstaked(&mut s, 60, 50), Ok(()));
    assert_eq!(s.unstake_pending, 40);
}

fn finalized_state() -> ConsensusState {
    let mut st = ConsensusState::new(1, 2);
    let w = |m: u16, v: u64| WeightEntry { miner_uid: m, weight: v };
    assert_eq!(submit_weights(&mut st, 1, 2, 10, vec![w(7, 6000), w(8, 2000)], 0), Ok(()));
    assert_eq!(submit_weights(&mut st, 1, 2, 11, vec![w(7, 6000)], 0), Ok(()));
    assert_eq!(finalize_consensus(&mut st, 1, 2, &vec![(10, 1), (11, 1)], 5), Ok(()));
    st
}

#[test]
fn emission_is_split_by_weight_and_trust() {
    let st = finalized_state();
    assert_eq!(
        st.miner_consensus,
        vec![
            ConsensusEntry { uid: 7, consensus_weight: 6000, trust_score: 10000, emission_share: 0 },
            ConsensusEntry { uid: 8, consensus_weight: 2000, trust_score: 10000, emission_share: 0 },
        ]
    );
    let shares = distribute_emissions(&st, 1, 2, 1000).ok().unwrap();
    // Weights 16000 and 12000 out of 28000.
    assert_eq!(shares.miner_shares, vec![(7, 571), (8, 428)]);
    assert_eq!(shares.validator_shares, vec![(10, 500), (11, 500)]);
}

#[test]
fn emission_needs_the_right_finalized_epoch() {
    let st = finalized_state();
    assert_eq!(distribute_emissions(&st, 1, 3, 1000).err(), Some(EmissionsError::InvalidEpoch));
    let open = ConsensusState::new(1, 2);
    assert_eq!(distribute_emissions(&open, 1, 2, 1000).err(), Some(EmissionsError::ConsensusNotFinalized));
    let mut empty = ConsensusState::new(1, 2);
    assert_eq!(finalize_consensus(&mut empty, 1, 2, &vec![], 0), Ok(()));
    let shares = distribute_emissions(&empty, 1, 2, 1000).ok().unwrap();
    assert!(shares.miner_shares.is_empty() && shares.validator_shares.is_empty());
}

#[test]
fn claiming_rewards() {
    let mut b = EmissionBalance { neuron_uid: 1, subnet_id: 2, accumulated: 40, claimed: 5, last_updated: 0 };
    assert_eq!(claim_rewards(&mut b, 3), Err(EmissionsError::InvalidSubnet));
    assert_eq!(claim_rewards(&mut b, 2), Ok(40));
    assert_eq!((b.accumulated, b.claimed), (0, 45));
    assert_eq!(claim_rewards(&mut b, 2), Err(EmissionsError::NoRewardsToClaim));
}

#[test]
fn only_the_hive_allocates_across_subnets() {
    let a = vec![SubnetAllocation { subnet_id: 1, allocation: 5 }];
    assert_eq!(cross_subnet_allocation(&key(4), &key(4), &a), Ok(()));
    assert_eq!(cross_subnet_allocation(&key(4), &key(5), &a), Err(EmissionsError::Unauthorized));
}

#[test]
fn metagraph_registers_each_subnet_once() {
    let mut m = Metagraph { subnets: vec![], total_subnets: 0, created_at: 9 };
    assert_eq!(register_subnet(&mut m, 4, &key(0)), Err(HiveError::InvalidSubnet));
    assert_eq!(register_subnet(&mut m, 4, &key(1)), Ok(()));
    assert_eq!(register_subnet(&mut m, 6, &key(1)), Ok(()));
    assert_eq!(register_subnet(&mut m, 4, &key(1)), Ok(()));
    assert_eq!(m.subnets, vec![4, 6]);
    assert_eq!(m.total_subnets, 2);
}

#[test]
fn governance_updates_and_allocation_limits() {
    let mut g = Governance { governor: key(1), global_emission_rate: 100, cross_subnet_allocation_rate: 5, created_at: 0 };
    assert_eq!(update_governance(&mut g, &key(2), Some(1), None), Err(HiveError::Unauthorized));
    assert_eq!(update_governance(&mut g, &key(1), None, Some(7)), Ok(()));
    assert_eq!((g.global_emission_rate, g.cross_subnet_allocation_rate), (100, 7));
    let a = vec![SubnetAllocation { subnet_id: 1, allocation: 60 }, SubnetAllocation { subnet_id: 2, allocation: 40 }];
    assert_eq!(allocate_cross_subnet_emissions(&g, &key(1), &a), Ok(()));
    let b = vec![SubnetAllocation { subnet_id: 1, allocation: 60 }, SubnetAllocation { subnet_id: 2, allocation: 41 }];
    assert_eq!(allocate_cross_subnet_emissions(&g, &key(1), &b), Err(HiveError::ExceedsGlobalEmission));
    assert_eq!(allocate_cross_subnet_emissions(&g, &key(2), &a), Err(HiveError::Unauthorized));
    let huge = vec![SubnetAllocation { subnet_id: 1, allocation: u64::MAX }, SubnetAllocation { subnet_id: 2, allocation: 1 }];
    assert_eq!(allocate_cross_subnet_emissions(&g, &key(1), &huge), Err(HiveError::ExceedsGlobalEmission));
}
