use vstd::prelude::*;
use crate::registry::same_key;

verus! {

/// How long unstaked funds stay locked, in seconds.
pub const UNSTAKE_COOLDOWN: i64 = 604800;

/// A validator's stake in a subnet: its own funds plus what was delegated to
/// it (`amount` counts both), and what is waiting to be withdrawn.
#[derive(Debug, Clone, Copy, PartialEq, Eq)]
pub struct StakeAccount {
    pub validator: [u8; 32],
    pub subnet_id: u16,
    pub amount: u64,
    pub delegated_amount: u64,
    pub unstake_pending: u64,
    pub unstake_cooldown_until: i64,
}

/// One delegator's stake with one validator.
#[derive(Debug, Clone, Copy, PartialEq, Eq)]
pub struct Delegation {
    pub delegator: [u8; 32],
    pub validator: [u8; 32],
    pub subnet_id: u16,
    pub amount: u64,
}

/// Why a staking operation was refused.
#[derive(Clone, Copy, Debug, PartialEq, Eq, Structural)]
pub enum StakingError {
    InvalidAmount,
    InsufficientStake,
    CannotUnstakeDelegated,
    Unauthorized,
    CooldownActive,
    InsufficientUnstakePending,
}

/// `W = α + 0.18·τ` in fixed point: α the validator's own stake, τ the
/// delegated stake, `0.18·τ` floored.
pub open spec fn stake_weight_spec(amount: u64, delegated: u64) -> int {
    (amount - delegated) + (delegated * 18) / 100
}

/// The stake weight of a validator: its own stake plus 18% of the stake
/// delegated to it.
pub fn calculate_stake_weight(stake_account: &StakeAccount) -> (r: u64)
    requires
        stake_account.delegated_amount <= stake_account.amount,
    ensures
        r == stake_weight_spec(stake_account.amount, stake_account.delegated_amount),
{
    let alpha = stake_account.amount - stake_account.delegated_amount;
    let tau = stake_account.delegated_amount as u128;
    let bonus = (tau * 18) / 100;
    assert(bonus <= tau);
    alpha + bonus as u64
}

/// A validator stakes `amount` of its own in `subnet_id`: the account is
/// (re)assigned to it with no delegated stake, and its amount grows.
pub fn stake_validator(
    stake_account: &mut StakeAccount,
    validator: [u8; 32],
    subnet_id: u16,
    amount: u64,
) -> (r: Result<(), StakingError>)
    requires
        old(stake_account).amount + amount <= u64::MAX,
    ensures
        amount == 0 ==> r == Err::<(), StakingError>(StakingError::InvalidAmount) && *final(stake_account) == *old(stake_account),
        amount > 0 ==> r == Ok::<(), StakingError>(()) && *final(stake_account) == (StakeAccount {
            validator,
            subnet_id,
            amount: (old(stake_account).amount + amount) as u64,
            delegated_amount: 0,
            ..*old(stake_account)
        }),
{
    if amount == 0 {
        return Err(StakingError::InvalidAmount);
    }
    stake_account.validator = validator;
    stake_account.subnet_id = subnet_id;
    stake_account.amount = stake_account.amount + amount;
    stake_account.delegated_amount = 0;
    Ok(())
}

/// `delegator` delegates `amount` to `validator` in `subnet_id`. A fresh
/// delegation (amount 0) takes the parties and subnet; the delegation and
/// the validator's delegated stake both grow.
pub fn delegate(
    delegation: &mut Delegation,
    stake_account: &mut StakeAccount,
    delegator: [u8; 32],
    validator: [u8; 32],
    subnet_id: u16,
    amount: u64,
) -> (r: Result<(), StakingError>)
    requires
        old(delegation).amount + amount <= u64::MAX,
        old(stake_account).delegated_amount + amount <= u64::MAX,
    ensures
        amount == 0 ==> r == Err::<(), StakingError>(StakingError::InvalidAmount) && *final(delegation) == *old(delegation) && *final(stake_account) == *old(stake_account),
        amount > 0 ==> {
            &&& r == Ok::<(), StakingError>(())
            &&& *final(delegation) == if old(delegation).amount == 0 {
                Delegation {
                    delegator,
                    validator,
                    subnet_id,
                    amount: (old(delegation).amount + amount) as u64,
                }
            } else {
                Delegation { amount: (old(delegation).amount + amount) as u64, ..*old(delegation) }
            }
            &&& *final(stake_account) == (StakeAccount {
                delegated_amount: (old(stake_account).delegated_amount + amount) as u64,
                ..*old(stake_account)
            })
        },
{
    if amount == 0 {
        return Err(StakingError::InvalidAmount);
    }
    if delegation.amount == 0 {
        delegation.delegator = delegator;
        delegation.validator = validator;
        delegation.subnet_id = subnet_id;
    }
    delegation.amount = delegation.amount + amount;
    stake_account.delegated_amount = stake_account.delegated_amount + amount;
    Ok(())
}

/// Unstakes `amount` at time `now` on behalf of `authority`: the validator
/// from its own (undelegated) stake, or a delegator from its delegation.
/// The amount moves to pending and the cooldown restarts.
pub fn unstake(
    stake_account: &mut StakeAccount,
    delegation: &mut Option<Delegation>,
    authority: &[u8; 32],
    amount: u64,
    now: i64,
) -> (r: Result<(), StakingError>)
    requires
        old(stake_account).delegated_amount <= old(stake_account).amount,
        *old(delegation) matches Some(d) ==> d.amount <= old(stake_account).delegated_amount,
        old(stake_account).unstake_pending + amount <= u64::MAX,
        now <= i64::MAX - UNSTAKE_COOLDOWN,
    ensures
        ({
            let s = *old(stake_account);
            let own = authority@ == s.validator@;
            let pending = StakeAccount {
                unstake_cooldown_until: (now + UNSTAKE_COOLDOWN) as i64,
                unstake_pending: (s.unstake_pending + amount) as u64,
                ..s
            };
            if amount == 0 {
                r == Err::<(), StakingError>(StakingError::InvalidAmount)
            } else if s.amount < amount {
                r == Err::<(), StakingError>(StakingError::InsufficientStake)
            } else if own {
                if s.amount - s.delegated_amount < amount {
                    r == Err::<(), StakingError>(StakingError::CannotUnstakeDelegated)
                } else {
                    &&& r == Ok::<(), StakingError>(())
                    &&& *final(stake_account) == (StakeAccount {
                        amount: (s.amount - amount) as u64,
                        ..pending
                    })
                    &&& *final(delegation) == *old(delegation)
                }
            } else {
                match *old(delegation) {
                    None => r == Err::<(), StakingError>(StakingError::Unauthorized),
                    Some(d) => if d.amount < amount {
                        r == Err::<(), StakingError>(StakingError::InsufficientStake)
                    } else {
                        &&& r == Ok::<(), StakingError>(())
                        &&& *final(stake_account) == (StakeAccount {
                            delegated_amount: (s.delegated_amount - amount) as u64,
                            ..pending
                        })
                        &&& *final(delegation) == Some(
                            Delegation { amount: (d.amount - amount) as u64, ..d },
                        )
                    },
                }
            }
        }),
        r is Err ==> *final(stake_account) == *old(stake_account) && *final(delegation) == *old(delegation),
{
    if amount == 0 {
        return Err(StakingError::InvalidAmount);
    }
    if stake_account.amount < amount {
        return Err(StakingError::InsufficientStake);
    }
    if same_key(authority, &stake_account.validator) {
        if stake_account.amount - stake_account.delegated_amount < amount {
            return Err(StakingError::CannotUnstakeDelegated);
        }
        stake_account.amount = stake_account.amount - amount;
    } else {
        match *delegation {
            Some(d) => {
                if d.amount < amount {
                    return Err(StakingError::InsufficientStake);
                }
                *delegation = Some(Delegation { amount: d.amount - amount, ..d });
                stake_account.delegated_amount = stake_account.delegated_amount - amount;
            },
            None => {
                return Err(StakingError::Unauthorized);
            },
        }
    }
    stake_account.unstake_cooldown_until = now + UNSTAKE_COOLDOWN;
    stake_account.unstake_pending = stake_account.unstake_pending + amount;
    Ok(())
}

/// Withdraws `amount` of pending unstaked funds at time `now`, once the
/// cooldown is over.
pub fn withdraw_unstaked(stake_account: &mut StakeAccount, amount: u64, now: i64) -> (r: Result<
    (),
    StakingError,
>)
    ensures
        now < old(stake_account).unstake_cooldown_until ==> r == Err::<(), StakingError>(
            StakingError::CooldownActive,
        ),
        now >= old(stake_account).unstake_cooldown_until && old(stake_account).unstake_pending
            < amount ==> r == Err::<(), StakingError>(StakingError::InsufficientUnstakePending),
        r is Err ==> *final(stake_account) == *old(stake_account),
        r is Ok ==> now >= old(stake_account).unstake_cooldown_until && amount <= old(stake_account).unstake_pending && *final(stake_account) == (StakeAccount {
            unstake_pending: (old(stake_account).unstake_pending - amount) as u64,
            ..*old(stake_account)
        }),
{
    if now < stake_account.unstake_cooldown_until {
        return Err(StakingError::CooldownActive);
    }
    if stake_account.unstake_pending < amount {
        return Err(StakingError::InsufficientUnstakePending);
    }
    stake_account.unstake_pending = stake_account.unstake_pending - amount;
    Ok(())
}

} // verus!
