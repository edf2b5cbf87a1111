use vstd::prelude::*;
use crate::emissions::SubnetAllocation;
use crate::registry::same_key;

verus! {

/// The subnets known to the global metagraph.
pub struct Metagraph {
    pub subnets: Vec<u16>,
    pub total_subnets: u16,
    pub created_at: i64,
}

/// Global emission parameters and who may change them.
#[derive(Debug, Clone, Copy, PartialEq, Eq)]
pub struct Governance {
    pub governor: [u8; 32],
    pub global_emission_rate: u64,
    pub cross_subnet_allocation_rate: u64,
    pub created_at: i64,
}

/// Why a metagraph or governance operation was refused.
#[derive(Clone, Copy, Debug, PartialEq, Eq, Structural)]
pub enum HiveError {
    InvalidSubnet,
    Unauthorized,
    ExceedsGlobalEmission,
}

/// Sum of the allocations.
pub open spec fn total_allocation(allocs: Seq<SubnetAllocation>) -> int
    decreases allocs.len(),
{
    if allocs.len() == 0 {
        0
    } else {
        total_allocation(allocs.drop_last()) + allocs.last().allocation
    }
}

/// Adds `subnet_id` to the metagraph unless it is there already, and recounts
/// (the count is a `u16`, so it wraps). `subnet_registry` is the key of the
/// subnet's registry record; the all-zero key means there is none.
pub fn register_subnet(metagraph: &mut Metagraph, subnet_id: u16, subnet_registry: &[u8; 32]) -> (r:
    Result<(), HiveError>)
    ensures
        subnet_registry@ == Seq::new(32, |i: int| 0u8) ==> r == Err::<(), HiveError>(
            HiveError::InvalidSubnet,
        ) && final(metagraph).subnets@ == old(metagraph).subnets@ && final(metagraph).total_subnets
            == old(metagraph).total_subnets,
        subnet_registry@ != Seq::new(32, |i: int| 0u8) ==> {
            &&& r == Ok::<(), HiveError>(())
            &&& final(metagraph).subnets@ == if old(metagraph).subnets@.contains(subnet_id) {
                old(metagraph).subnets@
            } else {
                old(metagraph).subnets@.push(subnet_id)
            }
            &&& final(metagraph).total_subnets as int == final(metagraph).subnets@.len() % 0x1_0000
        },
        final(metagraph).created_at == old(metagraph).created_at,
{
    let zero = [0u8; 32];
    assert(zero@ =~= Seq::new(32, |i: int| 0u8));
    if same_key(subnet_registry, &zero) {
        return Err(HiveError::InvalidSubnet);
    }
    let mut present = false;
    let mut i: usize = 0;
    while i < metagraph.subnets.len()
        invariant
            i <= metagraph.subnets.len(),
            present == exists|k: int| 0 <= k < i && metagraph.subnets@[k] == subnet_id,
        decreases metagraph.subnets.len() - i,
    {
        if metagraph.subnets[i] == subnet_id {
            present = true;
        }
        i = i + 1;
    }
    if !present {
        metagraph.subnets.push(subnet_id);
    } else {
        proof {
            let k = choose|k: int| 0 <= k < i && metagraph.subnets@[k] == subnet_id;
            assert(metagraph.subnets@[k] == subnet_id);
        }
    }
    metagraph.total_subnets = (metagraph.subnets.len() % 0x1_0000) as u16;
    Ok(())
}

/// The governor's partial update of the global parameters: each rate given
/// is set, each left out stays.
pub fn update_governance(
    governance: &mut Governance,
    authority: &[u8; 32],
    global_emission_rate: Option<u64>,
    cross_subnet_allocation_rate: Option<u64>,
) -> (r: Result<(), HiveError>)
    ensures
        authority@ != old(governance).governor@ ==> r == Err::<(), HiveError>(
            HiveError::Unauthorized,
        ) && *final(governance) == *old(governance),
        authority@ == old(governance).governor@ ==> r == Ok::<(), HiveError>(()) && *final(governance) == (Governance {
            global_emission_rate: match global_emission_rate {
                Some(v) => v,
                None => old(governance).global_emission_rate,
            },
            cross_subnet_allocation_rate: match cross_subnet_allocation_rate {
                Some(v) => v,
                None => old(governance).cross_subnet_allocation_rate,
            },
            ..*old(governance)
        }),
{
    if !same_key(authority, &governance.governor) {
        return Err(HiveError::Unauthorized);
    }
    match global_emission_rate {
        Some(v) => {
            governance.global_emission_rate = v;
        },
        None => {},
    }
    match cross_subnet_allocation_rate {
        Some(v) => {
            governance.cross_subnet_allocation_rate = v;
        },
        None => {},
    }
    Ok(())
}

/// Accepts the governor's allocations of emission to subnets when together
/// they stay within the global emission rate.
pub fn allocate_cross_subnet_emissions(
    governance: &Governance,
    authority: &[u8; 32],
    allocations: &Vec<SubnetAllocation>,
) -> (r: Result<(), HiveError>)
    ensures
        authority@ != governance.governor@ ==> r == Err::<(), HiveError>(HiveError::Unauthorized),
        authority@ == governance.governor@ && total_allocation(allocations@)
            > governance.global_emission_rate ==> r == Err::<(), HiveError>(
            HiveError::ExceedsGlobalEmission,
        ),
        authority@ == governance.governor@ && total_allocation(allocations@)
            <= governance.global_emission_rate ==> r == Ok::<(), HiveError>(()),
{
    if !same_key(authority, &governance.governor) {
        return Err(HiveError::Unauthorized);
    }
    let mut total: u128 = 0;
    let mut i: usize = 0;
    while i < allocations.len()
        invariant
            i <= allocations.len(),
            total == total_allocation(allocations@.take(i as int)),
            total <= i * (u64::MAX as int),
        decreases allocations.len() - i,
    {
        assert(allocations@.take(i as int + 1).drop_last() =~= allocations@.take(i as int));
        assert(allocations@.take(i as int + 1).last() == allocations@[i as int]);
        assert((i + 1) * (u64::MAX as int) <= u128::MAX) by (nonlinear_arith)
            requires
                i + 1 <= usize::MAX,
                usize::MAX <= u64::MAX,
        ;
        assert(i * (u64::MAX as int) + u64::MAX == (i + 1) * (u64::MAX as int)) by (nonlinear_arith);
        total = total + allocations[i].allocation as u128;
        i = i + 1;
    }
    assert(allocations@.take(i as int) =~= allocations@);
    if total > governance.global_emission_rate as u128 {
        return Err(HiveError::ExceedsGlobalEmission);
    }
    Ok(())
}

} // verus!
