use vstd::prelude::*;
use crate::state::{Neuron, Subnet};

verus! {

/// How long a newly registered neuron is protected from pruning, in seconds.
pub const IMMUNITY_PERIOD: i64 = 86400;

/// Why the registry refused an operation.
#[derive(Clone, Copy, Debug, PartialEq, Eq, Structural)]
pub enum RegistryError {
    InvalidMaxNeurons,
    InvalidValidatorLimit,
    SubnetFull,
    NeuronAlreadyRegistered,
    InvalidSubnet,
    Unauthorized,
    InvalidNeuron,
    NeuronImmune,
}

impl RegistryError {
    /// The custom error code of the variant: its position in the declaration.
    pub fn code(&self) -> (r: u32)
        ensures
            r == match *self {
                RegistryError::InvalidMaxNeurons => 0u32,
                RegistryError::InvalidValidatorLimit => 1u32,
                RegistryError::SubnetFull => 2u32,
                RegistryError::NeuronAlreadyRegistered => 3u32,
                RegistryError::InvalidSubnet => 4u32,
                RegistryError::Unauthorized => 5u32,
                RegistryError::InvalidNeuron => 6u32,
                RegistryError::NeuronImmune => 7u32,
            },
    {
        match self {
            RegistryError::InvalidMaxNeurons => 0,
            RegistryError::InvalidValidatorLimit => 1,
            RegistryError::SubnetFull => 2,
            RegistryError::NeuronAlreadyRegistered => 3,
            RegistryError::InvalidSubnet => 4,
            RegistryError::Unauthorized => 5,
            RegistryError::InvalidNeuron => 6,
            RegistryError::NeuronImmune => 7,
        }
    }
}

/// Whether two public keys are the same.
pub fn same_key(a: &[u8; 32], b: &[u8; 32]) -> (r: bool)
    ensures
        r == (a@ == b@),
{
    let mut i: usize = 0;
    while i < 32
        invariant
            i <= 32,
            forall|k: int| 0 <= k < i ==> a@[k] == b@[k],
        decreases 32 - i,
    {
        if a[i] != b[i] {
            return false;
        }
        i = i + 1;
    }
    assert(a@ =~= b@);
    true
}

/// A new subnet governed by `governor`, with no neurons yet. Its validator
/// limit may not exceed its neuron limit.
pub fn create_subnet(
    subnet_id: u16,
    governor: [u8; 32],
    max_neurons: u8,
    validator_limit: u8,
    emission_rate: u64,
    incentive_function_hash: [u8; 32],
    created_at: i64,
) -> (r: Result<Subnet, RegistryError>)
    ensures
        validator_limit > max_neurons ==> r == Err::<Subnet, RegistryError>(
            RegistryError::InvalidValidatorLimit,
        ),
        validator_limit <= max_neurons ==> r == Ok::<Subnet, RegistryError>(
            Subnet {
                id: subnet_id,
                governor,
                max_neurons,
                validator_limit,
                incentive_function_hash,
                emission_rate,
                created_at,
                neuron_count: 0,
            },
        ),
{
    if validator_limit > max_neurons {
        return Err(RegistryError::InvalidValidatorLimit);
    }
    Ok(
        Subnet {
            id: subnet_id,
            governor,
            max_neurons,
            validator_limit,
            incentive_function_hash,
            emission_rate,
            created_at,
            neuron_count: 0,
        },
    )
}

/// Registers a neuron with keys `hotkey` and `coldkey` in `subnet` at time
/// `now`. `existing` is what the neuron's record currently holds, if it
/// decodes; a record with a non-zero uid is taken. The neuron gets the next
/// uid and is immune for `IMMUNITY_PERIOD` seconds; the subnet counts it.
pub fn register_neuron(
    subnet: &mut Subnet,
    subnet_id: u16,
    existing: Option<Neuron>,
    hotkey: [u8; 32],
    coldkey: [u8; 32],
    now: i64,
) -> (r: Result<Neuron, RegistryError>)
    requires
        now <= i64::MAX - IMMUNITY_PERIOD,
    ensures
        old(subnet).id != subnet_id ==> r == Err::<Neuron, RegistryError>(
            RegistryError::InvalidSubnet,
        ),
        old(subnet).id == subnet_id && old(subnet).neuron_count >= old(subnet).max_neurons ==> r
            == Err::<Neuron, RegistryError>(RegistryError::SubnetFull),
        old(subnet).id == subnet_id && old(subnet).neuron_count < old(subnet).max_neurons && (
        existing matches Some(n) && n.uid != 0) ==> r == Err::<Neuron, RegistryError>(
            RegistryError::NeuronAlreadyRegistered,
        ),
        r is Err ==> *final(subnet) == *old(subnet),
        r is Ok ==> {
            &&& old(subnet).id == subnet_id
            &&& old(subnet).neuron_count < old(subnet).max_neurons
            &&& !(existing matches Some(n) && n.uid != 0)
            &&& *final(subnet) == (Subnet {
                neuron_count: (old(subnet).neuron_count + 1) as u16,
                ..*old(subnet)
            })
            &&& r == Ok::<Neuron, RegistryError>(
                Neuron {
                    uid: (old(subnet).neuron_count + 1) as u16,
                    subnet_id,
                    hotkey,
                    coldkey,
                    stake: 0,
                    rank: 0,
                    trust: 0,
                    incentive: 0,
                    validator_trust: 0,
                    is_validator: false,
                    immunity_until: (now + IMMUNITY_PERIOD) as i64,
                    registered_at: now,
                },
            )
        },
{
    if subnet.id != subnet_id {
        return Err(RegistryError::InvalidSubnet);
    }
    if subnet.neuron_count >= subnet.max_neurons as u16 {
        return Err(RegistryError::SubnetFull);
    }
    match existing {
        Some(n) => {
            if n.uid != 0 {
                return Err(RegistryError::NeuronAlreadyRegistered);
            }
        },
        None => {},
    }
    let uid = subnet.neuron_count + 1;
    subnet.neuron_count = uid;
    Ok(
        Neuron {
            uid,
            subnet_id,
            hotkey,
            coldkey,
            stake: 0,
            rank: 0,
            trust: 0,
            incentive: 0,
            validator_trust: 0,
            is_validator: false,
            immunity_until: now + IMMUNITY_PERIOD,
            registered_at: now,
        },
    )
}

/// Applies a governor's partial update to a subnet: each field given is set,
/// each field left out stays. A new neuron limit may not fall below the
/// neuron count (taken modulo 256), and a new validator limit may not exceed
/// the neuron limit after the update. A refused update changes nothing.
pub fn update_subnet_config(
    subnet: &mut Subnet,
    caller: &[u8; 32],
    max_neurons: Option<u8>,
    validator_limit: Option<u8>,
    emission_rate: Option<u64>,
    incentive_function_hash: Option<[u8; 32]>,
) -> (r: Result<(), RegistryError>)
    ensures
        ({
            let pre = *old(subnet);
            let new_max = match max_neurons {
                Some(m) => m,
                None => pre.max_neurons,
            };
            if caller@ != pre.governor@ {
                r == Err::<(), RegistryError>(RegistryError::Unauthorized) && *final(subnet) == pre
            } else if max_neurons matches Some(m) && (m as int) < pre.neuron_count % 256 {
                r == Err::<(), RegistryError>(RegistryError::InvalidMaxNeurons) && *final(subnet)
                    == pre
            } else if validator_limit matches Some(l) && l > new_max {
                r == Err::<(), RegistryError>(RegistryError::InvalidValidatorLimit)
                    && *final(subnet) == pre
            } else {
                &&& r == Ok::<(), RegistryError>(())
                &&& *final(subnet) == (Subnet {
                    max_neurons: new_max,
                    validator_limit: match validator_limit {
                        Some(l) => l,
                        None => pre.validator_limit,
                    },
                    emission_rate: match emission_rate {
                        Some(e) => e,
                        None => pre.emission_rate,
                    },
                    incentive_function_hash: match incentive_function_hash {
                        Some(h) => h,
                        None => pre.incentive_function_hash,
                    },
                    ..pre
                })
            }
        }),
{
    if !same_key(caller, &subnet.governor) {
        return Err(RegistryError::Unauthorized);
    }
    let mut next = *subnet;
    match max_neurons {
        Some(m) => {
            if m < (subnet.neuron_count % 256) as u8 {
                return Err(RegistryError::InvalidMaxNeurons);
            }
            next.max_neurons = m;
        },
        None => {},
    }
    match validator_limit {
        Some(l) => {
            if l > next.max_neurons {
                return Err(RegistryError::InvalidValidatorLimit);
            }
            next.validator_limit = l;
        },
        None => {},
    }
    match emission_rate {
        Some(e) => {
            next.emission_rate = e;
        },
        None => {},
    }
    match incentive_function_hash {
        Some(h) => {
            next.incentive_function_hash = h;
        },
        None => {},
    }
    *subnet = next;
    Ok(())
}

/// Prunes neuron `uid` of subnet `subnet_id` at time `now`, on behalf of
/// `authority`, which must be the subnet's governor or the consensus
/// program. The neuron's uid and scores are cleared (its keys, stake and
/// times stay) and the subnet's count drops by one, not below zero. A
/// refused prune changes nothing.
pub fn prune_neuron(
    subnet: &mut Subnet,
    neuron: &mut Neuron,
    subnet_id: u16,
    uid: u16,
    authority: &[u8; 32],
    consensus_program: &[u8; 32],
    now: i64,
) -> (r: Result<(), RegistryError>)
    ensures
        ({
            let s = *old(subnet);
            let n = *old(neuron);
            if n.subnet_id != subnet_id || n.uid != uid {
                r == Err::<(), RegistryError>(RegistryError::InvalidNeuron)
            } else if now <= n.immunity_until {
                r == Err::<(), RegistryError>(RegistryError::NeuronImmune)
            } else if authority@ != s.governor@ && authority@ != consensus_program@ {
                r == Err::<(), RegistryError>(RegistryError::Unauthorized)
            } else {
                &&& r == Ok::<(), RegistryError>(())
                &&& *final(neuron) == (Neuron {
                    uid: 0,
                    rank: 0,
                    trust: 0,
                    incentive: 0,
                    validator_trust: 0,
                    is_validator: false,
                    ..n
                })
                &&& *final(subnet) == (Subnet {
                    neuron_count: if s.neuron_count == 0 {
                        0
                    } else {
                        (s.neuron_count - 1) as u16
                    },
                    ..s
                })
            }
        }),
        r is Err ==> *final(subnet) == *old(subnet) && *final(neuron) == *old(neuron),
{
    if neuron.subnet_id != subnet_id || neuron.uid != uid {
        return Err(RegistryError::InvalidNeuron);
    }
    if now <= neuron.immunity_until {
        return Err(RegistryError::NeuronImmune);
    }
    if !same_key(authority, &subnet.governor) && !same_key(authority, consensus_program) {
        return Err(RegistryError::Unauthorized);
    }
    neuron.uid = 0;
    neuron.rank = 0;
    neuron.trust = 0;
    neuron.incentive = 0;
    neuron.validator_trust = 0;
    neuron.is_validator = false;
    subnet.neuron_count = subnet.neuron_count.saturating_sub(1);
    Ok(())
}

/// Applies a partial status update to a neuron on behalf of `authority`,
/// which must be the consensus program or the staking program: each field
/// given is set, each field left out stays. A refused update changes nothing.
pub fn update_neuron_status(
    neuron: &mut Neuron,
    authority: &[u8; 32],
    consensus_program: &[u8; 32],
    staking_program: &[u8; 32],
    rank: Option<u64>,
    trust: Option<u64>,
    incentive: Option<u64>,
    validator_trust: Option<u64>,
    is_validator: Option<bool>,
) -> (r: Result<(), RegistryError>)
    ensures
        ({
            let n = *old(neuron);
            if authority@ != consensus_program@ && authority@ != staking_program@ {
                r == Err::<(), RegistryError>(RegistryError::Unauthorized) && *final(neuron) == n
            } else {
                &&& r == Ok::<(), RegistryError>(())
                &&& *final(neuron) == (Neuron {
                    rank: match rank {
                        Some(v) => v,
                        None => n.rank,
                    },
                    trust: match trust {
                        Some(v) => v,
                        None => n.trust,
                    },
                    incentive: match incentive {
                        Some(v) => v,
                        None => n.incentive,
                    },
                    validator_trust: match validator_trust {
                        Some(v) => v,
                        None => n.validator_trust,
                    },
                    is_validator: match is_validator {
                        Some(v) => v,
                        None => n.is_validator,
                    },
                    ..n
                })
            }
        }),
{
    if !same_key(authority, consensus_program) && !same_key(authority, staking_program) {
        return Err(RegistryError::Unauthorized);
    }
    match rank {
        Some(v) => {
            neuron.rank = v;
        },
        None => {},
    }
    match trust {
        Some(v) => {
            neuron.trust = v;
        },
        None => {},
    }
    match incentive {
        Some(v) => {
            neuron.incentive = v;
        },
        None => {},
    }
    match validator_trust {
        Some(v) => {
            neuron.validator_trust = v;
        },
        None => {},
    }
    match is_validator {
        Some(v) => {
            neuron.is_validator = v;
        },
        None => {},
    }
    Ok(())
}

} // verus!
