use vstd::prelude::*;
use crate::bytes::{le_u16, le_u64, read_hash, read_u16, read_u64, DecodeError};

verus! {

/// An instruction to the subnet registry, decoded from its byte encoding.
#[derive(Debug, Clone, PartialEq, Eq)]
pub enum RegistryInstruction {
    CreateSubnet {
        subnet_id: u16,
        max_neurons: u8,
        validator_limit: u8,
        emission_rate: u64,
        incentive_function_hash: [u8; 32],
    },
    RegisterNeuron { subnet_id: u16 },
    UpdateSubnetConfig {
        max_neurons: Option<u8>,
        validator_limit: Option<u8>,
        emission_rate: Option<u64>,
        incentive_function_hash: Option<[u8; 32]>,
    },
    PruneNeuron { subnet_id: u16, uid: u16 },
    UpdateNeuronStatus {
        rank: Option<u64>,
        trust: Option<u64>,
        incentive: Option<u64>,
        validator_trust: Option<u64>,
        is_validator: Option<bool>,
    },
}

/// An optional byte field at `off`: present when the byte is there and not
/// zero, and then the byte itself is the value. It always takes one byte.
pub open spec fn opt_u8_at(b: Seq<u8>, off: int) -> Option<u8> {
    if b.len() > off && b[off] != 0 {
        Some(b[off])
    } else {
        None
    }
}

/// An optional `u64` field at `off`: a non-zero flag byte followed by eight
/// bytes, present only when all nine are there.
pub open spec fn opt_u64_at(b: Seq<u8>, off: int) -> Option<u64> {
    if b.len() > off + 8 && b[off] != 0 {
        Some(le_u64(b, off + 1) as u64)
    } else {
        None
    }
}

/// Where the field after an optional `u64` field at `off` starts.
pub open spec fn after_u64(b: Seq<u8>, off: int) -> int {
    if opt_u64_at(b, off) is Some {
        off + 9
    } else {
        off + 1
    }
}

/// An optional 32-byte hash at `off`: a non-zero flag byte followed by the
/// hash, present only when all 33 bytes are there.
pub open spec fn opt_hash_at(b: Seq<u8>, off: int) -> Option<Seq<u8>> {
    if b.len() > off + 32 && b[off] != 0 {
        Some(b.subrange(off + 1, off + 33))
    } else {
        None
    }
}

/// An optional flag at `off`: present (and true) when the byte is there and
/// not zero.
pub open spec fn opt_flag_at(b: Seq<u8>, off: int) -> Option<bool> {
    if b.len() > off && b[off] != 0 {
        Some(true)
    } else {
        None
    }
}

/// An optional hash as decoded agrees with the bytes.
pub open spec fn hash_matches(h: Option<[u8; 32]>, s: Option<Seq<u8>>) -> bool {
    match (h, s) {
        (Some(h), Some(s)) => h@ == s,
        (None, None) => true,
        _ => false,
    }
}

/// The bytes cannot be decoded: empty, an unknown tag, or too short for the
/// fixed fields of their tag.
pub open spec fn undecodable(data: Seq<u8>) -> bool {
    let n = data.len() - 1;
    ||| data.len() == 0
    ||| data[0] > 4
    ||| data[0] == 0 && n < 44
    ||| data[0] == 1 && n < 2
    ||| data[0] == 3 && n < 4
}

/// `ins` is what the bytes encode: a tag byte, then the instruction's fields.
pub open spec fn decodes_to(data: Seq<u8>, ins: RegistryInstruction) -> bool {
    let rest = data.skip(1);
    data.len() > 0 && match ins {
        RegistryInstruction::CreateSubnet {
            subnet_id,
            max_neurons,
            validator_limit,
            emission_rate,
            incentive_function_hash,
        } => {
            &&& data[0] == 0
            &&& rest.len() >= 44
            &&& subnet_id as int == le_u16(rest, 0)
            &&& max_neurons == rest[2]
            &&& validator_limit == rest[3]
            &&& emission_rate as int == le_u64(rest, 4)
            &&& incentive_function_hash@ == rest.subrange(12, 44)
        },
        RegistryInstruction::RegisterNeuron { subnet_id } => {
            &&& data[0] == 1
            &&& rest.len() >= 2
            &&& subnet_id as int == le_u16(rest, 0)
        },
        RegistryInstruction::UpdateSubnetConfig {
            max_neurons,
            validator_limit,
            emission_rate,
            incentive_function_hash,
        } => {
            &&& data[0] == 2
            &&& max_neurons == opt_u8_at(rest, 0)
            &&& validator_limit == opt_u8_at(rest, 1)
            &&& emission_rate == opt_u64_at(rest, 2)
            &&& hash_matches(incentive_function_hash, opt_hash_at(rest, after_u64(rest, 2)))
        },
        RegistryInstruction::PruneNeuron { subnet_id, uid } => {
            &&& data[0] == 3
            &&& rest.len() >= 4
            &&& subnet_id as int == le_u16(rest, 0)
            &&& uid as int == le_u16(rest, 2)
        },
        RegistryInstruction::UpdateNeuronStatus {
            rank,
            trust,
            incentive,
            validator_trust,
            is_validator,
        } => {
            let o1 = after_u64(rest, 0);
            let o2 = after_u64(rest, o1);
            let o3 = after_u64(rest, o2);
            let o4 = after_u64(rest, o3);
            &&& data[0] == 4
            &&& rank == opt_u64_at(rest, 0)
            &&& trust == opt_u64_at(rest, o1)
            &&& incentive == opt_u64_at(rest, o2)
            &&& validator_trust == opt_u64_at(rest, o3)
            &&& is_validator == opt_flag_at(rest, o4)
        },
    }
}

/// Optional byte field of `data` at `off`; returns it and the next offset.
fn take_opt_u8(data: &[u8], off: usize) -> (r: (Option<u8>, usize))
    requires
        off < 64,
    ensures
        r.0 == opt_u8_at(data@, off as int),
        r.1 == off + 1,
{
    if data.len() > off && data[off] != 0 {
        (Some(data[off]), off + 1)
    } else {
        (None, off + 1)
    }
}

/// Optional `u64` field of `data` at `off`; returns it and the next offset.
fn take_opt_u64(data: &[u8], off: usize) -> (r: (Option<u64>, usize))
    requires
        off < 64,
    ensures
        r.0 == opt_u64_at(data@, off as int),
        r.1 == after_u64(data@, off as int),
{
    if data.len() > off + 8 && data[off] != 0 {
        let v = read_u64(data, off + 1);
        (Some(v), off + 9)
    } else {
        (None, off + 1)
    }
}

proof fn lemma_u64_field_shift(data: Seq<u8>, off: int)
    requires
        data.len() > 0,
        0 <= off,
    ensures
        opt_u64_at(data.skip(1), off) == opt_u64_at(data, off + 1),
        after_u64(data.skip(1), off) + 1 == after_u64(data, off + 1),
{
    let rest = data.skip(1);
    if rest.len() > off + 8 {
        assert(le_u64(rest, off + 1) == le_u64(data, off + 2));
    }
}

fn decode_create_subnet(data: &[u8]) -> (r: RegistryInstruction)
    requires
        data@.len() >= 45,
        data@[0] == 0,
    ensures
        decodes_to(data@, r),
{
    let ghost rest = data@.skip(1);
    let subnet_id = read_u16(data, 1);
    let emission_rate = read_u64(data, 5);
    let hash = read_hash(data, 13);
    assert(hash@ =~= rest.subrange(12, 44));
    RegistryInstruction::CreateSubnet {
        subnet_id,
        max_neurons: data[3],
        validator_limit: data[4],
        emission_rate,
        incentive_function_hash: hash,
    }
}

fn decode_update_subnet_config(data: &[u8]) -> (r: RegistryInstruction)
    requires
        data@.len() > 0,
        data@[0] == 2,
    ensures
        decodes_to(data@, r),
{
    let ghost rest = data@.skip(1);
    let (max_neurons, off) = take_opt_u8(data, 1);
    let (validator_limit, off) = take_opt_u8(data, off);
    let (emission_rate, off) = take_opt_u64(data, off);
    let incentive_function_hash = if data.len() > off + 32 && data[off] != 0 {
        let h = read_hash(data, off + 1);
        assert(h@ =~= rest.subrange(off - 1 + 1, off - 1 + 33));
        Some(h)
    } else {
        None
    };
    assert(opt_u8_at(rest, 0) == opt_u8_at(data@, 1));
    assert(opt_u8_at(rest, 1) == opt_u8_at(data@, 2));
    proof {
        lemma_u64_field_shift(data@, 2);
    }
    RegistryInstruction::UpdateSubnetConfig {
        max_neurons,
        validator_limit,
        emission_rate,
        incentive_function_hash,
    }
}

fn decode_update_neuron_status(data: &[u8]) -> (r: RegistryInstruction)
    requires
        data@.len() > 0,
        data@[0] == 4,
    ensures
        decodes_to(data@, r),
{
    let ghost rest = data@.skip(1);
    let (rank, o1) = take_opt_u64(data, 1);
    let (trust, o2) = take_opt_u64(data, o1);
    let (incentive, o3) = take_opt_u64(data, o2);
    let (validator_trust, o4) = take_opt_u64(data, o3);
    let is_validator = if data.len() > o4 && data[o4] != 0 {
        Some(data[o4] != 0)
    } else {
        None
    };
    proof {
        let r1 = after_u64(rest, 0);
        let r2 = after_u64(rest, r1);
        let r3 = after_u64(rest, r2);
        lemma_u64_field_shift(data@, 0);
        lemma_u64_field_shift(data@, r1);
        lemma_u64_field_shift(data@, r2);
        lemma_u64_field_shift(data@, r3);
    }
    RegistryInstruction::UpdateNeuronStatus { rank, trust, incentive, validator_trust, is_validator }
}

impl RegistryInstruction {
    /// Decodes an instruction: a tag byte (0 create subnet, 1 register
    /// neuron, 2 update subnet config, 3 prune neuron, 4 update neuron status)
    /// followed by its fields, integers little-endian. Optional fields are a
    /// flag byte and the value; a field whose bytes are cut short is absent.
    pub fn try_from_slice(data: &[u8]) -> (r: Result<RegistryInstruction, DecodeError>)
        ensures
            r is Err <==> undecodable(data@),
            r is Err ==> r == Err::<RegistryInstruction, DecodeError>(
                DecodeError::InvalidInstructionData,
            ),
            r matches Ok(ins) ==> decodes_to(data@, ins),
    {
        if data.len() == 0 {
            return Err(DecodeError::InvalidInstructionData);
        }
        let n = data.len() - 1;
        let tag = data[0];
        if tag == 0 {
            if n < 44 {
                return Err(DecodeError::InvalidInstructionData);
            }
            Ok(decode_create_subnet(data))
        } else if tag == 1 {
            if n < 2 {
                return Err(DecodeError::InvalidInstructionData);
            }
            let subnet_id = read_u16(data, 1);
            Ok(RegistryInstruction::RegisterNeuron { subnet_id })
        } else if tag == 2 {
            Ok(decode_update_subnet_config(data))
        } else if tag == 3 {
            if n < 4 {
                return Err(DecodeError::InvalidInstructionData);
            }
            let subnet_id = read_u16(data, 1);
            let uid = read_u16(data, 3);
            Ok(RegistryInstruction::PruneNeuron { subnet_id, uid })
        } else if tag == 4 {
            Ok(decode_update_neuron_status(data))
        } else {
            Err(DecodeError::InvalidInstructionData)
        }
    }
}

} // verus!
