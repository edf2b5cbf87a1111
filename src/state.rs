use vstd::prelude::*;
use crate::bytes::{
    bits_of_i64, from_bits, i64_bits, i64_of_bits, le_bytes, le_u16, le_u64, read_hash, read_u16,
    read_u64, write_bytes32, write_le, DecodeError, lemma_le_u16_of_bytes, lemma_le_u64_of_bytes,
};

verus! {

/// Encoded size of a subnet record.
pub const SUBNET_LEN: usize = 86;

/// Encoded size of a neuron record.
pub const NEURON_LEN: usize = 125;

/// Bytes that precede a record in an account of the account framework.
pub const ACCOUNT_DISCRIMINATOR_LEN: usize = 8;

/// A subnet as the registry keeps it. Keys are 32-byte public keys.
#[derive(Debug, Clone, Copy, PartialEq, Eq)]
pub struct Subnet {
    pub id: u16,
    pub governor: [u8; 32],
    pub max_neurons: u8,
    pub validator_limit: u8,
    pub incentive_function_hash: [u8; 32],
    pub emission_rate: u64,
    pub created_at: i64,
    pub neuron_count: u16,
}

/// A registered participant of a subnet.
#[derive(Debug, Clone, Copy, PartialEq, Eq)]
pub struct Neuron {
    pub uid: u16,
    pub subnet_id: u16,
    pub hotkey: [u8; 32],
    pub coldkey: [u8; 32],
    pub stake: u64,
    pub rank: u64,
    pub trust: u64,
    pub incentive: u64,
    pub validator_trust: u64,
    pub is_validator: bool,
    pub immunity_until: i64,
    pub registered_at: i64,
}

/// A neuron as other programs read it from the registry's accounts.
pub type NeuronData = Neuron;

/// A subnet's record: fields in declaration order, integers little-endian.
pub open spec fn subnet_encoding(s: Subnet) -> Seq<u8> {
    le_bytes(s.id as nat, 2) + s.governor@ + seq![s.max_neurons, s.validator_limit]
        + s.incentive_function_hash@ + le_bytes(s.emission_rate as nat, 8) + le_bytes(
        i64_bits(s.created_at),
        8,
    ) + le_bytes(s.neuron_count as nat, 2)
}

/// `s` is the subnet recorded at the start of `d`.
pub open spec fn decodes_subnet(d: Seq<u8>, s: Subnet) -> bool {
    &&& s.id as int == le_u16(d, 0)
    &&& s.governor@ == d.subrange(2, 34)
    &&& s.max_neurons == d[34]
    &&& s.validator_limit == d[35]
    &&& s.incentive_function_hash@ == d.subrange(36, 68)
    &&& s.emission_rate as int == le_u64(d, 68)
    &&& s.created_at as int == from_bits(le_u64(d, 76))
    &&& s.neuron_count as int == le_u16(d, 84)
}

/// A neuron's record: fields in declaration order, integers little-endian,
/// the validator flag as one byte 1 or 0.
pub open spec fn neuron_encoding(n: Neuron) -> Seq<u8> {
    le_bytes(n.uid as nat, 2) + le_bytes(n.subnet_id as nat, 2) + n.hotkey@ + n.coldkey@
        + le_bytes(n.stake as nat, 8) + le_bytes(n.rank as nat, 8) + le_bytes(n.trust as nat, 8)
        + le_bytes(n.incentive as nat, 8) + le_bytes(n.validator_trust as nat, 8) + seq![
        if n.is_validator {
            1u8
        } else {
            0u8
        },
    ] + le_bytes(i64_bits(n.immunity_until), 8) + le_bytes(i64_bits(n.registered_at), 8)
}

/// `n` is the neuron recorded at the start of `d`; any non-zero flag byte
/// reads as a validator.
pub open spec fn decodes_neuron(d: Seq<u8>, n: Neuron) -> bool {
    &&& n.uid as int == le_u16(d, 0)
    &&& n.subnet_id as int == le_u16(d, 2)
    &&& n.hotkey@ == d.subrange(4, 36)
    &&& n.coldkey@ == d.subrange(36, 68)
    &&& n.stake as int == le_u64(d, 68)
    &&& n.rank as int == le_u64(d, 76)
    &&& n.trust as int == le_u64(d, 84)
    &&& n.incentive as int == le_u64(d, 92)
    &&& n.validator_trust as int == le_u64(d, 100)
    &&& n.is_validator == (d[108] != 0)
    &&& n.immunity_until as int == from_bits(le_u64(d, 109))
    &&& n.registered_at as int == from_bits(le_u64(d, 117))
}

proof fn lemma_u16_field(d: Seq<u8>, off: int, x: u16)
    requires
        0 <= off,
        off + 2 <= d.len(),
        d.subrange(off, off + 2) == le_bytes(x as nat, 2),
    ensures
        le_u16(d, off) == x,
{
    let b = le_bytes(x as nat, 2);
    lemma_le_u16_of_bytes(x);
    assert(d[off] == b[0] && d[off + 1] == b[1]) by {
        assert(d.subrange(off, off + 2)[0] == d[off]);
        assert(d.subrange(off, off + 2)[1] == d[off + 1]);
    }
}

proof fn lemma_u64_field(d: Seq<u8>, off: int, v: nat)
    requires
        0 <= off,
        off + 8 <= d.len(),
        v <= u64::MAX,
        d.subrange(off, off + 8) == le_bytes(v, 8),
    ensures
        le_u64(d, off) == v,
{
    let b = le_bytes(v, 8);
    lemma_le_u64_of_bytes(v as u64);
    assert forall|k: int| 0 <= k < 8 implies d[off + k] == b[k] by {
        assert(d.subrange(off, off + 8)[k] == d[off + k]);
    }
}

proof fn lemma_bits_round_trip(x: i64)
    ensures
        i64_bits(x) <= u64::MAX,
        from_bits(i64_bits(x) as int) == x,
{
}

/// Decoding a subnet's record, with anything after it, gives back exactly
/// that subnet.
pub proof fn lemma_subnet_round_trip(s: Subnet, rest: Seq<u8>)
    ensures
        decodes_subnet(subnet_encoding(s) + rest, s),
        forall|t: Subnet| #[trigger] decodes_subnet(subnet_encoding(s) + rest, t) ==> t == s,
{
    let d = subnet_encoding(s) + rest;
    lemma_bits_round_trip(s.created_at);
    assert(d.subrange(0, 2) =~= le_bytes(s.id as nat, 2));
    lemma_u16_field(d, 0, s.id);
    assert(d.subrange(2, 34) =~= s.governor@);
    assert(d.subrange(36, 68) =~= s.incentive_function_hash@);
    assert(d.subrange(68, 76) =~= le_bytes(s.emission_rate as nat, 8));
    lemma_u64_field(d, 68, s.emission_rate as nat);
    assert(d.subrange(76, 84) =~= le_bytes(i64_bits(s.created_at), 8));
    lemma_u64_field(d, 76, i64_bits(s.created_at));
    assert(d.subrange(84, 86) =~= le_bytes(s.neuron_count as nat, 2));
    lemma_u16_field(d, 84, s.neuron_count);
    assert(d[34] == s.max_neurons);
    assert(d[35] == s.validator_limit);
    assert forall|t: Subnet| #[trigger] decodes_subnet(d, t) implies t == s by {
        assert(t.governor =~= s.governor);
        assert(t.incentive_function_hash =~= s.incentive_function_hash);
    }
}

/// Decoding a neuron's record, with anything after it, gives back exactly
/// that neuron.
pub proof fn lemma_neuron_round_trip(n: Neuron, rest: Seq<u8>)
    ensures
        decodes_neuron(neuron_encoding(n) + rest, n),
        forall|t: Neuron| #[trigger] decodes_neuron(neuron_encoding(n) + rest, t) ==> t == n,
{
    let d = neuron_encoding(n) + rest;
    lemma_bits_round_trip(n.immunity_until);
    lemma_bits_round_trip(n.registered_at);
    assert(d.subrange(0, 2) =~= le_bytes(n.uid as nat, 2));
    lemma_u16_field(d, 0, n.uid);
    assert(d.subrange(2, 4) =~= le_bytes(n.subnet_id as nat, 2));
    lemma_u16_field(d, 2, n.subnet_id);
    assert(d.subrange(4, 36) =~= n.hotkey@);
    assert(d.subrange(36, 68) =~= n.coldkey@);
    assert(d.subrange(68, 76) =~= le_bytes(n.stake as nat, 8));
    lemma_u64_field(d, 68, n.stake as nat);
    assert(d.subrange(76, 84) =~= le_bytes(n.rank as nat, 8));
    lemma_u64_field(d, 76, n.rank as nat);
    assert(d.subrange(84, 92) =~= le_bytes(n.trust as nat, 8));
    lemma_u64_field(d, 84, n.trust as nat);
    assert(d.subrange(92, 100) =~= le_bytes(n.incentive as nat, 8));
    lemma_u64_field(d, 92, n.incentive as nat);
    assert(d.subrange(100, 108) =~= le_bytes(n.validator_trust as nat, 8));
    lemma_u64_field(d, 100, n.validator_trust as nat);
    assert(d[108] == if n.is_validator { 1u8 } else { 0u8 });
    assert(d.subrange(109, 117) =~= le_bytes(i64_bits(n.immunity_until), 8));
    lemma_u64_field(d, 109, i64_bits(n.immunity_until));
    assert(d.subrange(117, 125) =~= le_bytes(i64_bits(n.registered_at), 8));
    lemma_u64_field(d, 117, i64_bits(n.registered_at));
    assert forall|t: Neuron| #[trigger] decodes_neuron(d, t) implies t == n by {
        assert(t.hotkey =~= n.hotkey);
        assert(t.coldkey =~= n.coldkey);
    }
}

impl Subnet {
    /// Writes the record at the start of `data`, which must hold
    /// `SUBNET_LEN` bytes; the bytes after it are left alone.
    pub fn serialize(&self, data: &mut [u8]) -> (r: Result<(), DecodeError>)
        ensures
            r is Err <==> old(data)@.len() < SUBNET_LEN,
            r is Err ==> r == Err::<(), DecodeError>(DecodeError::InvalidAccountData) 
                && final(data)@ == old(data)@,
            r is Ok ==> final(data)@ == subnet_encoding(*self) + old(data)@.skip(
                SUBNET_LEN as int,
            ),
    {
        if data.len() < SUBNET_LEN {
            return Err(DecodeError::InvalidAccountData);
        }
        let ghost start = data@;
        let ghost mut done: Seq<u8> = Seq::empty();
        write_le(data, 0, self.id as u64, 2);
        proof {
            done = le_bytes(self.id as nat, 2);
            assert(data@ =~= done + start.skip(2));
        }
        write_bytes32(data, 2, &self.governor);
        proof {
            done = done + self.governor@;
            assert(data@ =~= done + start.skip(34));
        }
        data[34] = self.max_neurons;
        data[35] = self.validator_limit;
        proof {
            done = done + seq![self.max_neurons, self.validator_limit];
            assert(data@ =~= done + start.skip(36));
        }
        write_bytes32(data, 36, &self.incentive_function_hash);
        proof {
            done = done + self.incentive_function_hash@;
            assert(data@ =~= done + start.skip(68));
        }
        write_le(data, 68, self.emission_rate, 8);
        proof {
            done = done + le_bytes(self.emission_rate as nat, 8);
            assert(data@ =~= done + start.skip(76));
        }
        write_le(data, 76, bits_of_i64(self.created_at), 8);
        proof {
            done = done + le_bytes(i64_bits(self.created_at), 8);
            assert(data@ =~= done + start.skip(84));
        }
        write_le(data, 84, self.neuron_count as u64, 2);
        proof {
            done = done + le_bytes(self.neuron_count as nat, 2);
            assert(data@ =~= done + start.skip(86));
            assert(done =~= subnet_encoding(*self));
        }
        Ok(())
    }

    /// Reads the record at the start of `data`.
    pub fn deserialize(data: &[u8]) -> (r: Result<Subnet, DecodeError>)
        ensures
            r is Err <==> data@.len() < SUBNET_LEN,
            r is Err ==> r == Err::<Subnet, DecodeError>(DecodeError::InvalidAccountData),
            r matches Ok(s) ==> decodes_subnet(data@, s),
    {
        if data.len() < SUBNET_LEN {
            return Err(DecodeError::InvalidAccountData);
        }
        let created = read_u64(data, 76);
        Ok(
            Subnet {
                id: read_u16(data, 0),
                governor: read_hash(data, 2),
                max_neurons: data[34],
                validator_limit: data[35],
                incentive_function_hash: read_hash(data, 36),
                emission_rate: read_u64(data, 68),
                created_at: i64_of_bits(created),
                neuron_count: read_u16(data, 84),
            },
        )
    }
}

impl Neuron {
    /// Writes the record at the start of `data`, which must hold
    /// `NEURON_LEN` bytes; the bytes after it are left alone.
    pub fn serialize(&self, data: &mut [u8]) -> (r: Result<(), DecodeError>)
        ensures
            r is Err <==> old(data)@.len() < NEURON_LEN,
            r is Err ==> r == Err::<(), DecodeError>(DecodeError::InvalidAccountData) 
                && final(data)@ == old(data)@,
            r is Ok ==> final(data)@ == neuron_encoding(*self) + old(data)@.skip(
                NEURON_LEN as int,
            ),
    {
        if data.len() < NEURON_LEN {
            return Err(DecodeError::InvalidAccountData);
        }
        let ghost start = data@;
        let ghost mut done: Seq<u8> = Seq::empty();
        write_le(data, 0, self.uid as u64, 2);
        write_le(data, 2, self.subnet_id as u64, 2);
        proof {
            done = le_bytes(self.uid as nat, 2) + le_bytes(self.subnet_id as nat, 2);
            assert(data@ =~= done + start.skip(4));
        }
        write_bytes32(data, 4, &self.hotkey);
        write_bytes32(data, 36, &self.coldkey);
        proof {
            done = done + self.hotkey@ + self.coldkey@;
            assert(data@ =~= done + start.skip(68));
        }
        write_le(data, 68, self.stake, 8);
        write_le(data, 76, self.rank, 8);
        proof {
            done = done + le_bytes(self.stake as nat, 8) + le_bytes(self.rank as nat, 8);
            assert(data@ =~= done + start.skip(84));
        }
        write_le(data, 84, self.trust, 8);
        write_le(data, 92, self.incentive, 8);
        proof {
            done = done + le_bytes(self.trust as nat, 8) + le_bytes(self.incentive as nat, 8);
            assert(data@ =~= done + start.skip(100));
        }
        write_le(data, 100, self.validator_trust, 8);
        data[108] = if self.is_validator {
            1
        } else {
            0
        };
        proof {
            done = done + le_bytes(self.validator_trust as nat, 8) + seq![
                if self.is_validator {
                    1u8
                } else {
                    0u8
                },
            ];
            assert(data@ =~= done + start.skip(109));
        }
        write_le(data, 109, bits_of_i64(self.immunity_until), 8);
        write_le(data, 117, bits_of_i64(self.registered_at), 8);
        proof {
            done = done + le_bytes(i64_bits(self.immunity_until), 8) + le_bytes(
                i64_bits(self.registered_at),
                8,
            );
            assert(data@ =~= done + start.skip(125));
            assert(done =~= neuron_encoding(*self));
        }
        Ok(())
    }

    /// Reads the record at the start of `data`.
    pub fn deserialize(data: &[u8]) -> (r: Result<Neuron, DecodeError>)
        ensures
            r is Err <==> data@.len() < NEURON_LEN,
            r is Err ==> r == Err::<Neuron, DecodeError>(DecodeError::InvalidAccountData),
            r matches Ok(n) ==> decodes_neuron(data@, n),
    {
        if data.len() < NEURON_LEN {
            return Err(DecodeError::InvalidAccountData);
        }
        let n = decode_neuron_at(data, 0);
        assert(data@.skip(0) =~= data@);
        Ok(n)
    }

    /// Reads a neuron from the data of an account that stores it after an
    /// account discriminator of `ACCOUNT_DISCRIMINATOR_LEN` bytes.
    pub fn from_account_info(data: &[u8]) -> (r: Result<NeuronData, DecodeError>)
        ensures
            r is Err <==> data@.len() < ACCOUNT_DISCRIMINATOR_LEN + NEURON_LEN,
            r is Err ==> r == Err::<Neuron, DecodeError>(DecodeError::InvalidAccountData),
            r matches Ok(n) ==> decodes_neuron(data@.skip(ACCOUNT_DISCRIMINATOR_LEN as int), n),
    {
        if data.len() < ACCOUNT_DISCRIMINATOR_LEN + NEURON_LEN {
            return Err(DecodeError::InvalidAccountData);
        }
        Ok(decode_neuron_at(data, ACCOUNT_DISCRIMINATOR_LEN))
    }
}

/// The neuron recorded in `data` from `base` on.
fn decode_neuron_at(data: &[u8], base: usize) -> (r: Neuron)
    requires
        base <= ACCOUNT_DISCRIMINATOR_LEN,
        base + NEURON_LEN <= data@.len(),
    ensures
        decodes_neuron(data@.skip(base as int), r),
{
    let ghost d = data@.skip(base as int);
    let immunity = read_u64(data, base + 109);
    let registered = read_u64(data, base + 117);
    let hotkey = read_hash(data, base + 4);
    let coldkey = read_hash(data, base + 36);
    let r = Neuron {
        uid: read_u16(data, base),
        subnet_id: read_u16(data, base + 2),
        hotkey,
        coldkey,
        stake: read_u64(data, base + 68),
        rank: read_u64(data, base + 76),
        trust: read_u64(data, base + 84),
        incentive: read_u64(data, base + 92),
        validator_trust: read_u64(data, base + 100),
        is_validator: data[base + 108] != 0,
        immunity_until: i64_of_bits(immunity),
        registered_at: i64_of_bits(registered),
    };
    assert(hotkey@ =~= d.subrange(4, 36));
    assert(coldkey@ =~= d.subrange(36, 68));
    r
}

} // verus!
