use poi_core::bytes::DecodeError;
use poi_core::instruction::RegistryInstruction;

fn hash_bytes() -> [u8; 32] {
    let mut h = [0u8; 32];
    for (k, b) in h.iter_mut().enumerate() {
        *b = k as u8 + 1;
    }
    h
}

#[test]
fn empty_and_unknown_tags_are_rejected() {
    assert_eq!(RegistryInstruction::try_from_slice(&[]), Err(DecodeError::InvalidInstructionData));
    assert_eq!(RegistryInstruction::try_from_slice(&[5]), Err(DecodeError::InvalidInstructionData));
    assert_eq!(RegistryInstruction::try_from_slice(&[255, 0, 0]), Err(DecodeError::InvalidInstructionData));
}

#[test]
fn create_subnet_decodes_all_fields() {
    let mut data = vec![0u8, 0x34, 0x12, 64, 8];
    data.extend_from_slice(&0x0102_0304_0506_0708u64.to_le_bytes());
    data.extend_from_slice(&hash_bytes());
    assert_eq!(
        RegistryInstruction::try_from_slice(&data),
        Ok(RegistryInstruction::CreateSubnet {
            subnet_id: 0x1234,
            max_neurons: 64,
            validator_limit: 8,
            emission_rate: 0x0102_0304_0506_0708,
            incentive_function_hash: hash_bytes(),
        })
    );
    data.pop();
    assert_eq!(RegistryInstruction::try_from_slice(&data), Err(DecodeError::InvalidInstructionData));
}

#[test]
fn register_and_prune_decode_uids() {
    assert_eq!(
        RegistryInstruction::try_from_slice(&[1, 7, 1]),
        Ok(RegistryInstruction::RegisterNeuron { subnet_id: 263 })
    );
    assert_eq!(RegistryInstruction::try_from_slice(&[1, 7]), Err(DecodeError::InvalidInstructionData));
    assert_eq!(
        RegistryInstruction::try_from_slice(&[3, 2, 0, 0xff, 0xff, 9]),
        Ok(RegistryInstruction::PruneNeuron { subnet_id: 2, uid: 0xffff })
    );
    assert_eq!(RegistryInstruction::try_from_slice(&[3, 2, 0, 0xff]), Err(DecodeError::InvalidInstructionData));
}

#[test]
fn update_subnet_config_reads_present_fields() {
    let mut data = vec![2u8, 10, 0, 1];
    data.extend_from_slice(&500u64.to_le_bytes());
    data.push(1);
    data.extend_from_slice(&hash_bytes());
    assert_eq!(
        RegistryInstruction::try_from_slice(&data),
        Ok(RegistryInstruction::UpdateSubnetConfig {
            max_neurons: Some(10),
            validator_limit: None,
            emission_rate: Some(500),
            incentive_function_hash: Some(hash_bytes()),
        })
    );
}

#[test]
fn update_subnet_config_with_no_fields_or_short_fields() {
    assert_eq!(
        RegistryInstruction::try_from_slice(&[2]),
        Ok(RegistryInstruction::UpdateSubnetConfig {
            max_neurons: None,
            validator_limit: None,
            emission_rate: None,
            incentive_function_hash: None,
        })
    );
    // The rate's flag is set but only three of its eight bytes follow.
    assert_eq!(
        RegistryInstruction::try_from_slice(&[2, 0, 4, 1, 9, 9, 9]),
        Ok(RegistryInstruction::UpdateSubnetConfig {
            max_neurons: None,
            validator_limit: Some(4),
            emission_rate: None,
            incentive_function_hash: None,
        })
    );
}

#[test]
fn update_neuron_status_reads_fields_in_sequence() {
    let mut data = vec![4u8, 0, 1];
    data.extend_from_slice(&77u64.to_le_bytes());
    data.push(0);
    data.push(1);
    data.extend_from_slice(&u64::MAX.to_le_bytes());
    data.push(2);
    assert_eq!(
        RegistryInstruction::try_from_slice(&data),
        Ok(RegistryInstruction::UpdateNeuronStatus {
            rank: None,
            trust: Some(77),
            incentive: None,
            validator_trust: Some(u64::MAX),
            is_validator: Some(true),
        })
    );
    assert_eq!(
        RegistryInstruction::try_from_slice(&[4, 0, 0, 0, 0, 0]),
        Ok(RegistryInstruction::UpdateNeuronStatus {
            rank: None,
            trust: None,
            incentive: None,
            validator_trust: None,
            is_validator: None,
        })
    );
}
