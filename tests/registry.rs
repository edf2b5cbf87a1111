use poi_core::bytes::DecodeError;
use poi_core::registry::{
    create_subnet, prune_neuron, register_neuron, same_key, update_neuron_status,
    update_subnet_config, RegistryError, IMMUNITY_PERIOD,
};
use poi_core::state::{Neuron, NeuronData, Subnet, NEURON_LEN, SUBNET_LEN};

fn key(b: u8) -> [u8; 32] {
    [b; 32]
}

fn sample_subnet() -> Subnet {
    Subnet {
        id: 0x0102,
        governor: key(7),
        max_neurons: 3,
        validator_limit: 2,
        incentive_function_hash: key(9),
        emission_rate: 0x1122_3344_5566_7788,
        created_at: -5,
        neuron_count: 1,
    }
}

fn sample_neuron() -> Neuron {
    Neuron {
        uid: 4,
        subnet_id: 0x0102,
        hotkey: key(1),
        coldkey: key(2),
        stake: 10,
        rank: 11,
        trust: 12,
        incentive: 13,
        validator_trust: 14,
        is_validator: true,
        immunity_until: 1000,
        registered_at: i64::MIN,
    }
}

#[test]
fn subnet_record_layout_and_round_trip() {
    let s = sample_subnet();
    let mut data = vec![0xAAu8; SUBNET_LEN + 3];
    assert_eq!(s.serialize(&mut data), Ok(()));
    assert_eq!(&data[0..2], &[0x02, 0x01]);
    assert_eq!(&data[2..34], &key(7));
    assert_eq!((data[34], data[35]), (3, 2));
    assert_eq!(&data[68..76], &0x1122_3344_5566_7788u64.to_le_bytes());
    assert_eq!(&data[76..84], &(-5i64).to_le_bytes());
    assert_eq!(&data[84..86], &[1, 0]);
    assert_eq!(&data[86..], &[0xAA, 0xAA, 0xAA]);
    assert_eq!(Subnet::deserialize(&data), Ok(s));
}

#[test]
fn subnet_record_too_short() {
    let mut data = vec![0u8; SUBNET_LEN - 1];
    assert_eq!(sample_subnet().serialize(&mut data), Err(DecodeError::InvalidAccountData));
    assert!(data.iter().all(|b| *b == 0));
    assert_eq!(Subnet::deserialize(&data), Err(DecodeError::InvalidAccountData));
}

#[test]
fn neuron_record_layout_and_round_trip() {
    let n = sample_neuron();
    let mut data = vec![0u8; NEURON_LEN];
    assert_eq!(n.serialize(&mut data), Ok(()));
    assert_eq!(data[108], 1);
    assert_eq!(&data[109..117], &1000i64.to_le_bytes());
    assert_eq!(&data[117..125], &i64::MIN.to_le_bytes());
    assert_eq!(Neuron::deserialize(&data), Ok(n));
    assert_eq!(Neuron::deserialize(&data[..NEURON_LEN - 1]), Err(DecodeError::InvalidAccountData));
}

#[test]
fn neuron_flag_byte_reads_any_nonzero_as_validator() {
    let mut data = vec![0u8; NEURON_LEN];
    data[108] = 5;
    assert!(Neuron::deserialize(&data).unwrap().is_validator);
}

#[test]
fn neuron_data_skips_the_discriminator() {
    let n = sample_neuron();
    let mut data = vec![0xEEu8; 8 + NEURON_LEN];
    assert_eq!(n.serialize(&mut data[8..]), Ok(()));
    assert_eq!(NeuronData::from_account_info(&data), Ok(n));
    assert_eq!(NeuronData::from_account_info(&data[..8 + NEURON_LEN - 1]), Err(DecodeError::InvalidAccountData));
}

#[test]
fn keys_compare_bytewise() {
    assert!(same_key(&key(3), &key(3)));
    let mut k = key(3);
    k[31] = 4;
    assert!(!same_key(&key(3), &k));
}

#[test]
fn create_subnet_checks_validator_limit() {
    assert_eq!(create_subnet(1, key(7), 3, 4, 10, key(9), 100), Err(RegistryError::InvalidValidatorLimit));
    let s = create_subnet(1, key(7), 3, 3, 10, key(9), 100).unwrap();
    assert_eq!(s.neuron_count, 0);
    assert_eq!((s.id, s.max_neurons, s.validator_limit, s.emission_rate, s.created_at), (1, 3, 3, 10, 100));
}

#[test]
fn register_neuron_assigns_next_uid() {
    let mut s = sample_subnet();
    let n = register_neuron(&mut s, 0x0102, None, key(1), key(2), 500).unwrap();
    assert_eq!(n.uid, 2);
    assert_eq!(n.immunity_until, 500 + IMMUNITY_PERIOD);
    assert_eq!(n.registered_at, 500);
    assert_eq!((n.stake, n.rank, n.trust, n.is_validator), (0, 0, 0, false));
    assert_eq!(s.neuron_count, 2);
    let free = Neuron { uid: 0, ..sample_neuron() };
    assert_eq!(register_neuron(&mut s, 0x0102, Some(free), key(3), key(4), 600).unwrap().uid, 3);
    assert_eq!(s.neuron_count, 3);
}

#[test]
fn register_neuron_refusals_leave_subnet_alone() {
    let mut s = sample_subnet();
    assert_eq!(register_neuron(&mut s, 9, None, key(1), key(2), 0), Err(RegistryError::InvalidSubnet));
    assert_eq!(
        register_neuron(&mut s, 0x0102, Some(sample_neuron()), key(1), key(2), 0),
        Err(RegistryError::NeuronAlreadyRegistered)
    );
    assert_eq!(s, sample_subnet());
    s.neuron_count = 3;
    assert_eq!(register_neuron(&mut s, 0x0102, None, key(1), key(2), 0), Err(RegistryError::SubnetFull));
    assert_eq!(s.neuron_count, 3);
}

#[test]
fn update_subnet_config_patches_given_fields() {
    let mut s = sample_subnet();
    assert_eq!(update_subnet_config(&mut s, &key(7), Some(10), Some(6), None, Some(key(1))), Ok(()));
    assert_eq!((s.max_neurons, s.validator_limit, s.emission_rate), (10, 6, 0x1122_3344_5566_7788));
    assert_eq!(s.incentive_function_hash, key(1));
    assert_eq!(update_subnet_config(&mut s, &key(7), None, None, Some(3), None), Ok(()));
    assert_eq!((s.max_neurons, s.validator_limit, s.emission_rate), (10, 6, 3));
}

#[test]
fn update_subnet_config_refusals() {
    let mut s = sample_subnet();
    assert_eq!(update_subnet_config(&mut s, &key(8), Some(10), None, None, None), Err(RegistryError::Unauthorized));
    s.neuron_count = 2;
    assert_eq!(update_subnet_config(&mut s, &key(7), Some(1), None, None, None), Err(RegistryError::InvalidMaxNeurons));
    // The limit is checked against the new neuron limit, and nothing is applied.
    assert_eq!(
        update_subnet_config(&mut s, &key(7), Some(4), Some(5), Some(1), None),
        Err(RegistryError::InvalidValidatorLimit)
    );
    assert_eq!(s, Subnet { neuron_count: 2, ..sample_subnet() });
}

#[test]
fn prune_neuron_clears_scores_and_counts_down() {
    let mut s = sample_subnet();
    let mut n = sample_neuron();
    assert_eq!(prune_neuron(&mut s, &mut n, 0x0102, 4, &key(50), &key(50), 1001), Ok(()));
    assert_eq!((n.uid, n.rank, n.trust, n.incentive, n.validator_trust, n.is_validator), (0, 0, 0, 0, 0, false));
    assert_eq!((n.stake, n.hotkey), (10, key(1)));
    assert_eq!(s.neuron_count, 0);
    let mut n2 = Neuron { uid: 5, ..sample_neuron() };
    assert_eq!(prune_neuron(&mut s, &mut n2, 0x0102, 5, &key(7), &key(50), 2000), Ok(()));
    assert_eq!(s.neuron_count, 0);
}

#[test]
fn prune_neuron_refusals() {
    let mut s = sample_subnet();
    let mut n = sample_neuron();
    assert_eq!(prune_neuron(&mut s, &mut n, 0x0102, 5, &key(7), &key(50), 2000), Err(RegistryError::InvalidNeuron));
    assert_eq!(prune_neuron(&mut s, &mut n, 0x0102, 4, &key(7), &key(50), 1000), Err(RegistryError::NeuronImmune));
    assert_eq!(prune_neuron(&mut s, &mut n, 0x0102, 4, &key(8), &key(50), 2000), Err(RegistryError::Unauthorized));
    assert_eq!(n, sample_neuron());
    assert_eq!(s, sample_subnet());
}

#[test]
fn update_neuron_status_requires_a_known_program() {
    let mut n = sample_neuron();
    assert_eq!(
        update_neuron_status(&mut n, &key(1), &key(2), &key(3), Some(1), None, None, None, None),
        Err(RegistryError::Unauthorized)
    );
    assert_eq!(n, sample_neuron());
    assert_eq!(
        update_neuron_status(&mut n, &key(3), &key(2), &key(3), Some(1), None, Some(99), None, Some(false)),
        Ok(())
    );
    assert_eq!((n.rank, n.trust, n.incentive, n.validator_trust, n.is_validator), (1, 12, 99, 14, false));
}

#[test]
fn registry_error_codes_follow_declaration_order() {
    assert_eq!(RegistryError::InvalidMaxNeurons.code(), 0);
    assert_eq!(RegistryError::InvalidSubnet.code(), 4);
    assert_eq!(RegistryError::NeuronImmune.code(), 7);
}
