use std::collections::HashSet;

use plonky2x_witness::builder::CircuitBuilder;
use plonky2x_witness::bytes::u256_to_be_bytes;
use plonky2x_witness::storage::{
    get_map_storage_location, select_log, EthLogGenerator, EthStorageKeyGenerator,
    EthStorageProofHint, GeneratorError, ReceiptLog,
};
use plonky2x_witness::stream::ValueStream;
use plonky2x_witness::target::{read_target_vec, write_target_vec, Target};
use plonky2x_witness::vars::{Bytes32Variable, U256Variable, ETH_LOG_TARGETS};
use plonky2x_witness::witness::PartitionWitness;
use sha2::Digest;

fn bytes32(b: &mut CircuitBuilder) -> Bytes32Variable {
    Bytes32Variable { targets: b.add_virtual_targets(32) }
}

fn u256(b: &mut CircuitBuilder) -> U256Variable {
    U256Variable { targets: b.add_virtual_targets(8) }
}

fn set(w: &mut PartitionWitness, ts: &[Target], vals: &[u64]) {
    for (t, v) in ts.iter().zip(vals) {
        if let Target::VirtualTarget { index } = t {
            if w.values.len() <= *index {
                w.values.resize(*index + 1, None);
            }
            w.values[*index] = Some(*v);
        }
    }
}

fn slot_word(slot: u64) -> Vec<u8> {
    let mut w = vec![0u8; 24];
    w.extend_from_slice(&slot.to_be_bytes());
    w
}

fn log(address: u8, topics: usize, data: &[u8]) -> ReceiptLog {
    ReceiptLog {
        address: vec![address; 20],
        topics: (0..topics).map(|i| vec![address + i as u8; 32]).collect(),
        data: data.to_vec(),
    }
}

#[test]
fn generator_ids() {
    assert_eq!(EthStorageKeyGenerator::id(), "EthStorageKeyGenerator");
    assert_eq!(EthLogGenerator::id(), "EthLogGenerator");
}

#[test]
fn map_storage_location_is_keccak_of_key_and_slot() {
    let key = vec![7u8; 32];
    let slot = vec![3u32, 0, 0, 0, 0, 0, 0, 0];
    let mut pre = key.clone();
    pre.extend(slot_word(3));
    let expected = ethers::utils::keccak256(&pre).to_vec();
    assert_eq!(get_map_storage_location(&slot, &key), expected);
    assert_eq!(get_map_storage_location(&slot, &key), get_map_storage_location(&slot, &key));
    assert_ne!(get_map_storage_location(&slot, &key), pre[..32].to_vec());
}

#[test]
fn storage_key_generator_writes_location() {
    let mut b = CircuitBuilder::new(1);
    let slot = u256(&mut b);
    let key = bytes32(&mut b);
    let g = EthStorageKeyGenerator::new(&mut b, slot.clone(), key.clone());
    let mut deps = slot.targets.clone();
    deps.extend(key.targets.iter().copied());
    assert_eq!(g.dependencies(), deps);

    let mut w = PartitionWitness { values: Vec::new() };
    set(&mut w, &slot.targets, &[5, 0, 0, 0, 0, 0, 0, 0]);
    set(&mut w, &key.targets, &[9u64; 32]);
    let out = g.run_once(&w).unwrap();
    let mut pre = vec![9u8; 32];
    pre.extend(slot_word(5));
    let expected = ethers::utils::keccak256(&pre);
    assert_eq!(out.len(), 32);
    for (i, (t, v)) in out.iter().enumerate() {
        assert_eq!(*t, g.value.targets[i]);
        assert_eq!(*v, expected[i] as u64);
    }
    assert_eq!(g.run_once(&w).unwrap(), out);
}

#[test]
fn storage_key_generator_errors() {
    let mut b = CircuitBuilder::new(1);
    let slot = u256(&mut b);
    let key = bytes32(&mut b);
    let g = EthStorageKeyGenerator::new(&mut b, slot.clone(), key.clone());
    let mut w = PartitionWitness { values: Vec::new() };
    assert_eq!(g.run_once(&w), Err(GeneratorError::MissingValue));
    set(&mut w, &slot.targets, &[0, 0, 0, 0, 1, 0, 0, 0]);
    set(&mut w, &key.targets, &[1u64; 32]);
    assert_eq!(g.run_once(&w), Err(GeneratorError::SlotTooLarge));
    set(&mut w, &key.targets[..1], &[256]);
    assert_eq!(g.run_once(&w), Err(GeneratorError::MissingValue));
}

#[test]
fn storage_locations_do_not_collide() {
    let mut seen = HashSet::new();
    for i in 0..1000u32 {
        let key = {
            let mut k = vec![0u8; 32];
            k[0] = (i % 10) as u8;
            k
        };
        let slot = vec![i / 10, 0, 0, 0, 0, 0, 0, 0];
        assert!(seen.insert(get_map_storage_location(&slot, &key)));
    }
    assert_eq!(seen.len(), 1000);
}

#[test]
fn storage_key_generator_round_trip() {
    let mut b = CircuitBuilder::new(1);
    let slot = u256(&mut b);
    let key = bytes32(&mut b);
    let g = EthStorageKeyGenerator::new(&mut b, slot, key);
    let mut bytes = Vec::new();
    g.serialize(&mut bytes);
    let h = EthStorageKeyGenerator::deserialize(&bytes).unwrap();
    assert_eq!(h.mapping_location.targets, g.mapping_location.targets);
    assert_eq!(h.map_key.targets, g.map_key.targets);
    assert_eq!(h.value.targets, g.value.targets);

    let mut w = PartitionWitness { values: Vec::new() };
    set(&mut w, &g.mapping_location.targets, &[1, 2, 3, 4, 0, 0, 0, 0]);
    set(&mut w, &g.map_key.targets, &[200u64; 32]);
    assert_eq!(g.run_once(&w), h.run_once(&w));
    assert!(g.run_once(&w).is_ok());

    assert_eq!(
        EthStorageKeyGenerator::deserialize(&bytes[..bytes.len() - 1]).err(),
        Some(GeneratorError::Malformed)
    );
}

#[test]
fn log_generator_round_trip() {
    let mut b = CircuitBuilder::new(0x0102030405060708);
    let tx = bytes32(&mut b);
    let bh = bytes32(&mut b);
    let g = EthLogGenerator::new(&mut b, tx.clone(), bh.clone(), 3);
    assert_eq!(g.chain_id, 0x0102030405060708);
    assert_eq!(g.value.targets.len(), ETH_LOG_TARGETS);
    let mut deps = tx.targets.clone();
    deps.extend(bh.targets.iter().copied());
    assert_eq!(g.dependencies(), deps);

    let mut bytes = Vec::new();
    g.serialize(&mut bytes);
    assert_eq!(bytes[..8].to_vec(), vec![1u8, 2, 3, 4, 5, 6, 7, 8]);
    let h = EthLogGenerator::deserialize(&bytes).unwrap();
    assert_eq!(h.chain_id, g.chain_id);
    assert_eq!(h.log_index, 3);
    assert_eq!(h.transaction_hash.targets, g.transaction_hash.targets);
    assert_eq!(h.block_hash.targets, g.block_hash.targets);
    assert_eq!(h.value.targets, g.value.targets);
    assert_eq!(EthLogGenerator::deserialize(&bytes[..7]).err(), Some(GeneratorError::Malformed));
}

#[test]
fn log_generator_selects_indexed_log() {
    let logs = vec![log(1, 3, b"zero"), log(2, 4, b"abc"), log(3, 3, b"two")];
    let out = select_log(&logs, 1).unwrap();
    let mut expected = vec![2u8; 20];
    expected.extend(vec![2u8; 32]);
    expected.extend(vec![3u8; 32]);
    expected.extend(vec![4u8; 32]);
    expected.extend(sha2::Sha256::digest(b"abc").to_vec());
    assert_eq!(out, expected);
    assert_eq!(
        out[116..].to_vec(),
        vec![
            0xba, 0x78, 0x16, 0xbf, 0x8f, 0x01, 0xcf, 0xea, 0x41, 0x41, 0x40, 0xde, 0x5d, 0xae,
            0x22, 0x23, 0xb0, 0x03, 0x61, 0xa3, 0x96, 0x17, 0x7a, 0x9c, 0xb4, 0x10, 0xff, 0x61,
            0xf2, 0x00, 0x15, 0xad
        ]
    );

    let mut b = CircuitBuilder::new(1);
    let tx = bytes32(&mut b);
    let bh = bytes32(&mut b);
    let g = EthLogGenerator::new(&mut b, tx, bh, 1);
    let values = g.outputs(&logs).unwrap();
    assert_eq!(values.len(), ETH_LOG_TARGETS);
    for (i, (t, v)) in values.iter().enumerate() {
        assert_eq!(*t, g.value.targets[i]);
        assert_eq!(*v, expected[i] as u64);
    }
}

#[test]
fn log_generator_failures() {
    let logs = vec![log(1, 3, b""), log(2, 2, b"x")];
    assert_eq!(select_log(&logs, 2), Err(GeneratorError::LogIndexOutOfRange));
    assert_eq!(select_log(&logs, 1), Err(GeneratorError::TooFewTopics));
    assert_eq!(select_log(&Vec::new(), 0), Err(GeneratorError::LogIndexOutOfRange));
}

#[test]
fn log_generator_needs_both_hashes() {
    let mut b = CircuitBuilder::new(1);
    let tx = bytes32(&mut b);
    let bh = bytes32(&mut b);
    let g = EthLogGenerator::new(&mut b, tx.clone(), bh.clone(), 0);
    let mut w = PartitionWitness { values: Vec::new() };
    set(&mut w, &tx.targets, &[0xaa; 32]);
    assert_eq!(g.transaction_hash_value(&w), Err(GeneratorError::MissingValue));
    set(&mut w, &bh.targets, &[0xbb; 32]);
    assert_eq!(g.transaction_hash_value(&w), Ok(vec![0xaa; 32]));
}

#[test]
fn storage_proof_value_is_big_endian() {
    let b = CircuitBuilder::new(42);
    let hint = EthStorageProofHint::new(&b);
    assert_eq!(hint.chain_id, 42);
    let v = hint.output_value(&[1, 0, 0, 0x0102030405060708]);
    let mut expected = vec![1u8, 2, 3, 4, 5, 6, 7, 8];
    expected.extend(vec![0u8; 23]);
    expected.push(1);
    assert_eq!(v, expected);
    assert_eq!(u256_to_be_bytes(&[0, 0, 0, 0]), vec![0u8; 32]);
}

#[test]
fn target_list_bytes() {
    let ts = vec![Target::VirtualTarget { index: 258 }, Target::Wire { row: 1, column: 2 }];
    let mut bytes = Vec::new();
    write_target_vec(&mut bytes, &ts);
    let mut expected = vec![2u8, 0, 0, 0, 0, 0, 0, 0];
    expected.extend([0u8, 2, 1, 0, 0, 0, 0, 0, 0]);
    expected.extend([1u8, 1, 0, 0, 0, 0, 0, 0, 0, 2, 0, 0, 0, 0, 0, 0, 0]);
    assert_eq!(bytes, expected);
    assert_eq!(read_target_vec(&bytes, 0), Some((ts, bytes.len())));
    assert_eq!(read_target_vec(&bytes[..bytes.len() - 1], 0), None);
    assert_eq!(read_target_vec(&bytes, 1), Some((Vec::new(), 9)));
    let mut bad = bytes.clone();
    bad[8] = 2;
    assert_eq!(read_target_vec(&bad, 0), None);
}

#[test]
fn storage_proof_hint_reads_query_in_order() {
    let b = CircuitBuilder::new(1);
    let hint = EthStorageProofHint::new(&b);
    let mut input = ValueStream::new();
    input.write_value(&vec![1u8; 32]);
    input.write_value(&vec![2u8; 20]);
    input.write_value(&vec![3u8; 32]);
    input.write_value(&vec![4u8; 5]);
    assert_eq!(input.remaining(), 89);
    let (block_hash, address, location) = hint.read_query(&mut input);
    assert_eq!(block_hash, vec![1u8; 32]);
    assert_eq!(address, vec![2u8; 20]);
    assert_eq!(location, vec![3u8; 32]);
    assert_eq!(input.remaining(), 5);
    assert_eq!(input.read_value(5), vec![4u8; 5]);
    assert_eq!(input.remaining(), 0);
}
