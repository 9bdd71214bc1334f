//! Generators for values read from chain state: the storage slot of a
//! mapping entry, a storage proof's value, and an emitted log.
use vstd::prelude::*;

use crate::builder::{virtual_run, CircuitBuilder};
use crate::bytes::{be_at, lemma_be_round_trip, push_u64_be, read_u64_be, u256_be, u256_to_be_bytes, u64_be};
use crate::hashes::{keccak256, keccak256_of, sha256, sha256_of};
use crate::stream::ValueStream;
use crate::target::{lemma_targets_round_trip, parse_targets, read_target_vec, targets_bytes, write_target_vec, Target};
use crate::vars::{Bytes32Variable, EthLogVariable, U256Variable, BYTES32_TARGETS, ETH_LOG_TARGETS, U256_TARGETS};
use crate::witness::{all_below, assign_bytes, assignment, byte_values, word_values, PartitionWitness};

verus! {

/// Why a generator could not produce its outputs.
#[derive(Clone, Copy, Debug, PartialEq, Eq, Structural)]
pub enum GeneratorError {
    /// A dependency has no value in the witness, or one out of its range.
    MissingValue,
    /// The mapping's base slot does not fit in 128 bits.
    SlotTooLarge,
    /// The receipt has no log at the requested index.
    LogIndexOutOfRange,
    /// The selected log has fewer than three topics.
    TooFewTopics,
    /// The persisted bytes are truncated or malformed.
    Malformed,
}

/// The 32 big-endian bytes of a 256-bit integer given as eight 32-bit limbs,
/// least significant limb first.
pub open spec fn limbs_be(limbs: Seq<u32>) -> Seq<u8> {
    Seq::new(32, |i: int| ((limbs[7 - i / 4] >> ((3 - i % 4) * 8) as u32) & 0xff) as u8)
}

/// Where a mapping at base slot `slot` keeps the entry for `key`: the
/// Keccak-256 digest of the key followed by the slot as a 32-byte word.
pub open spec fn map_location(slot: Seq<u32>, key: Seq<u8>) -> Seq<u8> {
    keccak256_of(key + limbs_be(slot))
}

/// Whether the limbs of a 256-bit integer hold a value below 2^128.
pub open spec fn fits_u128(limbs: Seq<u32>) -> bool {
    limbs[4] == 0 && limbs[5] == 0 && limbs[6] == 0 && limbs[7] == 0
}

/// The storage slot of `key` in the mapping at base slot `slot`.
pub fn get_map_storage_location(slot: &Vec<u32>, key: &Vec<u8>) -> (r: Vec<u8>)
    requires
        slot@.len() == 8,
        key@.len() == 32,
    ensures
        r@ == map_location(slot@, key@),
        r@.len() == 32,
{
    let mut pre: Vec<u8> = key.clone();
    let mut i: usize = 0;
    while i < 32
        invariant
            i <= 32,
            slot@.len() == 8,
            pre@ == key@ + limbs_be(slot@).subrange(0, i as int),
        decreases 32 - i,
    {
        let limb = slot[7 - i / 4];
        let shift: u32 = ((3 - i % 4) * 8) as u32;
        pre.push(((limb >> shift) & 0xff) as u8);
        assert(limbs_be(slot@).subrange(0, i + 1) =~= limbs_be(slot@).subrange(0, i as int).push(
            limbs_be(slot@)[i as int],
        ));
        i = i + 1;
    }
    assert(limbs_be(slot@).subrange(0, 32) =~= limbs_be(slot@));
    keccak256(&pre)
}

/// Distinct (slot, key) pairs hash distinct byte strings.
pub proof fn lemma_map_location_preimage_injective(s1: Seq<u32>, k1: Seq<u8>, s2: Seq<u32>, k2: Seq<u8>)
    requires
        s1.len() == 8,
        s2.len() == 8,
        k1.len() == 32,
        k2.len() == 32,
        k1 + limbs_be(s1) == k2 + limbs_be(s2),
    ensures
        k1 == k2,
        s1 == s2,
{
    let p1 = k1 + limbs_be(s1);
    let p2 = k2 + limbs_be(s2);
    assert(k1 =~= p1.subrange(0, 32));
    assert(k2 =~= p2.subrange(0, 32));
    assert forall|j: int| 0 <= j < 8 implies s1[j] == s2[j] by {
        let l = 7 - j;
        let (a, b) = (s1[j], s2[j]);
        let (a0, a1, a2, a3) = (p1[32 + 4 * l], p1[33 + 4 * l], p1[34 + 4 * l], p1[35 + 4 * l]);
        assert(limbs_be(s1)[4 * l] == a0 && limbs_be(s1)[4 * l + 1] == a1);
        assert(limbs_be(s1)[4 * l + 2] == a2 && limbs_be(s1)[4 * l + 3] == a3);
        assert(limbs_be(s2)[4 * l] == a0 && limbs_be(s2)[4 * l + 1] == a1);
        assert(limbs_be(s2)[4 * l + 2] == a2 && limbs_be(s2)[4 * l + 3] == a3);
        assert(a0 == ((a >> 24u32) & 0xff) as u8 && a1 == ((a >> 16u32) & 0xff) as u8);
        assert(a2 == ((a >> 8u32) & 0xff) as u8 && a3 == ((a >> 0u32) & 0xff) as u8);
        assert(a0 == ((b >> 24u32) & 0xff) as u8 && a1 == ((b >> 16u32) & 0xff) as u8);
        assert(a2 == ((b >> 8u32) & 0xff) as u8 && a3 == ((b >> 0u32) & 0xff) as u8);
        assert(a == b) by (bit_vector)
            requires
                ((a >> 24u32) & 0xff) as u8 == ((b >> 24u32) & 0xff) as u8,
                ((a >> 16u32) & 0xff) as u8 == ((b >> 16u32) & 0xff) as u8,
                ((a >> 8u32) & 0xff) as u8 == ((b >> 8u32) & 0xff) as u8,
                ((a >> 0u32) & 0xff) as u8 == ((b >> 0u32) & 0xff) as u8,
        ;
    }
    assert(s1 =~= s2);
}

/// A hint that reads a storage slot's value at a given block from a node
/// of the chain `chain_id`.
pub struct EthStorageProofHint {
    pub chain_id: u64,
}

impl EthStorageProofHint {
    /// A hint for the builder's chain.
    pub fn new(builder: &CircuitBuilder) -> (r: EthStorageProofHint)
        ensures
            r.chain_id == builder.spec_chain_id(),
    {
        EthStorageProofHint { chain_id: builder.get_chain_id() }
    }

    /// Reads the query from the hint's input: block hash (32 bytes),
    /// account address (20 bytes) and storage slot (32 bytes), in that order.
    pub fn read_query(&self, input: &mut ValueStream) -> (r: (Vec<u8>, Vec<u8>, Vec<u8>))
        requires
            old(input).wf(),
            old(input).unread().len() >= 84,
        ensures
            final(input).wf(),
            r.0@ == old(input).unread().subrange(0, 32),
            r.1@ == old(input).unread().subrange(32, 52),
            r.2@ == old(input).unread().subrange(52, 84),
            final(input).read_pos() == old(input).read_pos() + 84,
            final(input).written() == old(input).written(),
    {
        let ghost u = input.unread();
        let block_hash = input.read_value(32);
        let address = input.read_value(20);
        let location = input.read_value(32);
        assert(address@ =~= u.subrange(32, 52));
        assert(location@ =~= u.subrange(52, 84));
        (block_hash, address, location)
    }

    /// The value to write for a proof whose storage value is the 256-bit
    /// integer with 64-bit limbs `value`, least significant first: its 32
    /// big-endian bytes.
    pub fn output_value(&self, value: &[u64; 4]) -> (r: Vec<u8>)
        ensures
            r@ == u256_be(value@),
    {
        u256_to_be_bytes(value)
    }
}

/// Computes the storage slot of a mapping entry from the base slot and key.
pub struct EthStorageKeyGenerator {
    pub mapping_location: U256Variable,
    pub map_key: Bytes32Variable,
    pub value: Bytes32Variable,
}

impl EthStorageKeyGenerator {
    pub open spec fn wf(&self) -> bool {
        &&& self.mapping_location.targets@.len() == U256_TARGETS
        &&& self.map_key.targets@.len() == BYTES32_TARGETS
        &&& self.value.targets@.len() == BYTES32_TARGETS
    }

    /// The persisted bytes: the three target lists, in field order.
    pub open spec fn spec_bytes(&self) -> Seq<u8> {
        targets_bytes(self.mapping_location.targets@) + targets_bytes(self.map_key.targets@)
            + targets_bytes(self.value.targets@)
    }

    /// A generator from `mapping_location` and `map_key` into a fresh output.
    pub fn new(builder: &mut CircuitBuilder, mapping_location: U256Variable, map_key: Bytes32Variable) -> (r:
        EthStorageKeyGenerator)
        requires
            old(builder).spec_num_virtual() + BYTES32_TARGETS <= usize::MAX,
        ensures
            r.mapping_location == mapping_location,
            r.map_key == map_key,
            r.value.targets@ == virtual_run(old(builder).spec_num_virtual() as int, BYTES32_TARGETS as int),
            final(builder).spec_num_virtual() == old(builder).spec_num_virtual() + BYTES32_TARGETS,
            final(builder).spec_chain_id() == old(builder).spec_chain_id(),
            final(builder).spec_constraints() == old(builder).spec_constraints(),
            final(builder).spec_hints() == old(builder).spec_hints(),
    {
        let value = Bytes32Variable { targets: builder.add_virtual_targets(BYTES32_TARGETS) };
        EthStorageKeyGenerator { mapping_location, map_key, value }
    }

    /// The identifier under which this generator is persisted.
    pub fn id() -> (r: String)
        ensures
            r@ == "EthStorageKeyGenerator"@,
    {
        "EthStorageKeyGenerator".to_owned()
    }

    /// The targets that must hold values before the generator runs.
    pub fn dependencies(&self) -> (r: Vec<Target>)
        ensures
            r@ == self.mapping_location.targets@ + self.map_key.targets@,
    {
        let mut r = self.mapping_location.targets.clone();
        let mut k = self.map_key.targets.clone();
        r.append(&mut k);
        r
    }

    /// What a run on the witness values `w` yields: the storage slot of the
    /// key, one byte per output target; or why there is none.
    pub open spec fn spec_run_once(&self, w: Seq<Option<u64>>) -> Result<Seq<(Target, u64)>, GeneratorError> {
        let slot = word_values(w, self.mapping_location.targets@);
        let key = byte_values(w, self.map_key.targets@);
        if !(all_below(w, self.mapping_location.targets@, 0x1_0000_0000) && all_below(
            w,
            self.map_key.targets@,
            256,
        )) {
            Err(GeneratorError::MissingValue)
        } else if !fits_u128(slot) {
            Err(GeneratorError::SlotTooLarge)
        } else {
            Ok(assignment(self.value.targets@, map_location(slot, key)))
        }
    }

    /// The values to write: the storage slot of the key, one byte per output
    /// target.
    pub fn run_once(&self, witness: &PartitionWitness) -> (r: Result<Vec<(Target, u64)>, GeneratorError>)
        requires
            self.wf(),
        ensures
            r matches Ok(out) ==> self.spec_run_once(witness.values@) == Ok::<
                Seq<(Target, u64)>,
                GeneratorError,
            >(out@),
            r matches Err(e) ==> self.spec_run_once(witness.values@) == Err::<
                Seq<(Target, u64)>,
                GeneratorError,
            >(e),
    {
        let slot = match witness.get_words(&self.mapping_location.targets) {
            Some(s) => s,
            None => return Err(GeneratorError::MissingValue),
        };
        let key = match witness.get_bytes(&self.map_key.targets) {
            Some(k) => k,
            None => return Err(GeneratorError::MissingValue),
        };
        if slot[4] != 0 || slot[5] != 0 || slot[6] != 0 || slot[7] != 0 {
            return Err(GeneratorError::SlotTooLarge);
        }
        let location = get_map_storage_location(&slot, &key);
        Ok(assign_bytes(&self.value.targets, &location))
    }

    /// Appends the persisted bytes of this generator to `dst`.
    pub fn serialize(&self, dst: &mut Vec<u8>)
        ensures
            final(dst)@ == old(dst)@ + self.spec_bytes(),
    {
        write_target_vec(dst, &self.mapping_location.targets);
        write_target_vec(dst, &self.map_key.targets);
        write_target_vec(dst, &self.value.targets);
        assert(final(dst)@ =~= old(dst)@ + self.spec_bytes());
    }

    /// Restores a generator from the front of `src`.
    pub fn deserialize(src: &[u8]) -> (r: Result<EthStorageKeyGenerator, GeneratorError>)
        ensures
            r is Ok <==> storage_key_parse(src@) is Some,
            r matches Ok(g) ==> storage_key_parse(src@) == Some(
                (g.mapping_location.targets@, g.map_key.targets@, g.value.targets@),
            ),
            r matches Err(e) ==> e == GeneratorError::Malformed,
    {
        let (m, p) = match read_target_vec(src, 0) {
            Some(x) => x,
            None => return Err(GeneratorError::Malformed),
        };
        if p > src.len() {
            return Err(GeneratorError::Malformed);
        }
        let (k, q) = match read_target_vec(src, p) {
            Some(x) => x,
            None => return Err(GeneratorError::Malformed),
        };
        let (v, _end) = match read_target_vec(src, q) {
            Some(x) => x,
            None => return Err(GeneratorError::Malformed),
        };
        if m.len() != U256_TARGETS || k.len() != BYTES32_TARGETS || v.len() != BYTES32_TARGETS {
            return Err(GeneratorError::Malformed);
        }
        Ok(
            EthStorageKeyGenerator {
                mapping_location: U256Variable { targets: m },
                map_key: Bytes32Variable { targets: k },
                value: Bytes32Variable { targets: v },
            },
        )
    }
}

/// The three target lists at the front of `b`, if they are there with the
/// lengths of their variables.
pub open spec fn storage_key_parse(b: Seq<u8>) -> Option<(Seq<Target>, Seq<Target>, Seq<Target>)> {
    match parse_targets(b, 0) {
        Some((m, p)) => match parse_targets(b, p) {
            Some((k, q)) => match parse_targets(b, q) {
                Some((v, _)) => if m.len() == U256_TARGETS && k.len() == BYTES32_TARGETS && v.len()
                    == BYTES32_TARGETS {
                    Some((m, k, v))
                } else {
                    None
                },
                None => None,
            },
            None => None,
        },
        None => None,
    }
}

/// A storage-key generator restored from the persisted bytes of `g`
/// computes, from any witness, what `g` computes.
pub proof fn lemma_storage_key_restored_runs_alike(
    g: EthStorageKeyGenerator,
    h: EthStorageKeyGenerator,
    rest: Seq<u8>,
    w: Seq<Option<u64>>,
)
    requires
        g.wf(),
        storage_key_parse(g.spec_bytes() + rest) == Some(
            (h.mapping_location.targets@, h.map_key.targets@, h.value.targets@),
        ),
    ensures
        h.spec_run_once(w) == g.spec_run_once(w),
{
    lemma_storage_key_round_trip(g, rest);
}

/// Parsing the persisted bytes of a storage-key generator gives back its
/// handles.
pub proof fn lemma_storage_key_round_trip(g: EthStorageKeyGenerator, rest: Seq<u8>)
    requires
        g.wf(),
    ensures
        storage_key_parse(g.spec_bytes() + rest) == Some(
            (g.mapping_location.targets@, g.map_key.targets@, g.value.targets@),
        ),
{
    let b = g.spec_bytes() + rest;
    let (m, k, v) = (g.mapping_location.targets@, g.map_key.targets@, g.value.targets@);
    let (lm, lk, lv) = (targets_bytes(m).len() as int, targets_bytes(k).len() as int, targets_bytes(v).len() as int);
    assert(b.subrange(0, lm) =~= targets_bytes(m));
    lemma_targets_round_trip(m, b, 0);
    assert(b.subrange(lm, lm + lk) =~= targets_bytes(k));
    lemma_targets_round_trip(k, b, lm);
    assert(b.subrange(lm + lk, lm + lk + lv) =~= targets_bytes(v));
    lemma_targets_round_trip(v, b, lm + lk);
}

/// A log as a transaction receipt holds it.
pub struct ReceiptLog {
    pub address: Vec<u8>,
    pub topics: Vec<Vec<u8>>,
    pub data: Vec<u8>,
}

/// Whether a receipt log has the widths of its fields: a 20-byte address
/// and 32-byte topics.
pub open spec fn receipt_log_wf(l: ReceiptLog) -> bool {
    &&& l.address@.len() == 20
    &&& forall|j: int| 0 <= j < l.topics@.len() ==> (#[trigger] l.topics@[j])@.len() == 32
}

/// The bytes written for a selected log: its address, its first three
/// topics and the SHA-256 digest of its data.
pub open spec fn log_bytes(l: ReceiptLog) -> Seq<u8> {
    l.address@ + l.topics@[0]@ + l.topics@[1]@ + l.topics@[2]@ + sha256_of(l.data@)
}

/// The outcome of selecting log `index` of `logs`.
pub open spec fn select_log_spec(logs: Seq<ReceiptLog>, index: u64) -> Result<Seq<u8>, GeneratorError> {
    if index >= logs.len() {
        Err(GeneratorError::LogIndexOutOfRange)
    } else if logs[index as int].topics@.len() < 3 {
        Err(GeneratorError::TooFewTopics)
    } else {
        Ok(log_bytes(logs[index as int]))
    }
}

/// The bytes of log `index` of `logs`, or why there are none.
pub fn select_log(logs: &Vec<ReceiptLog>, index: u64) -> (r: Result<Vec<u8>, GeneratorError>)
    requires
        forall|j: int| 0 <= j < logs@.len() ==> receipt_log_wf(#[trigger] logs@[j]),
    ensures
        r matches Ok(b) ==> select_log_spec(logs@, index) == Ok::<Seq<u8>, GeneratorError>(b@),
        r matches Err(e) ==> select_log_spec(logs@, index) == Err::<Seq<u8>, GeneratorError>(e),
        r is Ok ==> r.unwrap()@.len() == ETH_LOG_TARGETS,
{
    if index >= logs.len() as u64 {
        return Err(GeneratorError::LogIndexOutOfRange);
    }
    let log = &logs[index as usize];
    if log.topics.len() < 3 {
        return Err(GeneratorError::TooFewTopics);
    }
    assert(receipt_log_wf(logs@[index as int]));
    let mut out = log.address.clone();
    let mut t0 = log.topics[0].clone();
    let mut t1 = log.topics[1].clone();
    let mut t2 = log.topics[2].clone();
    let mut h = sha256(&log.data);
    out.append(&mut t0);
    out.append(&mut t1);
    out.append(&mut t2);
    out.append(&mut h);
    assert(out@ =~= log_bytes(*log));
    Ok(out)
}

/// Reads an emitted log of a transaction from a node of the chain
/// `chain_id`: the log at `log_index` of the transaction's receipt.
pub struct EthLogGenerator {
    pub transaction_hash: Bytes32Variable,
    pub block_hash: Bytes32Variable,
    pub log_index: u64,
    pub value: EthLogVariable,
    pub chain_id: u64,
}

impl EthLogGenerator {
    pub open spec fn wf(&self) -> bool {
        &&& self.transaction_hash.targets@.len() == BYTES32_TARGETS
        &&& self.block_hash.targets@.len() == BYTES32_TARGETS
        &&& self.value.targets@.len() == ETH_LOG_TARGETS
    }

    /// The persisted bytes: chain id (8 bytes, big-endian), transaction hash
    /// and block hash targets, log index (8 bytes, big-endian), output
    /// targets.
    pub open spec fn spec_bytes(&self) -> Seq<u8> {
        u64_be(self.chain_id) + targets_bytes(self.transaction_hash.targets@) + targets_bytes(
            self.block_hash.targets@,
        ) + u64_be(self.log_index) + targets_bytes(self.value.targets@)
    }

    /// A generator for log `log_index` of the transaction `transaction_hash`
    /// in block `block_hash`, on the builder's chain, into a fresh output.
    pub fn new(
        builder: &mut CircuitBuilder,
        transaction_hash: Bytes32Variable,
        block_hash: Bytes32Variable,
        log_index: u64,
    ) -> (r: EthLogGenerator)
        requires
            old(builder).spec_num_virtual() + ETH_LOG_TARGETS <= usize::MAX,
        ensures
            r.transaction_hash == transaction_hash,
            r.block_hash == block_hash,
            r.log_index == log_index,
            r.chain_id == old(builder).spec_chain_id(),
            r.value.targets@ == virtual_run(old(builder).spec_num_virtual() as int, ETH_LOG_TARGETS as int),
            final(builder).spec_num_virtual() == old(builder).spec_num_virtual() + ETH_LOG_TARGETS,
            final(builder).spec_chain_id() == old(builder).spec_chain_id(),
            final(builder).spec_constraints() == old(builder).spec_constraints(),
            final(builder).spec_hints() == old(builder).spec_hints(),
    {
        let chain_id = builder.get_chain_id();
        let value = EthLogVariable { targets: builder.add_virtual_targets(ETH_LOG_TARGETS) };
        EthLogGenerator { transaction_hash, block_hash, log_index, value, chain_id }
    }

    /// The identifier under which this generator is persisted.
    pub fn id() -> (r: String)
        ensures
            r@ == "EthLogGenerator"@,
    {
        "EthLogGenerator".to_owned()
    }

    /// The targets that must hold values before the generator runs. The
    /// block hash is among them, though the lookup uses the transaction
    /// hash alone.
    pub fn dependencies(&self) -> (r: Vec<Target>)
        ensures
            r@ == self.transaction_hash.targets@ + self.block_hash.targets@,
    {
        let mut r = self.transaction_hash.targets.clone();
        let mut b = self.block_hash.targets.clone();
        r.append(&mut b);
        r
    }

    /// The transaction hash to look the receipt up by, given the witness
    /// values `w`, once both dependencies hold values.
    pub open spec fn spec_lookup(&self, w: Seq<Option<u64>>) -> Result<Seq<u8>, GeneratorError> {
        if all_below(w, self.transaction_hash.targets@, 256) && all_below(w, self.block_hash.targets@, 256) {
            Ok(byte_values(w, self.transaction_hash.targets@))
        } else {
            Err(GeneratorError::MissingValue)
        }
    }

    /// The values to write given the receipt's logs: the selected log's
    /// bytes, one per output target; or why there are none.
    pub open spec fn spec_outputs(&self, logs: Seq<ReceiptLog>) -> Result<Seq<(Target, u64)>, GeneratorError> {
        match select_log_spec(logs, self.log_index) {
            Ok(b) => Ok(assignment(self.value.targets@, b)),
            Err(e) => Err(e),
        }
    }

    /// The transaction hash to look the receipt up by, once both
    /// dependencies hold values.
    pub fn transaction_hash_value(&self, witness: &PartitionWitness) -> (r: Result<Vec<u8>, GeneratorError>)
        ensures
            r matches Ok(h) ==> self.spec_lookup(witness.values@) == Ok::<Seq<u8>, GeneratorError>(h@),
            r matches Err(e) ==> self.spec_lookup(witness.values@) == Err::<Seq<u8>, GeneratorError>(e),
    {
        let tx = match witness.get_bytes(&self.transaction_hash.targets) {
            Some(t) => t,
            None => return Err(GeneratorError::MissingValue),
        };
        match witness.get_bytes(&self.block_hash.targets) {
            Some(_) => Ok(tx),
            None => Err(GeneratorError::MissingValue),
        }
    }

    /// The values to write, given the logs of the transaction's receipt:
    /// the selected log's bytes, one per output target.
    pub fn outputs(&self, logs: &Vec<ReceiptLog>) -> (r: Result<Vec<(Target, u64)>, GeneratorError>)
        requires
            self.wf(),
            forall|j: int| 0 <= j < logs@.len() ==> receipt_log_wf(#[trigger] logs@[j]),
        ensures
            r matches Ok(out) ==> self.spec_outputs(logs@) == Ok::<Seq<(Target, u64)>, GeneratorError>(out@),
            r matches Err(e) ==> self.spec_outputs(logs@) == Err::<Seq<(Target, u64)>, GeneratorError>(e),
    {
        match select_log(logs, self.log_index) {
            Ok(b) => Ok(assign_bytes(&self.value.targets, &b)),
            Err(e) => Err(e),
        }
    }

    /// Appends the persisted bytes of this generator to `dst`.
    pub fn serialize(&self, dst: &mut Vec<u8>)
        ensures
            final(dst)@ == old(dst)@ + self.spec_bytes(),
    {
        push_u64_be(dst, self.chain_id);
        write_target_vec(dst, &self.transaction_hash.targets);
        write_target_vec(dst, &self.block_hash.targets);
        push_u64_be(dst, self.log_index);
        write_target_vec(dst, &self.value.targets);
        assert(final(dst)@ =~= old(dst)@ + self.spec_bytes());
    }

    /// Restores a generator from the front of `src`.
    pub fn deserialize(src: &[u8]) -> (r: Result<EthLogGenerator, GeneratorError>)
        ensures
            r is Ok <==> log_parse(src@) is Some,
            r matches Ok(g) ==> log_parse(src@) == Some(
                (g.chain_id, g.transaction_hash.targets@, g.block_hash.targets@, g.log_index, g.value.targets@),
            ),
            r matches Err(e) ==> e == GeneratorError::Malformed,
    {
        let chain_id = match read_u64_be(src, 0) {
            Some(c) => c,
            None => return Err(GeneratorError::Malformed),
        };
        let (t, p) = match read_target_vec(src, 8) {
            Some(x) => x,
            None => return Err(GeneratorError::Malformed),
        };
        let (b, q) = match read_target_vec(src, p) {
            Some(x) => x,
            None => return Err(GeneratorError::Malformed),
        };
        let len = src.len();
        let log_index = match read_u64_be(src, q) {
            Some(i) => i,
            None => return Err(GeneratorError::Malformed),
        };
        let (v, _end) = match read_target_vec(src, q + 8) {
            Some(x) => x,
            None => return Err(GeneratorError::Malformed),
        };
        if t.len() != BYTES32_TARGETS || b.len() != BYTES32_TARGETS || v.len() != ETH_LOG_TARGETS {
            return Err(GeneratorError::Malformed);
        }
        Ok(
            EthLogGenerator {
                transaction_hash: Bytes32Variable { targets: t },
                block_hash: Bytes32Variable { targets: b },
                log_index,
                value: EthLogVariable { targets: v },
                chain_id,
            },
        )
    }
}

/// The fields at the front of `b`, if they are there with the lengths of
/// their variables: chain id, transaction hash targets, block hash targets,
/// log index, output targets.
pub open spec fn log_parse(b: Seq<u8>) -> Option<(u64, Seq<Target>, Seq<Target>, u64, Seq<Target>)> {
    if b.len() < 8 {
        None
    } else {
        match parse_targets(b, 8) {
            Some((t, p)) => match parse_targets(b, p) {
                Some((h, q)) => if q + 8 <= b.len() {
                    match parse_targets(b, q + 8) {
                        Some((v, _)) => if t.len() == BYTES32_TARGETS && h.len() == BYTES32_TARGETS
                            && v.len() == ETH_LOG_TARGETS {
                            Some((be_at(b, 0), t, h, be_at(b, q), v))
                        } else {
                            None
                        },
                        None => None,
                    }
                } else {
                    None
                },
                None => None,
            },
            None => None,
        }
    }
}

/// A log generator restored from the persisted bytes of `g` asks the same
/// chain for the same transaction, given any witness, and writes the same
/// values, given any receipt.
pub proof fn lemma_log_restored_runs_alike(
    g: EthLogGenerator,
    h: EthLogGenerator,
    rest: Seq<u8>,
    w: Seq<Option<u64>>,
    logs: Seq<ReceiptLog>,
)
    requires
        g.wf(),
        log_parse(g.spec_bytes() + rest) == Some(
            (h.chain_id, h.transaction_hash.targets@, h.block_hash.targets@, h.log_index, h.value.targets@),
        ),
    ensures
        h.chain_id == g.chain_id,
        h.spec_lookup(w) == g.spec_lookup(w),
        h.spec_outputs(logs) == g.spec_outputs(logs),
{
    lemma_log_round_trip(g, rest);
}

/// Parsing the persisted bytes of a log generator gives back its chain id,
/// log index and handles.
pub proof fn lemma_log_round_trip(g: EthLogGenerator, rest: Seq<u8>)
    requires
        g.wf(),
    ensures
        log_parse(g.spec_bytes() + rest) == Some(
            (g.chain_id, g.transaction_hash.targets@, g.block_hash.targets@, g.log_index, g.value.targets@),
        ),
{
    let (t, h, v) = (g.transaction_hash.targets@, g.block_hash.targets@, g.value.targets@);
    let b = g.spec_bytes() + rest;
    let (lt, lh) = (targets_bytes(t).len() as int, targets_bytes(h).len() as int);
    let q = 8 + lt + lh;
    lemma_log_pieces(g, rest);
    lemma_be_round_trip(g.chain_id, b, 0);
    lemma_targets_round_trip(t, b, 8);
    lemma_targets_round_trip(h, b, 8 + lt);
    lemma_be_round_trip(g.log_index, b, q);
    lemma_targets_round_trip(v, b, q + 8);
}

#[verifier::rlimit(50)]
proof fn lemma_log_pieces(g: EthLogGenerator, rest: Seq<u8>)
    ensures
        ({
            let b = g.spec_bytes() + rest;
            let tb = targets_bytes(g.transaction_hash.targets@);
            let hb = targets_bytes(g.block_hash.targets@);
            let vb = targets_bytes(g.value.targets@);
            let lt = tb.len() as int;
            let q = 8 + lt + hb.len() as int;
            &&& q + 8 + vb.len() <= b.len()
            &&& b.subrange(0, 8) == u64_be(g.chain_id)
            &&& b.subrange(8, 8 + lt) == tb
            &&& b.subrange(8 + lt, q) == hb
            &&& b.subrange(q, q + 8) == u64_be(g.log_index)
            &&& b.subrange(q + 8, q + 8 + vb.len()) == vb
        }),
{
    let c = u64_be(g.chain_id);
    let tb = targets_bytes(g.transaction_hash.targets@);
    let hb = targets_bytes(g.block_hash.targets@);
    let lb = u64_be(g.log_index);
    let vb = targets_bytes(g.value.targets@);
    let b = g.spec_bytes() + rest;
    assert(b =~= c + (tb + (hb + (lb + (vb + rest)))));
    lemma_piece(Seq::empty(), c, tb + (hb + (lb + (vb + rest))), b);
    assert(b =~= (c + tb) + (hb + (lb + (vb + rest))));
    lemma_piece(c, tb, hb + (lb + (vb + rest)), b);
    lemma_piece(c + tb, hb, lb + (vb + rest), b);
    assert(b =~= (c + tb + hb) + (lb + (vb + rest)));
    lemma_piece(c + tb + hb, lb, vb + rest, b);
    assert(b =~= (c + tb + hb + lb) + (vb + rest));
    lemma_piece(c + tb + hb + lb, vb, rest, b);
}

proof fn lemma_piece(a: Seq<u8>, m: Seq<u8>, c: Seq<u8>, b: Seq<u8>)
    requires
        b == a + (m + c),
    ensures
        b.subrange(a.len() as int, (a.len() + m.len()) as int) == m,
        a.len() + m.len() <= b.len(),
{
    assert(b.subrange(a.len() as int, (a.len() + m.len()) as int) =~= m);
}

} // verus!
