//! Concrete values of targets during witness generation.
use vstd::prelude::*;

use crate::target::Target;

verus! {

/// Known values of the virtual targets, by index.
pub struct PartitionWitness {
    pub values: Vec<Option<u64>>,
}

/// The value of `t` in `w`, if it is a virtual target with a known value.
pub open spec fn target_value(w: Seq<Option<u64>>, t: Target) -> Option<u64> {
    match t {
        Target::VirtualTarget { index } => if index < w.len() {
            w[index as int]
        } else {
            None
        },
        Target::Wire { .. } => None,
    }
}

/// Whether every target of `ts` has a known value below `bound`.
pub open spec fn all_below(w: Seq<Option<u64>>, ts: Seq<Target>, bound: u64) -> bool {
    forall|i: int|
        0 <= i < ts.len() ==> (#[trigger] target_value(w, ts[i]) matches Some(v) && v < bound)
}

/// The values of `ts` in `w`, narrowed to bytes.
pub open spec fn byte_values(w: Seq<Option<u64>>, ts: Seq<Target>) -> Seq<u8> {
    Seq::new(ts.len(), |i: int| target_value(w, ts[i]).unwrap() as u8)
}

/// The values of `ts` in `w`, narrowed to 32-bit words.
pub open spec fn word_values(w: Seq<Option<u64>>, ts: Seq<Target>) -> Seq<u32> {
    Seq::new(ts.len(), |i: int| target_value(w, ts[i]).unwrap() as u32)
}

/// Values that a generator writes: each target with its value.
pub open spec fn assignment(ts: Seq<Target>, bytes: Seq<u8>) -> Seq<(Target, u64)> {
    Seq::new(ts.len(), |i: int| (ts[i], bytes[i] as u64))
}

impl PartitionWitness {
    /// The value of `t`, if known.
    pub fn get_target(&self, t: Target) -> (r: Option<u64>)
        ensures
            r == target_value(self.values@, t),
    {
        match t {
            Target::VirtualTarget { index } => if index < self.values.len() {
                self.values[index]
            } else {
                None
            },
            Target::Wire { .. } => None,
        }
    }

    /// The values of `ts` as bytes, if each is known and below 256.
    pub fn get_bytes(&self, ts: &Vec<Target>) -> (r: Option<Vec<u8>>)
        ensures
            r is Some <==> all_below(self.values@, ts@, 256),
            r matches Some(b) ==> b@ == byte_values(self.values@, ts@),
    {
        let mut out: Vec<u8> = Vec::new();
        let mut i: usize = 0;
        while i < ts.len()
            invariant
                i <= ts@.len(),
                all_below(self.values@, ts@.subrange(0, i as int), 256),
                out@ == byte_values(self.values@, ts@.subrange(0, i as int)),
            decreases ts@.len() - i,
        {
            match self.get_target(ts[i]) {
                Some(v) => {
                    if v >= 256 {
                        assert(!(target_value(self.values@, ts@[i as int]) matches Some(v) && v < 256));
                        return None;
                    }
                    out.push(v as u8);
                },
                None => {
                    assert(!(target_value(self.values@, ts@[i as int]) matches Some(v) && v < 256));
                    return None;
                },
            }
            assert(ts@.subrange(0, i + 1) =~= ts@.subrange(0, i as int).push(ts@[i as int]));
            assert(out@ =~= byte_values(self.values@, ts@.subrange(0, i + 1)));
            i = i + 1;
        }
        assert(ts@.subrange(0, i as int) =~= ts@);
        Some(out)
    }

    /// The values of `ts` as 32-bit words, if each is known and below 2^32.
    pub fn get_words(&self, ts: &Vec<Target>) -> (r: Option<Vec<u32>>)
        ensures
            r is Some <==> all_below(self.values@, ts@, 0x1_0000_0000),
            r matches Some(b) ==> b@ == word_values(self.values@, ts@),
    {
        let mut out: Vec<u32> = Vec::new();
        let mut i: usize = 0;
        while i < ts.len()
            invariant
                i <= ts@.len(),
                all_below(self.values@, ts@.subrange(0, i as int), 0x1_0000_0000),
                out@ == word_values(self.values@, ts@.subrange(0, i as int)),
            decreases ts@.len() - i,
        {
            match self.get_target(ts[i]) {
                Some(v) => {
                    if v >= 0x1_0000_0000 {
                        assert(!(target_value(self.values@, ts@[i as int]) matches Some(v) && v
                            < 0x1_0000_0000));
                        return None;
                    }
                    out.push(v as u32);
                },
                None => {
                    assert(!(target_value(self.values@, ts@[i as int]) matches Some(v) && v
                        < 0x1_0000_0000));
                    return None;
                },
            }
            assert(ts@.subrange(0, i + 1) =~= ts@.subrange(0, i as int).push(ts@[i as int]));
            assert(out@ =~= word_values(self.values@, ts@.subrange(0, i + 1)));
            i = i + 1;
        }
        assert(ts@.subrange(0, i as int) =~= ts@);
        Some(out)
    }
}

/// Pairs each target of `ts` with the byte of `bytes` at the same place.
pub fn assign_bytes(ts: &Vec<Target>, bytes: &Vec<u8>) -> (r: Vec<(Target, u64)>)
    requires
        ts@.len() == bytes@.len(),
    ensures
        r@ == assignment(ts@, bytes@),
{
    let mut r: Vec<(Target, u64)> = Vec::new();
    let mut i: usize = 0;
    while i < ts.len()
        invariant
            i <= ts@.len(),
            ts@.len() == bytes@.len(),
            r@ == assignment(ts@.subrange(0, i as int), bytes@.subrange(0, i as int)),
        decreases ts@.len() - i,
    {
        r.push((ts[i], bytes[i] as u64));
        assert(r@ =~= assignment(ts@.subrange(0, i + 1), bytes@.subrange(0, i + 1)));
        i = i + 1;
    }
    assert(ts@.subrange(0, i as int) =~= ts@);
    assert(bytes@.subrange(0, i as int) =~= bytes@);
    r
}

} // verus!
