//! Typed groups of targets.
use vstd::prelude::*;

use crate::target::Target;

verus! {

/// Targets of a 32-byte value, one per byte.
pub const BYTES32_TARGETS: usize = 32;

/// Targets of a 256-bit integer, one per 32-bit limb, least significant first.
pub const U256_TARGETS: usize = 8;

/// Targets of a log record: address (20 bytes), three topics (32 bytes each)
/// and the hash of its data (32 bytes), one per byte.
pub const ETH_LOG_TARGETS: usize = 148;

/// Targets of a curve point in affine coordinates.
pub const AFFINE_POINT_TARGETS: usize = 32;

/// A 32-byte value.
#[derive(Clone, Debug)]
pub struct Bytes32Variable {
    pub targets: Vec<Target>,
}

/// A 256-bit unsigned integer.
#[derive(Clone, Debug)]
pub struct U256Variable {
    pub targets: Vec<Target>,
}

/// An emitted log: address, first three topics and data hash.
#[derive(Clone, Debug)]
pub struct EthLogVariable {
    pub targets: Vec<Target>,
}

/// A curve point in affine coordinates.
#[derive(Clone, Debug)]
pub struct AffinePointVariable {
    pub targets: Vec<Target>,
}

/// A compressed Edwards point (its y coordinate and the sign of x).
#[derive(Clone, Debug)]
pub struct CompressedEdwardsYVariable {
    pub targets: Vec<Target>,
}

/// A scalar of the curve's scalar field, as limbs.
#[derive(Clone, Debug)]
pub struct NonNativeVariable {
    pub targets: Vec<Target>,
}

} // verus!
