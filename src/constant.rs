use vstd::prelude::*;

verus! {

/// Thousandths of a volume unit in one unit.
pub const VOLUME_ONE: u32 = 1000;

/// A top layer at or below this volume counts as empty.
pub const VOLUME_EPSILON: u32 = 10;

/// Thousandths of progress in a complete transfer.
pub const PROGRESS_ONE: u32 = 1000;

/// Micrometres in one millimetre.
pub const LENGTH_ONE: i64 = 1000;

/// Objects whose heights differ by at most this much (micrometres) rest at the same level.
pub const HEIGHT_EPSILON: i64 = 100;

/// The object flag in the second byte of a body key: the key of
/// `UserData::object(k)` is `OBJECT_TAG + k`.
pub const OBJECT_TAG: u64 = 256;

/// Objects larger than this (micrometres) break when dropped into an empty vial.
pub const BREAK_SIZE: u64 = 1000;

} // verus!
