//! How many bytes one QR symbol holds, by size class and error-correction
//! strength.

use vstd::prelude::*;

verus! {

/// One of the four standard error-correction strengths, from the least
/// redundancy (`L`) to the most (`H`).
#[derive(Clone, Copy, Debug, PartialEq, Eq, Structural)]
pub enum Strength {
    L,
    M,
    Q,
    H,
}

/// Why a transfer cannot be configured.
#[derive(Clone, Copy, Debug, PartialEq, Eq, Structural)]
pub enum ConfigError {
    /// No capacity table is provisioned for the requested size class.
    UnsupportedSizeClass,
    /// The capacity cannot hold the longest sequence-number encoding plus
    /// one byte of payload.
    CapacityTooSmall,
}

/// The size class whose table is provisioned: QR version 30, 137x137 modules.
pub const SIZE_CLASS_30: u16 = 30;

/// Byte capacities of a version-30 symbol under strengths L, M, Q and H.
pub const LEVEL_30_L: usize = 1732;
pub const LEVEL_30_M: usize = 1370;
pub const LEVEL_30_Q: usize = 982;
pub const LEVEL_30_H: usize = 742;

/// Whether a capacity table exists for `size_class`.
pub open spec fn provisioned(size_class: u16) -> bool {
    size_class == SIZE_CLASS_30
}

/// Capacity of a provisioned size class under `strength`.
pub open spec fn capacity_of(size_class: u16, strength: Strength) -> nat {
    match strength {
        Strength::L => LEVEL_30_L as nat,
        Strength::M => LEVEL_30_M as nat,
        Strength::Q => LEVEL_30_Q as nat,
        Strength::H => LEVEL_30_H as nat,
    }
}

/// The largest number of bytes that one symbol of `size_class` holds at
/// `strength`.
pub fn capacity(size_class: u16, strength: Strength) -> (r: Result<usize, ConfigError>)
    ensures
        provisioned(size_class) ==> r == Ok::<usize, ConfigError>(
            capacity_of(size_class, strength) as usize,
        ),
        !provisioned(size_class) ==> r == Err::<usize, ConfigError>(
            ConfigError::UnsupportedSizeClass,
        ),
{
    if size_class != SIZE_CLASS_30 {
        return Err(ConfigError::UnsupportedSizeClass);
    }
    match strength {
        Strength::L => Ok(LEVEL_30_L),
        Strength::M => Ok(LEVEL_30_M),
        Strength::Q => Ok(LEVEL_30_Q),
        Strength::H => Ok(LEVEL_30_H),
    }
}

/// Weaker error correction leaves more room for data: for a provisioned
/// size class the capacity strictly decreases from L through M and Q to H.
pub proof fn lemma_capacity_ordering(size_class: u16)
    requires
        provisioned(size_class),
    ensures
        capacity_of(size_class, Strength::L) > capacity_of(size_class, Strength::M),
        capacity_of(size_class, Strength::M) > capacity_of(size_class, Strength::Q),
        capacity_of(size_class, Strength::Q) > capacity_of(size_class, Strength::H),
{
}

} // verus!
