//! Compile flags for `TranslationBlock::cflags`.

use vstd::prelude::*;

verus! {

/// Mask for the instruction count limit (0 = no limit).
pub const CF_COUNT_MASK: u32 = 0x0000_FFFF;
/// Last I/O instruction in the TB.
pub const CF_LAST_IO: u32 = 0x0001_0000;
/// TB is being single-stepped.
pub const CF_SINGLE_STEP: u32 = 0x0002_0000;
/// Use icount (deterministic execution).
pub const CF_USE_ICOUNT: u32 = 0x0004_0000;

} // verus!
