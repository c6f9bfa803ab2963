//! Verified core of a RISC-V SBI firmware: the SBI binary encoding, the
//! environment-call dispatcher, hart state bookkeeping, and the flattened
//! device tree and `newc` cpio parsers used while booting.
use vstd::prelude::*;

pub mod base;
pub mod board;
pub mod binary;
pub mod console;
pub mod cpio;
pub mod dtb;
pub mod dtb_laws;
pub mod dtb_paths;
pub mod dynamic;
pub mod efi;
pub mod ecall;
pub mod extensions;
pub mod hart_mask;
pub mod heap;
pub mod hsm;
pub mod ids;
pub mod instance;
pub mod legacy_stdio;
pub mod memory_range;
pub mod rfence;
pub mod testing;
pub mod version;

verus! {

} // verus!
