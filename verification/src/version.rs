//! The SBI specification version as reported by the base extension.
use vstd::prelude::*;

verus! {

/// SBI specification version: bits 24 to 30 hold the major number, bits 0
/// to 23 the minor one.
#[derive(Clone, Copy, Debug, PartialEq, Eq, Structural)]
pub struct Version {
    raw: usize,
}

impl Version {
    /// The raw value.
    pub closed spec fn spec_raw(self) -> usize {
        self.raw
    }

    /// Converts raw extension value into Version structure.
    pub fn from_raw(raw: usize) -> (r: Self)
        ensures
            r.spec_raw() == raw,
    {
        Version { raw }
    }

    /// Reads the major version of RISC-V SBI specification.
    pub fn major(self) -> (r: usize)
        ensures
            r == (self.spec_raw() / 0x100_0000) % 0x80,
    {
        let raw = self.raw;
        assert((raw >> 24usize) & 0x7fusize == (raw / 0x100_0000) % 0x80) by (bit_vector);
        (raw >> 24usize) & 0x7fusize
    }

    /// Reads the minor version of RISC-V SBI specification.
    pub fn minor(self) -> (r: usize)
        ensures
            r == self.spec_raw() % 0x100_0000,
    {
        let raw = self.raw;
        assert(raw & 0xff_ffffusize == raw % 0x100_0000) by (bit_vector);
        raw & 0xff_ffffusize
    }
}

} // verus!
