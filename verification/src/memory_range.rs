//! Physical memory ranges handed to the firmware by the supervisor.
use core::marker::PhantomData;
use vstd::prelude::*;

verus! {

/// Physical slice wrapper with type annotation: a length and the low and high
/// parts of a physical base address. `P` hints how the slice would be used.
pub struct Physical<P> {
    num_bytes: usize,
    phys_addr_lo: usize,
    phys_addr_hi: usize,
    _marker: PhantomData<P>,
}

impl<P> Clone for Physical<P> {
    fn clone(&self) -> (r: Self)
        ensures
            r == *self,
    {
        Physical {
            num_bytes: self.num_bytes,
            phys_addr_lo: self.phys_addr_lo,
            phys_addr_hi: self.phys_addr_hi,
            _marker: PhantomData,
        }
    }
}

impl<P> Copy for Physical<P> {}

impl<P> Physical<P> {
    /// Length of the slice in bytes.
    pub closed spec fn spec_num_bytes(self) -> usize {
        self.num_bytes
    }

    /// Low part of the physical base address.
    pub closed spec fn spec_lo(self) -> usize {
        self.phys_addr_lo
    }

    /// High part of the physical base address.
    pub closed spec fn spec_hi(self) -> usize {
        self.phys_addr_hi
    }

    /// Create a physical memory slice by length and physical address.
    pub fn new(num_bytes: usize, phys_addr_lo: usize, phys_addr_hi: usize) -> (r: Self)
        ensures
            r.spec_num_bytes() == num_bytes,
            r.spec_lo() == phys_addr_lo,
            r.spec_hi() == phys_addr_hi,
    {
        Physical { num_bytes, phys_addr_lo, phys_addr_hi, _marker: PhantomData }
    }

    /// Returns length of the physical memory slice.
    pub fn num_bytes(&self) -> (r: usize)
        ensures
            r == self.spec_num_bytes(),
    {
        self.num_bytes
    }

    /// Returns low-part base address of physical memory slice.
    pub fn phys_addr_lo(&self) -> (r: usize)
        ensures
            r == self.spec_lo(),
    {
        self.phys_addr_lo
    }

    /// Returns high-part base address of physical memory slice.
    pub fn phys_addr_hi(&self) -> (r: usize)
        ensures
            r == self.spec_hi(),
    {
        self.phys_addr_hi
    }
}

} // verus!
