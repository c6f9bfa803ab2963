//! Sets of harts named by a mask word and a base hart id.
use crate::binary::spec_has_bit;
use vstd::prelude::*;

verus! {

/// Hart mask structure reference: bit `i` of the mask word stands for hart
/// `base + i`; a base of `usize::MAX` stands for every hart.
#[derive(Debug, Clone, Copy)]
pub struct HartMask {
    hart_mask: usize,
    hart_mask_base: usize,
}

impl HartMask {
    /// Whether `hart_id` belongs to this mask.
    pub closed spec fn spec_contains(self, hart_id: usize) -> bool {
        spec_has_bit(self.hart_mask, self.hart_mask_base, usize::MAX, hart_id)
    }

    /// The mask with the given mask word and base hart id.
    pub closed spec fn spec_from(hart_mask: usize, hart_mask_base: usize) -> HartMask {
        HartMask { hart_mask, hart_mask_base }
    }

    /// Construct a hart mask from mask value and base hart id.
    pub fn from_mask_base(hart_mask: usize, hart_mask_base: usize) -> (r: HartMask)
        ensures
            r == HartMask::spec_from(hart_mask, hart_mask_base),
            forall|h: usize| r.spec_contains(h) == spec_has_bit(hart_mask, hart_mask_base, usize::MAX, h),
    {
        HartMask { hart_mask, hart_mask_base }
    }

    /// Check if the `hart_id` is included in this hart mask structure.
    pub fn has_bit(&self, hart_id: usize) -> (r: bool)
        ensures
            r == self.spec_contains(hart_id),
    {
        if self.hart_mask_base == usize::MAX {
            return true;
        }
        if hart_id < self.hart_mask_base {
            return false;
        }
        let idx = hart_id - self.hart_mask_base;
        if idx >= usize::BITS as usize {
            return false;
        }
        self.hart_mask & (1usize << idx) != 0
    }
}

} // verus!
