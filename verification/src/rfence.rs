//! Remote fences: the request each hart finds in its cell, and which harts
//! a fence request is sent to.
use crate::binary::{HartMask, IGNORE_MASK};
use vstd::prelude::*;

verus! {

/// Kind of a remote fence.
#[derive(Clone, Copy, Debug, PartialEq, Eq, Structural)]
pub enum RFenceType {
    /// `FENCE.I`.
    FenceI,
    /// `SFENCE.VMA`.
    SFenceVma,
    /// `SFENCE.VMA` with an address space id.
    SFenceVmaAsid,
    /// `HFENCE.GVMA` with a virtual machine id.
    HFenceGvmaVmid,
    /// `HFENCE.GVMA`.
    HFenceGvma,
    /// `HFENCE.VVMA` with an address space id.
    HFenceVvmaAsid,
    /// `HFENCE.VVMA`.
    HFenceVvma,
}

/// A remote fence request.
#[derive(Clone, Copy, Debug, PartialEq, Eq, Structural)]
pub struct RFenceCTX {
    /// Start of the address range.
    pub start_addr: usize,
    /// Size of the address range.
    pub size: usize,
    /// Address space id.
    pub asid: usize,
    /// Virtual machine id.
    pub vmid: usize,
    /// Kind of fence.
    pub op: RFenceType,
}

/// A hart's pending fence request, and whether it has caught up with it.
pub struct RFenceCell {
    inner: Option<RFenceCTX>,
    sync: bool,
}

impl RFenceCell {
    /// The pending request.
    pub closed spec fn spec_ctx(self) -> Option<RFenceCTX> {
        self.inner
    }

    /// Whether the hart has caught up.
    pub closed spec fn spec_sync(self) -> bool {
        self.sync
    }

    /// A cell with no request.
    pub fn new() -> (r: Self)
        ensures
            r.spec_ctx() is None,
            !r.spec_sync(),
    {
        RFenceCell { inner: None, sync: false }
    }

    /// On the hart itself: drops the request and records that it caught up.
    pub fn sync(&mut self)
        ensures
            final(self).spec_ctx() is None,
            final(self).spec_sync(),
    {
        self.inner = None;
        self.sync = true;
    }

    /// The pending request.
    pub fn get(&self) -> (r: Option<RFenceCTX>)
        ensures
            r == self.spec_ctx(),
    {
        self.inner
    }

    /// Leaves request `ctx` for the hart, which has not caught up with it yet.
    pub fn set(&mut self, ctx: RFenceCTX)
        ensures
            final(self).spec_ctx() == Some(ctx),
            !final(self).spec_sync(),
    {
        self.inner = Some(ctx);
        self.sync = false;
    }

    /// Whether the hart has caught up.
    pub fn is_sync(&self) -> (r: bool)
        ensures
            r == self.spec_sync(),
    {
        self.sync
    }
}

/// The mask after removing `hart_id` from `hart_mask`. A mask that stands
/// for every hart becomes a mask based at zero; a hart outside the mask's
/// window leaves it unchanged; otherwise the bit numbered `hart_id` (not
/// `hart_id` minus the base) is cleared in the mask word.
pub open spec fn cleared(hart_mask: HartMask, hart_id: usize) -> HartMask {
    let mask = hart_mask.spec_mask();
    let base = hart_mask.spec_base();
    if base == IGNORE_MASK {
        HartMask::spec_from(mask & !(1usize << hart_id), 0)
    } else if hart_id < base || hart_id - base >= usize::BITS {
        hart_mask
    } else {
        HartMask::spec_from(mask & !(1usize << hart_id), base)
    }
}

/// Whether `hart_mask_clear` runs to the end: when it clears a bit, the bit
/// number `hart_id` is below the word width.
pub open spec fn clear_fits(hart_mask: HartMask, hart_id: usize) -> bool {
    let base = hart_mask.spec_base();
    (base == IGNORE_MASK || (hart_id >= base && hart_id - base < usize::BITS)) ==> hart_id
        < usize::BITS
}

/// Removes `hart_id` from `hart_mask` (see `cleared`).
pub fn hart_mask_clear(hart_mask: HartMask, hart_id: usize) -> (r: HartMask)
    requires
        clear_fits(hart_mask, hart_id),
    ensures
        r == cleared(hart_mask, hart_id),
{
    let (mask, mask_base) = hart_mask.into_inner();
    if mask_base == IGNORE_MASK {
        return HartMask::from_mask_base(mask & !(1usize << hart_id), 0);
    }
    if hart_id < mask_base {
        return hart_mask;
    }
    let idx = hart_id - mask_base;
    if idx >= usize::BITS as usize {
        return hart_mask;
    }
    HartMask::from_mask_base(mask & !(1usize << hart_id), mask_base)
}

} // verus!

verus! {

/// The IPI mask after looking at harts `0..k`: starting from `start`, each
/// hart of `hart_mask` that cannot take an IPI is removed.
pub open spec fn ipi_mask_after(hart_mask: HartMask, start: HartMask, allow_ipi: Seq<bool>, k: int) -> HartMask
    decreases k,
{
    if k <= 0 {
        start
    } else {
        let prev = ipi_mask_after(hart_mask, start, allow_ipi, k - 1);
        let h = (k - 1) as usize;
        if hart_mask.spec_contains(h) && !allow_ipi[k - 1] {
            cleared(prev, h)
        } else {
            prev
        }
    }
}

/// The harts among `0..k` that get the request: those of `hart_mask` that can
/// take an IPI, in increasing order.
pub open spec fn notified(hart_mask: HartMask, allow_ipi: Seq<bool>, k: int) -> Seq<usize>
    decreases k,
{
    if k <= 0 {
        Seq::empty()
    } else {
        let prev = notified(hart_mask, allow_ipi, k - 1);
        let h = (k - 1) as usize;
        if hart_mask.spec_contains(h) && allow_ipi[k - 1] {
            prev.push(h)
        } else {
            prev
        }
    }
}

/// What a remote fence request over `hart_mask`, made on hart `current`,
/// does: which harts get the request, which get an IPI, and whether the
/// current hart runs the fence itself.
pub struct FencePlan {
    /// Harts whose cell gets the request.
    pub notify: Vec<usize>,
    /// Harts sent an IPI.
    pub ipi_mask: HartMask,
    /// Whether the current hart is in the mask and fences locally.
    pub local: bool,
}

/// Whether clearing the harts of `hart_mask` that cannot take an IPI runs to
/// the end: in a mask that does not ignore its word, every such hart among
/// the first `allow_ipi.len()` has an id below the word width.
pub open spec fn refusals_fit(hart_mask: HartMask, allow_ipi: Seq<bool>) -> bool {
    hart_mask.spec_base() != IGNORE_MASK ==> forall|h: int|
        usize::BITS <= h < allow_ipi.len() && #[trigger] hart_mask.spec_contains(h as usize)
            ==> allow_ipi[h]
}

/// Clearing a hart from a mask that does not ignore its word keeps its
/// base; clearing from one that does gives a mask based at zero.
pub proof fn lemma_cleared_base(m: HartMask, hart_id: usize)
    ensures
        cleared(m, hart_id).spec_base() == if m.spec_base() == IGNORE_MASK {
            0
        } else {
            m.spec_base()
        },
{
    crate::binary::lemma_spec_from_fields(m.spec_mask() & !(1usize << hart_id), 0);
    crate::binary::lemma_spec_from_fields(m.spec_mask() & !(1usize << hart_id), m.spec_base());
}

/// Plans a remote fence request over `hart_mask` from hart `current`;
/// `allow_ipi[h]` tells whether hart `h` can take an IPI. The request goes to
/// every hart of the mask that can take an IPI; the IPI mask is the request's
/// mask without the current hart and without the harts that cannot take
/// one; the current hart fences itself when it is in the mask.
pub fn plan_remote_fence(hart_mask: HartMask, current: usize, allow_ipi: &[bool]) -> (r: FencePlan)
    requires
        clear_fits(hart_mask, current),
        refusals_fit(hart_mask, allow_ipi@),
    ensures
        r.notify@ == notified(hart_mask, allow_ipi@, allow_ipi@.len() as int),
        r.ipi_mask == ipi_mask_after(hart_mask, cleared(hart_mask, current), allow_ipi@, allow_ipi@.len() as int),
        r.local == hart_mask.spec_contains(current),
{
    let start = hart_mask_clear(hart_mask, current);
    proof {
        lemma_cleared_base(hart_mask, current);
    }
    let mut ipi_mask = start;
    let mut notify: Vec<usize> = Vec::new();
    let n = allow_ipi.len();
    let mut h: usize = 0;
    while h < n
        invariant
            h <= n,
            n == allow_ipi@.len(),
            refusals_fit(hart_mask, allow_ipi@),
            start == cleared(hart_mask, current),
            ipi_mask.spec_base() == if hart_mask.spec_base() == IGNORE_MASK {
                0
            } else {
                hart_mask.spec_base()
            },
            ipi_mask == ipi_mask_after(hart_mask, start, allow_ipi@, h as int),
            notify@ == notified(hart_mask, allow_ipi@, h as int),
        decreases n - h,
    {
        if hart_mask.has_bit(h) {
            if allow_ipi[h] {
                notify.push(h);
            } else {
                proof {
                    lemma_cleared_base(ipi_mask, h);
                    if hart_mask.spec_base() != IGNORE_MASK && h >= usize::BITS {
                        assert(hart_mask.spec_contains((h as int) as usize));
                        assert(allow_ipi@[h as int]);
                    }
                }
                ipi_mask = hart_mask_clear(ipi_mask, h);
            }
        }
        h += 1;
    }
    FencePlan { notify, ipi_mask, local: hart_mask.has_bit(current) }
}

} // verus!

verus! {

/// Clearing a hart from a mask removes it: afterwards the mask does not hold
/// it. This fails only for a mask based above zero that holds the hart, as
/// the bit cleared is the one numbered by the hart id, not the hart's place
/// in the mask.
pub proof fn lemma_clear_removes_hart(m: HartMask, hart_id: usize)
    requires
        clear_fits(m, hart_id),
        m.spec_base() == 0 || m.spec_base() == IGNORE_MASK || !m.spec_contains(hart_id),
    ensures
        !cleared(m, hart_id).spec_contains(hart_id),
{
    let mask = m.spec_mask();
    let base = m.spec_base();
    let nm = mask & !(1usize << hart_id);
    if base == IGNORE_MASK {
        crate::binary::lemma_spec_from_fields(nm, 0);
        assert(nm & (1usize << hart_id) == 0) by (bit_vector)
            requires
                nm == mask & !(1usize << hart_id),
                hart_id < usize::BITS,
        ;
    } else if hart_id < base || hart_id - base >= usize::BITS {
    } else {
        crate::binary::lemma_spec_from_fields(nm, base);
        let k = (hart_id - base) as usize;
        if base == 0 {
            assert(nm & (1usize << hart_id) == 0) by (bit_vector)
                requires
                    nm == mask & !(1usize << hart_id),
                    hart_id < usize::BITS,
            ;
        } else {
            assert(nm & (1usize << k) == 0) by (bit_vector)
                requires
                    nm == mask & !(1usize << hart_id),
                    mask & (1usize << k) == 0,
            ;
        }
    }
}

/// Clearing a hart from a mask keeps every other hart's membership. This
/// fails only where the mask ignores its word (it then becomes the word
/// based at zero, which need not hold every other hart) and for a mask
/// based above zero whose hart at the place numbered by the cleared hart id
/// is held (that hart is the one removed).
pub proof fn lemma_clear_keeps_others(m: HartMask, hart_id: usize, other: usize)
    requires
        clear_fits(m, hart_id),
        other != hart_id,
        m.spec_base() == IGNORE_MASK ==> other < usize::BITS && m.spec_mask() & (1usize << other) != 0,
        !(m.spec_base() != IGNORE_MASK && 0 < m.spec_base() <= hart_id && hart_id - m.spec_base()
            < usize::BITS && other == hart_id + m.spec_base() && m.spec_contains(other)),
    ensures
        cleared(m, hart_id).spec_contains(other) == m.spec_contains(other),
{
    let mask = m.spec_mask();
    let base = m.spec_base();
    let nm = mask & !(1usize << hart_id);
    if base == IGNORE_MASK {
        crate::binary::lemma_spec_from_fields(nm, 0);
        assert(nm & (1usize << other) != 0) by (bit_vector)
            requires
                nm == mask & !(1usize << hart_id),
                hart_id < usize::BITS,
                other < usize::BITS,
                other != hart_id,
                mask & (1usize << other) != 0,
        ;
    } else if hart_id < base || hart_id - base >= usize::BITS {
    } else {
        crate::binary::lemma_spec_from_fields(nm, base);
        if other < base || other - base >= usize::BITS {
        } else {
            let k = (other - base) as usize;
            if k != hart_id {
                assert((nm & (1usize << k) != 0) == (mask & (1usize << k) != 0)) by (bit_vector)
                    requires
                        nm == mask & !(1usize << hart_id),
                        hart_id < usize::BITS,
                        k < usize::BITS,
                        k != hart_id,
                ;
            } else {
                assert(nm & (1usize << k) == 0) by (bit_vector)
                    requires
                        nm == mask & !(1usize << hart_id),
                        mask & (1usize << k) == 0,
                ;
            }
        }
    }
}

} // verus!
