//! Remote fence calls.
use crate::binary::{HartMask, SbiRet, RET_ERR_NOT_SUPPORTED};
use crate::extensions::Fence;
use crate::ids::{
    REMOTE_FENCE_I, REMOTE_HFENCE_GVMA, REMOTE_HFENCE_GVMA_VMID, REMOTE_HFENCE_VVMA,
    REMOTE_HFENCE_VVMA_ASID, REMOTE_SFENCE_VMA, REMOTE_SFENCE_VMA_ASID,
};
use vstd::prelude::*;

verus! {

/// Handles a call of the remote fence extension: the mask is made of
/// `param0` and `param1`, the start and size come from `param2` and
/// `param3`, the address space or machine id from `param4`; the fence goes
/// to the method of `fence` for the function, whose reply comes back; an
/// unknown function is not supported.
pub fn handle_ecall<F: Fence>(
    fence: &F,
    function: usize,
    param0: usize,
    param1: usize,
    param2: usize,
    param3: usize,
    param4: usize,
) -> (r: SbiRet)
    ensures
        ({
            let m = HartMask::spec_from(param0, param1);
            &&& function == REMOTE_FENCE_I ==> fence.remote_fence_i_reply(m, r)
            &&& function == REMOTE_SFENCE_VMA ==> fence.remote_sfence_vma_reply(m, param2, param3, r)
            &&& function == REMOTE_SFENCE_VMA_ASID ==> fence.remote_sfence_vma_asid_reply(
                m,
                param2,
                param3,
                param4,
                r,
            )
            &&& function == REMOTE_HFENCE_GVMA_VMID ==> fence.remote_hfence_gvma_vmid_reply(
                m,
                param2,
                param3,
                param4,
                r,
            )
            &&& function == REMOTE_HFENCE_GVMA ==> fence.remote_hfence_gvma_reply(m, param2, param3, r)
            &&& function == REMOTE_HFENCE_VVMA_ASID ==> fence.remote_hfence_vvma_asid_reply(
                m,
                param2,
                param3,
                param4,
                r,
            )
            &&& function == REMOTE_HFENCE_VVMA ==> fence.remote_hfence_vvma_reply(m, param2, param3, r)
            &&& function > REMOTE_HFENCE_VVMA ==> r == (SbiRet { error: RET_ERR_NOT_SUPPORTED, value: 0 })
        }),
{
    let hart_mask = HartMask::from_mask_base(param0, param1);
    if function == REMOTE_FENCE_I {
        fence.remote_fence_i(hart_mask)
    } else if function == REMOTE_SFENCE_VMA {
        fence.remote_sfence_vma(hart_mask, param2, param3)
    } else if function == REMOTE_SFENCE_VMA_ASID {
        fence.remote_sfence_vma_asid(hart_mask, param2, param3, param4)
    } else if function == REMOTE_HFENCE_GVMA_VMID {
        fence.remote_hfence_gvma_vmid(hart_mask, param2, param3, param4)
    } else if function == REMOTE_HFENCE_GVMA {
        fence.remote_hfence_gvma(hart_mask, param2, param3)
    } else if function == REMOTE_HFENCE_VVMA_ASID {
        fence.remote_hfence_vvma_asid(hart_mask, param2, param3, param4)
    } else if function == REMOTE_HFENCE_VVMA {
        fence.remote_hfence_vvma(hart_mask, param2, param3)
    } else {
        SbiRet::not_supported()
    }
}

} // verus!
