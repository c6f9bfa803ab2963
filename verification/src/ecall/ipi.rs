//! Inter-processor interrupt calls.
use crate::ecall::SbiRet;
use crate::hart_mask::HartMask;
use vstd::prelude::*;

verus! {

/// Function id of sending an IPI.
pub const FUNCTION_IPI_SEND_IPI: usize = 0x0;

/// Delivers inter-processor interrupts.
pub trait IpiSender {
    /// Whether `r` is a reply the platform may give to sending an IPI to
    /// every hart of `hart_mask`.
    closed spec fn send_ipi_many_reply(&self, hart_mask: HartMask, r: SbiRet) -> bool {
        true
    }

    /// Sends an IPI to every hart of `hart_mask`.
    fn send_ipi_many(&self, hart_mask: HartMask) -> (r: SbiRet)
        ensures
            self.send_ipi_many_reply(hart_mask, r),
    ;
}

/// Handles a call of the IPI extension: sending goes to `sender` with the
/// mask made of `param0` and `param1`, and its reply comes back; any other
/// function is not supported.
pub fn handle_ecall_ipi<S: IpiSender>(sender: &S, function: usize, param0: usize, param1: usize) -> (r: SbiRet)
    ensures
        function == FUNCTION_IPI_SEND_IPI ==> sender.send_ipi_many_reply(
            HartMask::spec_from(param0, param1),
            r,
        ),
        function != FUNCTION_IPI_SEND_IPI ==> r == (SbiRet {
            error: crate::binary::RET_ERR_NOT_SUPPORTED,
            value: 0,
        }),
{
    if function == FUNCTION_IPI_SEND_IPI {
        send_ipi(sender, param0, param1)
    } else {
        SbiRet::not_supported()
    }
}

/// Sends an IPI to the harts of the mask made of `hart_mask` and
/// `hart_mask_base`, and returns the sender's reply.
fn send_ipi<S: IpiSender>(sender: &S, hart_mask: usize, hart_mask_base: usize) -> (r: SbiRet)
    ensures
        sender.send_ipi_many_reply(HartMask::spec_from(hart_mask, hart_mask_base), r),
{
    let hart_mask = HartMask::from_mask_base(hart_mask, hart_mask_base);
    sender.send_ipi_many(hart_mask)
}

} // verus!
