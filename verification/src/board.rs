//! Board decisions: what a system reset request does on the SiFive test
//! device.
use crate::binary::{SbiRet, RET_ERR_INVALID_PARAM};
use vstd::prelude::*;

verus! {

/// Reset type: shut down.
pub const RESET_TYPE_SHUTDOWN: u32 = 0;
/// Reset type: cold reboot.
pub const RESET_TYPE_COLD_REBOOT: u32 = 1;
/// Reset type: warm reboot.
pub const RESET_TYPE_WARM_REBOOT: u32 = 2;
/// Reset reason: none.
pub const RESET_REASON_NO_REASON: u32 = 0;
/// Reset reason: system failure.
pub const RESET_REASON_SYSTEM_FAILURE: u32 = 1;

/// What the test device is told to do.
#[derive(Clone, Copy, Debug, PartialEq, Eq, Structural)]
pub enum ResetAction {
    /// Exit with success.
    Pass,
    /// Exit with failure code.
    Fail(u16),
    /// Reset the machine.
    Reset,
    /// Refuse the request.
    Refuse(SbiRet),
}

/// The action for a reset request: a shutdown passes with no reason and
/// fails otherwise (code `0xffff` for a system failure, the reason's low 16
/// bits for any other); a cold or warm reboot resets; any other type is an
/// invalid parameter.
pub open spec fn spec_reset_action(reset_type: u32, reset_reason: u32) -> ResetAction {
    if reset_type == RESET_TYPE_SHUTDOWN {
        if reset_reason == RESET_REASON_NO_REASON {
            ResetAction::Pass
        } else if reset_reason == RESET_REASON_SYSTEM_FAILURE {
            ResetAction::Fail(0xffff)
        } else {
            ResetAction::Fail((reset_reason % 0x10000) as u16)
        }
    } else if reset_type == RESET_TYPE_COLD_REBOOT || reset_type == RESET_TYPE_WARM_REBOOT {
        ResetAction::Reset
    } else {
        ResetAction::Refuse(SbiRet { error: RET_ERR_INVALID_PARAM, value: 0 })
    }
}

/// Decides what a system reset request does (see `spec_reset_action`).
pub fn reset_action(reset_type: u32, reset_reason: u32) -> (r: ResetAction)
    ensures
        r == spec_reset_action(reset_type, reset_reason),
{
    if reset_type == RESET_TYPE_SHUTDOWN {
        if reset_reason == RESET_REASON_NO_REASON {
            ResetAction::Pass
        } else if reset_reason == RESET_REASON_SYSTEM_FAILURE {
            ResetAction::Fail(0xffff)
        } else {
            let low = reset_reason & 0xffff;
            assert(low == reset_reason % 0x10000) by (bit_vector)
                requires
                    low == reset_reason & 0xffff,
            ;
            ResetAction::Fail(low as u16)
        }
    } else if reset_type == RESET_TYPE_COLD_REBOOT || reset_type == RESET_TYPE_WARM_REBOOT {
        ResetAction::Reset
    } else {
        ResetAction::Refuse(SbiRet::invalid_param())
    }
}

} // verus!
