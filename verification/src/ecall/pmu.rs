//! Performance monitoring calls.
use crate::binary::{SbiRet, RET_ERR_NOT_SUPPORTED, RET_SUCCESS};
use crate::extensions::Pmu;
use crate::ids::{
    PMU_COUNTER_CONFIG_MATCHING, PMU_COUNTER_FW_READ, PMU_COUNTER_FW_READ_HI, PMU_COUNTER_GET_INFO,
    PMU_COUNTER_START, PMU_COUNTER_STOP, PMU_NUM_COUNTERS,
};
use crate::instance::{wide, wide_arg};
use vstd::prelude::*;

verus! {

/// Handles a call of the PMU extension and hands it to `pmu`; 64-bit
/// arguments take one register on 64-bit harts and two (low first) on
/// 32-bit ones. Each function goes to its own method of `pmu`, whose reply
/// comes back; the counter count comes back as a success; any unknown
/// function is not supported.
pub fn handle_ecall<P: Pmu>(
    pmu: &P,
    function: usize,
    param0: usize,
    param1: usize,
    param2: usize,
    param3: usize,
    param4: usize,
    param5: usize,
) -> (r: SbiRet)
    ensures
        function == PMU_NUM_COUNTERS ==> r.error == RET_SUCCESS && pmu.num_counters_reply(r.value),
        function == PMU_COUNTER_GET_INFO ==> pmu.counter_get_info_reply(param0, r),
        function == PMU_COUNTER_CONFIG_MATCHING ==> pmu.counter_config_matching_reply(
            param0,
            param1,
            param2,
            param3,
            wide_arg(param4, param5),
            r,
        ),
        function == PMU_COUNTER_START ==> pmu.counter_start_reply(
            param0,
            param1,
            param2,
            wide_arg(param3, param4),
            r,
        ),
        function == PMU_COUNTER_STOP ==> pmu.counter_stop_reply(param0, param1, param2, r),
        function == PMU_COUNTER_FW_READ ==> pmu.counter_fw_read_reply(param0, r),
        function == PMU_COUNTER_FW_READ_HI ==> pmu.counter_fw_read_hi_reply(param0, r),
        function > PMU_COUNTER_FW_READ_HI ==> r == (SbiRet { error: RET_ERR_NOT_SUPPORTED, value: 0 }),
{
    if function == PMU_NUM_COUNTERS {
        SbiRet::success(pmu.num_counters())
    } else if function == PMU_COUNTER_GET_INFO {
        pmu.counter_get_info(param0)
    } else if function == PMU_COUNTER_CONFIG_MATCHING {
        pmu.counter_config_matching(param0, param1, param2, param3, wide(param4, param5))
    } else if function == PMU_COUNTER_START {
        pmu.counter_start(param0, param1, param2, wide(param3, param4))
    } else if function == PMU_COUNTER_STOP {
        pmu.counter_stop(param0, param1, param2)
    } else if function == PMU_COUNTER_FW_READ {
        pmu.counter_fw_read(param0)
    } else if function == PMU_COUNTER_FW_READ_HI {
        pmu.counter_fw_read_hi(param0)
    } else {
        SbiRet::not_supported()
    }
}

} // verus!
