//! The SBI extensions a platform provides, one trait each. Each method comes
//! with a relation that the platform's impl gives meaning to: which replies
//! it may give to which arguments. The library's handlers are stated over
//! these relations, so that each call is seen to reach the method that
//! serves it, with the arguments decoded from the call, and its reply to
//! come back unchanged.
use crate::binary::{HartMask, Physical, SbiRet, RET_ERR_NOT_SUPPORTED};
use core::convert::Infallible;
use vstd::prelude::*;

verus! {

/// Timer programmer extension.
pub trait Timer {
    /// Whether the clock has been programmed for `stime_value`.
    closed spec fn sets_timer(&self, stime_value: u64) -> bool {
        true
    }

    /// Programs the clock for the next event after `stime_value` time.
    fn set_timer(&self, stime_value: u64)
        ensures
            self.sets_timer(stime_value),
    ;
}

/// Inter-processor interrupt support.
pub trait Ipi {
    /// Whether `r` is a reply the platform may give to sending an IPI to
    /// `hart_mask`.
    closed spec fn send_ipi_reply(&self, hart_mask: HartMask, r: SbiRet) -> bool {
        true
    }

    /// Sends an inter-processor interrupt to all the harts defined in
    /// `hart_mask`.
    fn send_ipi(&self, hart_mask: HartMask) -> (r: SbiRet)
        ensures
            self.send_ipi_reply(hart_mask, r),
    ;
}

impl<T: Ipi> Ipi for &T {
    open spec fn send_ipi_reply(&self, hart_mask: HartMask, r: SbiRet) -> bool {
        (**self).send_ipi_reply(hart_mask, r)
    }

    fn send_ipi(&self, hart_mask: HartMask) -> (r: SbiRet) {
        (**self).send_ipi(hart_mask)
    }
}

/// Remote fence support.
pub trait Fence {
    /// Whether `r` is a reply the platform may give to `remote_fence_i`.
    closed spec fn remote_fence_i_reply(&self, hart_mask: HartMask, r: SbiRet) -> bool {
        true
    }

    /// Instructs remote harts to execute `FENCE.I`.
    fn remote_fence_i(&self, hart_mask: HartMask) -> (r: SbiRet)
        ensures
            self.remote_fence_i_reply(hart_mask, r),
    ;

    /// Whether `r` is a reply the platform may give to `remote_sfence_vma`.
    closed spec fn remote_sfence_vma_reply(&self, hart_mask: HartMask, start_addr: usize, size: usize, r: SbiRet) -> bool {
        true
    }

    /// Instructs remote harts to execute `SFENCE.VMA` over a range.
    fn remote_sfence_vma(&self, hart_mask: HartMask, start_addr: usize, size: usize) -> (r: SbiRet)
        ensures
            self.remote_sfence_vma_reply(hart_mask, start_addr, size, r),
    ;

    /// Whether `r` is a reply the platform may give to `remote_sfence_vma_asid`.
    closed spec fn remote_sfence_vma_asid_reply(&self, hart_mask: HartMask, start_addr: usize, size: usize, asid: usize, r: SbiRet) -> bool {
        true
    }

    /// Instructs remote harts to execute `SFENCE.VMA` over a range of one
    /// address space.
    fn remote_sfence_vma_asid(&self, hart_mask: HartMask, start_addr: usize, size: usize, asid: usize) -> (r: SbiRet)
        ensures
            self.remote_sfence_vma_asid_reply(hart_mask, start_addr, size, asid, r),
    ;

    /// Whether `r` is a reply the platform may give to `remote_hfence_gvma_vmid`.
    closed spec fn remote_hfence_gvma_vmid_reply(&self, hart_mask: HartMask, start_addr: usize, size: usize, vmid: usize, r: SbiRet) -> bool {
        true
    }

    /// Instructs remote harts to execute `HFENCE.GVMA` over a range of one
    /// virtual machine.
    fn remote_hfence_gvma_vmid(&self, hart_mask: HartMask, start_addr: usize, size: usize, vmid: usize) -> (r: SbiRet)
        ensures
            self.remote_hfence_gvma_vmid_reply(hart_mask, start_addr, size, vmid, r),
    ;

    /// Whether `r` is a reply the platform may give to `remote_hfence_gvma`.
    closed spec fn remote_hfence_gvma_reply(&self, hart_mask: HartMask, start_addr: usize, size: usize, r: SbiRet) -> bool {
        true
    }

    /// Instructs remote harts to execute `HFENCE.GVMA` over a range.
    fn remote_hfence_gvma(&self, hart_mask: HartMask, start_addr: usize, size: usize) -> (r: SbiRet)
        ensures
            self.remote_hfence_gvma_reply(hart_mask, start_addr, size, r),
    ;

    /// Whether `r` is a reply the platform may give to `remote_hfence_vvma_asid`.
    closed spec fn remote_hfence_vvma_asid_reply(&self, hart_mask: HartMask, start_addr: usize, size: usize, asid: usize, r: SbiRet) -> bool {
        true
    }

    /// Instructs remote harts to execute `HFENCE.VVMA` over a range of one
    /// address space.
    fn remote_hfence_vvma_asid(&self, hart_mask: HartMask, start_addr: usize, size: usize, asid: usize) -> (r: SbiRet)
        ensures
            self.remote_hfence_vvma_asid_reply(hart_mask, start_addr, size, asid, r),
    ;

    /// Whether `r` is a reply the platform may give to `remote_hfence_vvma`.
    closed spec fn remote_hfence_vvma_reply(&self, hart_mask: HartMask, start_addr: usize, size: usize, r: SbiRet) -> bool {
        true
    }

    /// Instructs remote harts to execute `HFENCE.VVMA` over a range.
    fn remote_hfence_vvma(&self, hart_mask: HartMask, start_addr: usize, size: usize) -> (r: SbiRet)
        ensures
            self.remote_hfence_vvma_reply(hart_mask, start_addr, size, r),
    ;
}

/// Hart state management.
pub trait Hsm {
    /// Whether `r` is a reply the platform may give to `hart_start`.
    closed spec fn hart_start_reply(&self, hartid: usize, start_addr: usize, opaque: usize, r: SbiRet) -> bool {
        true
    }

    /// Starts hart `hartid` at `start_addr` with `opaque` in `a1`.
    fn hart_start(&self, hartid: usize, start_addr: usize, opaque: usize) -> (r: SbiRet)
        ensures
            self.hart_start_reply(hartid, start_addr, opaque, r),
    ;

    /// Whether `r` is a reply the platform may give to `hart_stop`.
    closed spec fn hart_stop_reply(&self, r: SbiRet) -> bool {
        true
    }

    /// Stops the calling hart.
    fn hart_stop(&self) -> (r: SbiRet)
        ensures
            self.hart_stop_reply(r),
    ;

    /// Whether `r` is a reply the platform may give to `hart_get_status`.
    closed spec fn hart_get_status_reply(&self, hartid: usize, r: SbiRet) -> bool {
        true
    }

    /// Current status of hart `hartid`.
    fn hart_get_status(&self, hartid: usize) -> (r: SbiRet)
        ensures
            self.hart_get_status_reply(hartid, r),
    ;

    /// Whether `r` is a reply the platform may give to `hart_suspend`.
    closed spec fn hart_suspend_reply(&self, suspend_type: u32, resume_addr: usize, opaque: usize, r: SbiRet) -> bool {
        true
    }

    /// Suspends the calling hart.
    fn hart_suspend(&self, suspend_type: u32, resume_addr: usize, opaque: usize) -> (r: SbiRet)
        ensures
            self.hart_suspend_reply(suspend_type, resume_addr, opaque, r),
    ;
}

/// System reset.
pub trait Reset {
    /// Whether `r` is a reply the platform may give to `system_reset`.
    closed spec fn system_reset_reply(&self, reset_type: u32, reset_reason: u32, r: SbiRet) -> bool {
        true
    }

    /// Resets the system with the given type and reason.
    fn system_reset(&self, reset_type: u32, reset_reason: u32) -> (r: SbiRet)
        ensures
            self.system_reset_reply(reset_type, reset_reason, r),
    ;
}

/// Performance monitoring unit.
pub trait Pmu {
    /// Whether `r` is a counter count the platform may report.
    closed spec fn num_counters_reply(&self, r: usize) -> bool {
        true
    }

    /// Number of counters, hardware and firmware.
    fn num_counters(&self) -> (r: usize)
        ensures
            self.num_counters_reply(r),
    ;

    /// Whether `r` is a reply the platform may give to `counter_get_info`.
    closed spec fn counter_get_info_reply(&self, counter_idx: usize, r: SbiRet) -> bool {
        true
    }

    /// Details of counter `counter_idx`.
    fn counter_get_info(&self, counter_idx: usize) -> (r: SbiRet)
        ensures
            self.counter_get_info_reply(counter_idx, r),
    ;

    /// Whether `r` is a reply the platform may give to `counter_config_matching`.
    closed spec fn counter_config_matching_reply(&self, counter_idx_base: usize, counter_idx_mask: usize, config_flags: usize, event_idx: usize, event_data: u64, r: SbiRet) -> bool {
        true
    }

    /// Finds and configures a counter that can monitor an event.
    fn counter_config_matching(&self, counter_idx_base: usize, counter_idx_mask: usize, config_flags: usize, event_idx: usize, event_data: u64) -> (r: SbiRet)
        ensures
            self.counter_config_matching_reply(counter_idx_base, counter_idx_mask, config_flags, event_idx, event_data, r),
    ;

    /// Whether `r` is a reply the platform may give to `counter_start`.
    closed spec fn counter_start_reply(&self, counter_idx_base: usize, counter_idx_mask: usize, start_flags: usize, initial_value: u64, r: SbiRet) -> bool {
        true
    }

    /// Starts counters.
    fn counter_start(&self, counter_idx_base: usize, counter_idx_mask: usize, start_flags: usize, initial_value: u64) -> (r: SbiRet)
        ensures
            self.counter_start_reply(counter_idx_base, counter_idx_mask, start_flags, initial_value, r),
    ;

    /// Whether `r` is a reply the platform may give to `counter_stop`.
    closed spec fn counter_stop_reply(&self, counter_idx_base: usize, counter_idx_mask: usize, stop_flags: usize, r: SbiRet) -> bool {
        true
    }

    /// Stops counters.
    fn counter_stop(&self, counter_idx_base: usize, counter_idx_mask: usize, stop_flags: usize) -> (r: SbiRet)
        ensures
            self.counter_stop_reply(counter_idx_base, counter_idx_mask, stop_flags, r),
    ;

    /// Whether `r` is a reply the platform may give to `counter_fw_read`.
    closed spec fn counter_fw_read_reply(&self, counter_idx: usize, r: SbiRet) -> bool {
        true
    }

    /// Reads a firmware counter.
    fn counter_fw_read(&self, counter_idx: usize) -> (r: SbiRet)
        ensures
            self.counter_fw_read_reply(counter_idx, r),
    ;

    /// Whether `r` is a reply the platform may give to `counter_fw_read_hi`.
    closed spec fn counter_fw_read_hi_reply(&self, counter_idx: usize, r: SbiRet) -> bool {
        true
    }

    /// Reads the upper bits of a firmware counter.
    fn counter_fw_read_hi(&self, counter_idx: usize) -> (r: SbiRet)
        ensures
            self.counter_fw_read_hi_reply(counter_idx, r),
    ;
}

/// Debug console.
pub trait Console {
    /// Whether `r` is a reply the platform may give to writing `num_bytes`
    /// bytes from the physical address made of `lo` and `hi`.
    closed spec fn console_write_reply(&self, num_bytes: usize, lo: usize, hi: usize, r: SbiRet) -> bool {
        true
    }

    /// Writes bytes from the given physical memory region.
    fn write(&self, bytes: Physical<&[u8]>) -> (r: SbiRet)
        ensures
            self.console_write_reply(bytes.spec_num_bytes(), bytes.spec_lo(), bytes.spec_hi(), r),
    ;

    /// Whether `r` is a reply the platform may give to reading up to
    /// `num_bytes` bytes to the physical address made of `lo` and `hi`.
    closed spec fn console_read_reply(&self, num_bytes: usize, lo: usize, hi: usize, r: SbiRet) -> bool {
        true
    }

    /// Reads bytes into the given physical memory region.
    fn read(&self, bytes: Physical<&mut [u8]>) -> (r: SbiRet)
        ensures
            self.console_read_reply(bytes.spec_num_bytes(), bytes.spec_lo(), bytes.spec_hi(), r),
    ;

    /// Whether `r` is a reply the platform may give to `write_byte`.
    closed spec fn console_write_byte_reply(&self, byte: u8, r: SbiRet) -> bool {
        true
    }

    /// Writes one byte.
    fn write_byte(&self, byte: u8) -> (r: SbiRet)
        ensures
            self.console_write_byte_reply(byte, r),
    ;
}

/// System suspend.
pub trait Susp {
    /// Whether `r` is a reply the platform may give to `system_suspend`.
    closed spec fn system_suspend_reply(&self, sleep_type: u32, resume_addr: usize, opaque: usize, r: SbiRet) -> bool {
        true
    }

    /// Suspends the system.
    fn system_suspend(&self, sleep_type: u32, resume_addr: usize, opaque: usize) -> (r: SbiRet)
        ensures
            self.system_suspend_reply(sleep_type, resume_addr, opaque, r),
    ;
}

/// Collaborative processor performance control.
pub trait Cppc {
    /// Whether `r` is a reply the platform may give to `probe`.
    closed spec fn cppc_probe_reply(&self, reg_id: u32, r: SbiRet) -> bool {
        true
    }

    /// Whether register `reg_id` is implemented; its width when it is.
    fn probe(&self, reg_id: u32) -> (r: SbiRet)
        ensures
            self.cppc_probe_reply(reg_id, r),
    ;

    /// Whether `r` is a reply the platform may give to `read`.
    closed spec fn cppc_read_reply(&self, reg_id: u32, r: SbiRet) -> bool {
        true
    }

    /// Reads register `reg_id`.
    fn read(&self, reg_id: u32) -> (r: SbiRet)
        ensures
            self.cppc_read_reply(reg_id, r),
    ;

    /// Whether `r` is a reply the platform may give to `read_hi`.
    closed spec fn cppc_read_hi_reply(&self, reg_id: u32, r: SbiRet) -> bool {
        true
    }

    /// Reads the upper half of register `reg_id`.
    fn read_hi(&self, reg_id: u32) -> (r: SbiRet)
        ensures
            self.cppc_read_hi_reply(reg_id, r),
    ;

    /// Whether `r` is a reply the platform may give to `write`.
    closed spec fn cppc_write_reply(&self, reg_id: u32, val: u64, r: SbiRet) -> bool {
        true
    }

    /// Writes `val` to register `reg_id`.
    fn write(&self, reg_id: u32, val: u64) -> (r: SbiRet)
        ensures
            self.cppc_write_reply(reg_id, val, r),
    ;
}

impl<T: Cppc> Cppc for &T {
    open spec fn cppc_probe_reply(&self, reg_id: u32, r: SbiRet) -> bool {
        (**self).cppc_probe_reply(reg_id, r)
    }

    fn probe(&self, reg_id: u32) -> (r: SbiRet) {
        (**self).probe(reg_id)
    }

    open spec fn cppc_read_reply(&self, reg_id: u32, r: SbiRet) -> bool {
        (**self).cppc_read_reply(reg_id, r)
    }

    fn read(&self, reg_id: u32) -> (r: SbiRet) {
        (**self).read(reg_id)
    }

    open spec fn cppc_read_hi_reply(&self, reg_id: u32, r: SbiRet) -> bool {
        (**self).cppc_read_hi_reply(reg_id, r)
    }

    fn read_hi(&self, reg_id: u32) -> (r: SbiRet) {
        (**self).read_hi(reg_id)
    }

    open spec fn cppc_write_reply(&self, reg_id: u32, val: u64, r: SbiRet) -> bool {
        (**self).cppc_write_reply(reg_id, val, r)
    }

    fn write(&self, reg_id: u32, val: u64) -> (r: SbiRet) {
        (**self).write(reg_id, val)
    }
}

// `Infallible` stands for an extension that is absent: it has no values, so
// none of the methods below can ever be called. Each states the reply its
// body gives all the same.
impl Timer for Infallible {
    open spec fn sets_timer(&self, _stime_value: u64) -> bool {
        true
    }

    fn set_timer(&self, _stime_value: u64) {
    }
}

impl Ipi for Infallible {
    open spec fn send_ipi_reply(&self, _hart_mask: HartMask, r: SbiRet) -> bool {
        r == (SbiRet { error: RET_ERR_NOT_SUPPORTED, value: 0 })
    }

    fn send_ipi(&self, _hart_mask: HartMask) -> (r: SbiRet) {
        SbiRet::not_supported()
    }
}

impl Fence for Infallible {
    open spec fn remote_fence_i_reply(&self, _hart_mask: HartMask, r: SbiRet) -> bool {
        r == (SbiRet { error: RET_ERR_NOT_SUPPORTED, value: 0 })
    }

    fn remote_fence_i(&self, _hart_mask: HartMask) -> (r: SbiRet) {
        SbiRet::not_supported()
    }

    open spec fn remote_sfence_vma_reply(&self, _hart_mask: HartMask, _start_addr: usize, _size: usize, r: SbiRet) -> bool {
        r == (SbiRet { error: RET_ERR_NOT_SUPPORTED, value: 0 })
    }

    fn remote_sfence_vma(&self, _hart_mask: HartMask, _start_addr: usize, _size: usize) -> (r: SbiRet) {
        SbiRet::not_supported()
    }

    open spec fn remote_sfence_vma_asid_reply(&self, _hart_mask: HartMask, _start_addr: usize, _size: usize, _asid: usize, r: SbiRet) -> bool {
        r == (SbiRet { error: RET_ERR_NOT_SUPPORTED, value: 0 })
    }

    fn remote_sfence_vma_asid(&self, _hart_mask: HartMask, _start_addr: usize, _size: usize, _asid: usize) -> (r: SbiRet) {
        SbiRet::not_supported()
    }

    open spec fn remote_hfence_gvma_vmid_reply(&self, _hart_mask: HartMask, _start_addr: usize, _size: usize, _vmid: usize, r: SbiRet) -> bool {
        r == (SbiRet { error: RET_ERR_NOT_SUPPORTED, value: 0 })
    }

    fn remote_hfence_gvma_vmid(&self, _hart_mask: HartMask, _start_addr: usize, _size: usize, _vmid: usize) -> (r: SbiRet) {
        SbiRet::not_supported()
    }

    open spec fn remote_hfence_gvma_reply(&self, _hart_mask: HartMask, _start_addr: usize, _size: usize, r: SbiRet) -> bool {
        r == (SbiRet { error: RET_ERR_NOT_SUPPORTED, value: 0 })
    }

    fn remote_hfence_gvma(&self, _hart_mask: HartMask, _start_addr: usize, _size: usize) -> (r: SbiRet) {
        SbiRet::not_supported()
    }

    open spec fn remote_hfence_vvma_asid_reply(&self, _hart_mask: HartMask, _start_addr: usize, _size: usize, _asid: usize, r: SbiRet) -> bool {
        r == (SbiRet { error: RET_ERR_NOT_SUPPORTED, value: 0 })
    }

    fn remote_hfence_vvma_asid(&self, _hart_mask: HartMask, _start_addr: usize, _size: usize, _asid: usize) -> (r: SbiRet) {
        SbiRet::not_supported()
    }

    open spec fn remote_hfence_vvma_reply(&self, _hart_mask: HartMask, _start_addr: usize, _size: usize, r: SbiRet) -> bool {
        r == (SbiRet { error: RET_ERR_NOT_SUPPORTED, value: 0 })
    }

    fn remote_hfence_vvma(&self, _hart_mask: HartMask, _start_addr: usize, _size: usize) -> (r: SbiRet) {
        SbiRet::not_supported()
    }
}

impl Hsm for Infallible {
    open spec fn hart_start_reply(&self, _hartid: usize, _start_addr: usize, _opaque: usize, r: SbiRet) -> bool {
        r == (SbiRet { error: RET_ERR_NOT_SUPPORTED, value: 0 })
    }

    fn hart_start(&self, _hartid: usize, _start_addr: usize, _opaque: usize) -> (r: SbiRet) {
        SbiRet::not_supported()
    }

    open spec fn hart_stop_reply(&self, r: SbiRet) -> bool {
        r == (SbiRet { error: RET_ERR_NOT_SUPPORTED, value: 0 })
    }

    fn hart_stop(&self) -> (r: SbiRet) {
        SbiRet::not_supported()
    }

    open spec fn hart_get_status_reply(&self, _hartid: usize, r: SbiRet) -> bool {
        r == (SbiRet { error: RET_ERR_NOT_SUPPORTED, value: 0 })
    }

    fn hart_get_status(&self, _hartid: usize) -> (r: SbiRet) {
        SbiRet::not_supported()
    }

    open spec fn hart_suspend_reply(&self, _suspend_type: u32, _resume_addr: usize, _opaque: usize, r: SbiRet) -> bool {
        r == (SbiRet { error: RET_ERR_NOT_SUPPORTED, value: 0 })
    }

    fn hart_suspend(&self, _suspend_type: u32, _resume_addr: usize, _opaque: usize) -> (r: SbiRet) {
        SbiRet::not_supported()
    }
}

impl Reset for Infallible {
    open spec fn system_reset_reply(&self, _reset_type: u32, _reset_reason: u32, r: SbiRet) -> bool {
        r == (SbiRet { error: RET_ERR_NOT_SUPPORTED, value: 0 })
    }

    fn system_reset(&self, _reset_type: u32, _reset_reason: u32) -> (r: SbiRet) {
        SbiRet::not_supported()
    }
}

impl Pmu for Infallible {
    open spec fn num_counters_reply(&self, r: usize) -> bool {
        r == 0
    }

    fn num_counters(&self) -> (r: usize) {
        0
    }

    open spec fn counter_get_info_reply(&self, _counter_idx: usize, r: SbiRet) -> bool {
        r == (SbiRet { error: RET_ERR_NOT_SUPPORTED, value: 0 })
    }

    fn counter_get_info(&self, _counter_idx: usize) -> (r: SbiRet) {
        SbiRet::not_supported()
    }

    open spec fn counter_config_matching_reply(&self, _counter_idx_base: usize, _counter_idx_mask: usize, _config_flags: usize, _event_idx: usize, _event_data: u64, r: SbiRet) -> bool {
        r == (SbiRet { error: RET_ERR_NOT_SUPPORTED, value: 0 })
    }

    fn counter_config_matching(&self, _counter_idx_base: usize, _counter_idx_mask: usize, _config_flags: usize, _event_idx: usize, _event_data: u64) -> (r: SbiRet) {
        SbiRet::not_supported()
    }

    open spec fn counter_start_reply(&self, _counter_idx_base: usize, _counter_idx_mask: usize, _start_flags: usize, _initial_value: u64, r: SbiRet) -> bool {
        r == (SbiRet { error: RET_ERR_NOT_SUPPORTED, value: 0 })
    }

    fn counter_start(&self, _counter_idx_base: usize, _counter_idx_mask: usize, _start_flags: usize, _initial_value: u64) -> (r: SbiRet) {
        SbiRet::not_supported()
    }

    open spec fn counter_stop_reply(&self, _counter_idx_base: usize, _counter_idx_mask: usize, _stop_flags: usize, r: SbiRet) -> bool {
        r == (SbiRet { error: RET_ERR_NOT_SUPPORTED, value: 0 })
    }

    fn counter_stop(&self, _counter_idx_base: usize, _counter_idx_mask: usize, _stop_flags: usize) -> (r: SbiRet) {
        SbiRet::not_supported()
    }

    open spec fn counter_fw_read_reply(&self, _counter_idx: usize, r: SbiRet) -> bool {
        r == (SbiRet { error: RET_ERR_NOT_SUPPORTED, value: 0 })
    }

    fn counter_fw_read(&self, _counter_idx: usize) -> (r: SbiRet) {
        SbiRet::not_supported()
    }

    open spec fn counter_fw_read_hi_reply(&self, _counter_idx: usize, r: SbiRet) -> bool {
        r == (SbiRet { error: RET_ERR_NOT_SUPPORTED, value: 0 })
    }

    fn counter_fw_read_hi(&self, _counter_idx: usize) -> (r: SbiRet) {
        SbiRet::not_supported()
    }
}

impl Console for Infallible {
    open spec fn console_write_reply(&self, _num_bytes: usize, _lo: usize, _hi: usize, r: SbiRet) -> bool {
        r == (SbiRet { error: RET_ERR_NOT_SUPPORTED, value: 0 })
    }

    fn write(&self, _bytes: Physical<&[u8]>) -> (r: SbiRet) {
        SbiRet::not_supported()
    }

    open spec fn console_read_reply(&self, _num_bytes: usize, _lo: usize, _hi: usize, r: SbiRet) -> bool {
        r == (SbiRet { error: RET_ERR_NOT_SUPPORTED, value: 0 })
    }

    fn read(&self, _bytes: Physical<&mut [u8]>) -> (r: SbiRet) {
        SbiRet::not_supported()
    }

    open spec fn console_write_byte_reply(&self, _byte: u8, r: SbiRet) -> bool {
        r == (SbiRet { error: RET_ERR_NOT_SUPPORTED, value: 0 })
    }

    fn write_byte(&self, _byte: u8) -> (r: SbiRet) {
        SbiRet::not_supported()
    }
}

impl Susp for Infallible {
    open spec fn system_suspend_reply(&self, _sleep_type: u32, _resume_addr: usize, _opaque: usize, r: SbiRet) -> bool {
        r == (SbiRet { error: RET_ERR_NOT_SUPPORTED, value: 0 })
    }

    fn system_suspend(&self, _sleep_type: u32, _resume_addr: usize, _opaque: usize) -> (r: SbiRet) {
        SbiRet::not_supported()
    }
}

impl Cppc for Infallible {
    open spec fn cppc_probe_reply(&self, _reg_id: u32, r: SbiRet) -> bool {
        r == (SbiRet { error: RET_ERR_NOT_SUPPORTED, value: 0 })
    }

    fn probe(&self, _reg_id: u32) -> (r: SbiRet) {
        SbiRet::not_supported()
    }

    open spec fn cppc_read_reply(&self, _reg_id: u32, r: SbiRet) -> bool {
        r == (SbiRet { error: RET_ERR_NOT_SUPPORTED, value: 0 })
    }

    fn read(&self, _reg_id: u32) -> (r: SbiRet) {
        SbiRet::not_supported()
    }

    open spec fn cppc_read_hi_reply(&self, _reg_id: u32, r: SbiRet) -> bool {
        r == (SbiRet { error: RET_ERR_NOT_SUPPORTED, value: 0 })
    }

    fn read_hi(&self, _reg_id: u32) -> (r: SbiRet) {
        SbiRet::not_supported()
    }

    open spec fn cppc_write_reply(&self, _reg_id: u32, _val: u64, r: SbiRet) -> bool {
        r == (SbiRet { error: RET_ERR_NOT_SUPPORTED, value: 0 })
    }

    fn write(&self, _reg_id: u32, _val: u64) -> (r: SbiRet) {
        SbiRet::not_supported()
    }
}

} // verus!
