use arceboot::binary::{HartMask, SbiRet};
use arceboot::extensions::{Fence, Hsm, Ipi, Timer};
use arceboot::ids::{EID_BASE, EID_CPPC, EID_HSM, EID_PMU, EID_RFNC, EID_SPI, EID_SRST, EID_TIME};
use arceboot::instance::{decode_call, machine_info_from, BaseQuery, Builder, Extension, MachineInfo, SbiCall};

struct MockTimer;
impl Timer for MockTimer {
    fn set_timer(&self, _stime_value: u64) {}
}

struct MockIpi;
impl Ipi for MockIpi {
    fn send_ipi(&self, hart_mask: HartMask) -> SbiRet {
        let (mask, base) = hart_mask.into_inner();
        SbiRet::success(mask + base)
    }
}

struct MockFence;
impl Fence for MockFence {
    fn remote_fence_i(&self, _m: HartMask) -> SbiRet {
        SbiRet::success(1)
    }
    fn remote_sfence_vma(&self, _m: HartMask, start: usize, size: usize) -> SbiRet {
        SbiRet::success(start + size)
    }
    fn remote_sfence_vma_asid(&self, _m: HartMask, _s: usize, _z: usize, asid: usize) -> SbiRet {
        SbiRet::success(asid)
    }
    fn remote_hfence_gvma_vmid(&self, _m: HartMask, _s: usize, _z: usize, vmid: usize) -> SbiRet {
        SbiRet::success(vmid)
    }
    fn remote_hfence_gvma(&self, _m: HartMask, _s: usize, _z: usize) -> SbiRet {
        SbiRet::success(4)
    }
    fn remote_hfence_vvma_asid(&self, _m: HartMask, _s: usize, _z: usize, _a: usize) -> SbiRet {
        SbiRet::success(5)
    }
    fn remote_hfence_vvma(&self, _m: HartMask, _s: usize, _z: usize) -> SbiRet {
        SbiRet::success(6)
    }
}

struct MockHsm;
impl Hsm for MockHsm {
    fn hart_start(&self, hartid: usize, _a: usize, _o: usize) -> SbiRet {
        SbiRet::success(hartid)
    }
    fn hart_stop(&self) -> SbiRet {
        SbiRet::success(0)
    }
    fn hart_get_status(&self, _hartid: usize) -> SbiRet {
        SbiRet::success(1)
    }
    fn hart_suspend(&self, suspend_type: u32, _r: usize, _o: usize) -> SbiRet {
        SbiRet::success(suspend_type as usize)
    }
}

fn info() -> MachineInfo {
    MachineInfo { mvendorid: 0x489, marchid: 0x8000_0007, mimpid: 0x2 }
}

#[test]
fn instance_base_queries() {
    let mut sbi = Builder::with_machine_info(info()).with_timer(MockTimer).build();
    let p = [0usize; 6];
    assert_eq!(sbi.handle_ecall(EID_BASE, 0, p), SbiRet::success(0x0200_0000));
    assert_eq!(sbi.handle_ecall(EID_BASE, 1, p), SbiRet::success(4));
    assert_eq!(sbi.handle_ecall(EID_BASE, 4, p), SbiRet::success(0x489));
    assert_eq!(sbi.handle_ecall(EID_BASE, 5, p), SbiRet::success(0x8000_0007));
    assert_eq!(sbi.handle_ecall(EID_BASE, 6, p), SbiRet::success(0x2));
    assert_eq!(sbi.handle_ecall(EID_BASE, 3, [EID_TIME, 0, 0, 0, 0, 0]), SbiRet::success(1));
    assert_eq!(sbi.handle_ecall(EID_BASE, 3, [EID_SPI, 0, 0, 0, 0, 0]), SbiRet::success(0));
    assert_eq!(sbi.handle_ecall(EID_BASE, 3, [EID_BASE, 0, 0, 0, 0, 0]), SbiRet::success(1));
    assert_eq!(sbi.handle_ecall(EID_BASE, 3, [0x1234, 0, 0, 0, 0, 0]), SbiRet::success(0));
    assert_eq!(sbi.handle_ecall(EID_BASE, 7, p), SbiRet::not_supported());
}

#[test]
fn instance_absent_extension_not_supported() {
    let mut sbi = Builder::with_machine_info(info()).build();
    assert_eq!(sbi.handle_ecall(EID_SPI, 0, [1, 0, 0, 0, 0, 0]), SbiRet::not_supported());
    assert_eq!(sbi.handle_ecall(EID_HSM, 3, [usize::MAX, 0, 0, 0, 0, 0]), SbiRet::not_supported());
    assert_eq!(sbi.handle_ecall(EID_CPPC, 0, [0; 6]), SbiRet::not_supported());
    assert_eq!(sbi.handle_ecall(0x0a00_0000, 0, [0; 6]), SbiRet::not_supported());
}

#[test]
fn instance_forwards_to_extensions() {
    let mut sbi = Builder::with_machine_info(info())
        .with_timer(MockTimer)
        .with_ipi(MockIpi)
        .with_fence(MockFence)
        .with_hsm(MockHsm)
        .build();
    assert_eq!(sbi.handle_ecall(EID_TIME, 0, [100, 0, 0, 0, 0, 0]), SbiRet::success(0));
    assert_eq!(sbi.handle_ecall(EID_TIME, 1, [100, 0, 0, 0, 0, 0]), SbiRet::not_supported());
    assert_eq!(sbi.handle_ecall(EID_SPI, 0, [0b11, 8, 0, 0, 0, 0]), SbiRet::success(11));
    assert_eq!(sbi.handle_ecall(EID_RFNC, 1, [1, 0, 0x1000, 0x20, 0, 0]), SbiRet::success(0x1020));
    assert_eq!(sbi.handle_ecall(EID_RFNC, 2, [1, 0, 0, 0, 9, 0]), SbiRet::success(9));
    assert_eq!(sbi.handle_ecall(EID_RFNC, 7, [1, 0, 0, 0, 9, 0]), SbiRet::not_supported());
    assert_eq!(sbi.handle_ecall(EID_HSM, 0, [3, 0x8020_0000, 0, 0, 0, 0]), SbiRet::success(3));
    assert_eq!(sbi.handle_ecall(EID_HSM, 3, [0x8000_0000, 0, 0, 0, 0, 0]), SbiRet::success(0x8000_0000));
    assert_eq!(sbi.handle_ecall(EID_HSM, 3, [1usize << 32, 0, 0, 0, 0, 0]), SbiRet::invalid_param());
    assert_eq!(sbi.handle_ecall(EID_SRST, 0, [0, 0, 0, 0, 0, 0]), SbiRet::not_supported());
    assert_eq!(sbi.handle_ecall(EID_PMU, 0, [0; 6]), SbiRet::not_supported());
}

#[test]
fn instance_decode_calls() {
    assert_eq!(decode_call(EID_BASE, 3, [EID_PMU, 0, 0, 0, 0, 0]), SbiCall::Base(BaseQuery::ProbeExtension(EID_PMU)));
    assert_eq!(decode_call(EID_PMU, 6, [7, 0, 0, 0, 0, 0]), SbiCall::CounterFwReadHi(7));
    assert_eq!(decode_call(EID_PMU, 5, [7, 0, 0, 0, 0, 0]), SbiCall::CounterFwRead(7));
    assert_eq!(decode_call(EID_SRST, 0, [0, usize::MAX, 0, 0, 0, 0]), SbiCall::InvalidParam(Extension::Reset));
    assert_eq!(decode_call(EID_SRST, 0, [1, 0, 0, 0, 0, 0]), SbiCall::SystemReset(1, 0));
    assert_eq!(decode_call(EID_CPPC, 3, [5, 77, 0, 0, 0, 0]), SbiCall::CppcWrite(5, 77));
    assert_eq!(decode_call(0x4442434E, 2, [0x1ff, 0, 0, 0, 0, 0]), SbiCall::ConsoleWriteByte(0xff));
    assert_eq!(decode_call(0x53555350, 0, [1usize << 33, 0, 0, 0, 0, 0]), SbiCall::InvalidParam(Extension::Susp));
    assert_eq!(decode_call(EID_TIME, 0, [42, 0, 0, 0, 0, 0]), SbiCall::SetTimer(42));
}

#[test]
fn instance_machine_info_from_reads() {
    let i = machine_info_from(Some(0x489), None, Some(7));
    assert_eq!(i.mvendorid, 0x489);
    assert_eq!(i.marchid, 0);
    assert_eq!(i.mimpid, 7);
}

struct MockPmu;
impl arceboot::extensions::Pmu for MockPmu {
    fn num_counters(&self) -> usize {
        4
    }
    fn counter_get_info(&self, idx: usize) -> SbiRet {
        SbiRet::success(idx)
    }
    fn counter_config_matching(&self, _b: usize, _m: usize, _f: usize, _e: usize, data: u64) -> SbiRet {
        SbiRet::success(data as usize)
    }
    fn counter_start(&self, _b: usize, _m: usize, _f: usize, v: u64) -> SbiRet {
        SbiRet::success(v as usize)
    }
    fn counter_stop(&self, _b: usize, _m: usize, _f: usize) -> SbiRet {
        SbiRet::success(0)
    }
    fn counter_fw_read(&self, idx: usize) -> SbiRet {
        SbiRet::success(idx + 100)
    }
    fn counter_fw_read_hi(&self, idx: usize) -> SbiRet {
        SbiRet::success(idx + 200)
    }
}

#[test]
fn instance_pmu_reads_low_and_high() {
    let mut sbi = Builder::with_machine_info(info()).with_pmu(MockPmu).build();
    assert_eq!(sbi.handle_ecall(EID_PMU, 0, [0; 6]), SbiRet::success(4));
    assert_eq!(sbi.handle_ecall(EID_PMU, 5, [3, 0, 0, 0, 0, 0]), SbiRet::success(103));
    assert_eq!(sbi.handle_ecall(EID_PMU, 6, [3, 0, 0, 0, 0, 0]), SbiRet::success(203));
    assert_eq!(sbi.handle_ecall(EID_PMU, 7, [3, 0, 0, 0, 0, 0]), SbiRet::not_supported());
}
