use arceboot::binary::HartMask as SpecHartMask;
use arceboot::binary::SbiRet as SpecSbiRet;
use arceboot::ecall::ipi::{handle_ecall_ipi, IpiSender};
use arceboot::ecall::{handle_ecall, pmu, rfnc, route_ecall, EcallEnv, EcallRoute, SbiRet};
use arceboot::extensions::{Fence, Pmu};
use arceboot::instance::{Builder, MachineInfo};
use arceboot::hart_mask::HartMask;

struct Env {
    putchars: Vec<usize>,
    timer: Option<u64>,
}

impl EcallEnv for Env {
    fn set_timer(&mut self, stime_value: u64) -> SbiRet {
        self.timer = Some(stime_value);
        SbiRet::ok(0)
    }
    fn console_putchar(&mut self, ch: usize) -> SbiRet {
        self.putchars.push(ch);
        SbiRet::ok(0)
    }
    fn console_getchar(&mut self) -> SbiRet {
        SbiRet { error: b'x' as usize, value: 0 }
    }
    fn send_ipi(&mut self, _hart_mask_addr: usize) -> SbiRet {
        SbiRet::ok(0)
    }
    fn shutdown(&mut self) -> SbiRet {
        SbiRet::failed()
    }
}

fn info() -> MachineInfo {
    MachineInfo { mvendorid: 1, marchid: 2, mimpid: 3 }
}

#[test]
fn ecall_legacy_keeps_registers() {
    let mut sbi = Builder::with_machine_info(info()).build();
    let mut env = Env { putchars: Vec::new(), timer: None };
    let r = handle_ecall(&mut sbi, &mut env, 1, 0, [b'A' as usize, 77, 0, 0, 0, 0]);
    assert!(r == SbiRet { error: b'A' as usize, value: 77 });
    assert_eq!(env.putchars, vec![b'A' as usize]);
    let r = handle_ecall(&mut sbi, &mut env, 0, 0, [500, 9, 0, 0, 0, 0]);
    assert!(r == SbiRet { error: 500, value: 9 });
    assert_eq!(env.timer, Some(500));
    let r = handle_ecall(&mut sbi, &mut env, 2, 0, [0, 66, 0, 0, 0, 0]);
    assert!(r == SbiRet { error: b'x' as usize, value: 66 });
    let r = handle_ecall(&mut sbi, &mut env, 8, 0, [3, 4, 0, 0, 0, 0]);
    assert!(r == SbiRet { error: 3, value: 4 });
}

#[test]
fn ecall_refuses_bad_identifiers() {
    let mut sbi = Builder::with_machine_info(info()).build();
    let mut env = Env { putchars: Vec::new(), timer: None };
    let r = handle_ecall(&mut sbi, &mut env, 0x10, 1usize << 40, [0; 6]);
    assert!(r == SbiRet::not_supported());
    let r = handle_ecall(&mut sbi, &mut env, 1usize << 40, 0, [0; 6]);
    assert!(r == SbiRet::not_supported());
    let r = handle_ecall(&mut sbi, &mut env, 5, 0, [0; 6]);
    assert!(r == SbiRet::not_supported());
    // Standard calls go to the instance: the base extension probes itself,
    // an absent extension is not supported.
    let r = handle_ecall(&mut sbi, &mut env, 0x10, 3, [0x10, 0, 0, 0, 0, 0]);
    assert!(r == SbiRet::ok(1));
    let r = handle_ecall(&mut sbi, &mut env, 0x10, 3, [0x735049, 0, 0, 0, 0, 0]);
    assert!(r == SbiRet::ok(0));
    let r = handle_ecall(&mut sbi, &mut env, 0x10, 4, [0; 6]);
    assert!(r == SbiRet::ok(1));
    let r = handle_ecall(&mut sbi, &mut env, 0x735049, 0, [1, 0, 0, 0, 0, 0]);
    assert!(r == SbiRet::not_supported());
    assert!(env.putchars.is_empty() && env.timer.is_none());
    assert!(route_ecall(0x4442434E, 0, [0; 6]) == EcallRoute::Refused);
    assert!(route_ecall(0x735049, 0, [0; 6]) == EcallRoute::Standard(0));
}

#[test]
fn ecall_sbi_ret_constructors() {
    assert!(SbiRet::ok(3) == SbiRet { error: 0, value: 3 });
    assert_eq!(SbiRet::failed().error, usize::MAX);
    assert_eq!(SbiRet::invalid_param().error, usize::MAX - 2);
    assert_eq!(SbiRet::invalid_address().error, usize::MAX - 4);
    assert_eq!(SbiRet::already_available().error, usize::MAX - 5);
    assert_eq!(SbiRet::already_started().error, usize::MAX - 6);
    assert_eq!(SbiRet::already_stopped().error, usize::MAX - 7);
}

struct Sender;
impl IpiSender for Sender {
    fn send_ipi_many(&self, hart_mask: HartMask) -> SbiRet {
        SbiRet::ok(if hart_mask.has_bit(2) { 1 } else { 0 })
    }
}

#[test]
fn ecall_ipi_handler() {
    assert!(handle_ecall_ipi(&Sender, 0, 0b100, 0) == SbiRet::ok(1));
    assert!(handle_ecall_ipi(&Sender, 0, 0b1, 0) == SbiRet::ok(0));
    assert!(handle_ecall_ipi(&Sender, 1, 0b100, 0) == SbiRet::not_supported());
}

struct Counters;
impl Pmu for Counters {
    fn num_counters(&self) -> usize {
        8
    }
    fn counter_get_info(&self, idx: usize) -> SpecSbiRet {
        SpecSbiRet::success(idx)
    }
    fn counter_config_matching(&self, _b: usize, _m: usize, _f: usize, _e: usize, data: u64) -> SpecSbiRet {
        SpecSbiRet::success(data as usize)
    }
    fn counter_start(&self, _b: usize, _m: usize, _f: usize, v: u64) -> SpecSbiRet {
        SpecSbiRet::success(v as usize)
    }
    fn counter_stop(&self, _b: usize, _m: usize, _f: usize) -> SpecSbiRet {
        SpecSbiRet::success(0)
    }
    fn counter_fw_read(&self, idx: usize) -> SpecSbiRet {
        SpecSbiRet::success(idx + 100)
    }
    fn counter_fw_read_hi(&self, _idx: usize) -> SpecSbiRet {
        SpecSbiRet::success(200)
    }
}

struct Fences;
impl Fence for Fences {
    fn remote_fence_i(&self, m: SpecHartMask) -> SpecSbiRet {
        SpecSbiRet::success(m.into_inner().0)
    }
    fn remote_sfence_vma(&self, _m: SpecHartMask, s: usize, z: usize) -> SpecSbiRet {
        SpecSbiRet::success(s + z)
    }
    fn remote_sfence_vma_asid(&self, _m: SpecHartMask, _s: usize, _z: usize, a: usize) -> SpecSbiRet {
        SpecSbiRet::success(a)
    }
    fn remote_hfence_gvma_vmid(&self, _m: SpecHartMask, _s: usize, _z: usize, v: usize) -> SpecSbiRet {
        SpecSbiRet::success(v)
    }
    fn remote_hfence_gvma(&self, _m: SpecHartMask, _s: usize, _z: usize) -> SpecSbiRet {
        SpecSbiRet::success(40)
    }
    fn remote_hfence_vvma_asid(&self, _m: SpecHartMask, _s: usize, _z: usize, _a: usize) -> SpecSbiRet {
        SpecSbiRet::success(50)
    }
    fn remote_hfence_vvma(&self, _m: SpecHartMask, _s: usize, _z: usize) -> SpecSbiRet {
        SpecSbiRet::success(60)
    }
}

#[test]
fn ecall_pmu_and_rfnc_handlers() {
    assert_eq!(pmu::handle_ecall(&Counters, 0, 0, 0, 0, 0, 0, 0), SpecSbiRet::success(8));
    assert_eq!(pmu::handle_ecall(&Counters, 5, 3, 0, 0, 0, 0, 0), SpecSbiRet::success(103));
    assert_eq!(pmu::handle_ecall(&Counters, 6, 3, 0, 0, 0, 0, 0), SpecSbiRet::success(200));
    assert_eq!(pmu::handle_ecall(&Counters, 7, 3, 0, 0, 0, 0, 0), SpecSbiRet::not_supported());
    assert_eq!(pmu::handle_ecall(&Counters, 3, 0, 0, 0, 77, 0, 0), SpecSbiRet::success(77));
    assert_eq!(rfnc::handle_ecall(&Fences, 0, 0b10, 0, 0, 0, 0), SpecSbiRet::success(0b10));
    assert_eq!(rfnc::handle_ecall(&Fences, 1, 0, 0, 0x100, 0x10, 0), SpecSbiRet::success(0x110));
    assert_eq!(rfnc::handle_ecall(&Fences, 9, 0, 0, 0, 0, 0), SpecSbiRet::not_supported());
}
