use arceboot::base::{probe_extension, Probes};
use arceboot::binary::{HartMask, SbiRet};
use arceboot::board::{reset_action, ResetAction};
use arceboot::console::{color_code, max_level, LogLevel};
use arceboot::dynamic::{check_next_addr, explain_next_mode, next_mode_mpp, try_read_dynamic, DynamicInfo};
use arceboot::efi::{efi_layout, SectionInfo};
use arceboot::heap::{plan_heap, MemRegion};
use arceboot::hsm::{HartTable, HsmCell, NextStage, PrivilegeMode, START_PENDING, STARTED, STOPPED, SUSPENDED};
use arceboot::legacy_stdio::{init_legacy_stdio, legacy_stdio_getchar, legacy_stdio_putchar, LegacyStdio};
use arceboot::rfence::{hart_mask_clear, plan_remote_fence, RFenceCTX, RFenceCell, RFenceType};
use arceboot::testing::{case_level, time_step, BaseKind, DbcnKind, HsmKind, Level, TestCase, Testing, TimeEvent, TimeKind, TimeStage};
use arceboot::version::Version;

#[test]
fn hsm_cell_start_handoff() {
    let mut cell: HsmCell<u32> = HsmCell::new();
    assert_eq!(cell.remote().sbi_get_status(), STOPPED);
    assert!(cell.start(42));
    assert_eq!(cell.remote().sbi_get_status(), START_PENDING);
    assert!(!cell.start(43));
    assert!(!cell.remote().allow_ipi());
    assert_eq!(cell.local_start(), Ok(42));
    assert_eq!(cell.remote().sbi_get_status(), STARTED);
    assert!(cell.remote().allow_ipi());
    assert_eq!(cell.local_start(), Err(STARTED));
    cell.suspend();
    assert_eq!(cell.remote().sbi_get_status(), SUSPENDED);
    assert!(cell.remote().allow_ipi());
    cell.resume();
    cell.stop();
    assert_eq!(cell.remote().sbi_get_status(), STOPPED);
}

#[test]
fn hsm_table_calls() {
    let mut t = HartTable::new(2);
    assert_eq!(t.hart_start(5, 0x8020_0000, 1), SbiRet::invalid_param());
    assert_eq!(t.hart_start(1, 0x8020_0000, 7), SbiRet::success(0));
    assert_eq!(t.hart_start(1, 0x8020_0000, 7), SbiRet::already_started());
    assert_eq!(t.hart_get_status(1), SbiRet::success(START_PENDING));
    assert_eq!(t.hart_get_status(9), SbiRet::invalid_param());
    assert_eq!(
        t.take_start(1),
        Ok(NextStage { start_addr: 0x8020_0000, opaque: 7, next_mode: PrivilegeMode::Supervisor })
    );
    assert_eq!(t.hart_get_status(1), SbiRet::success(STARTED));
    assert!(t.begin_suspend(1, 0));
    assert_eq!(t.hart_get_status(1), SbiRet::success(SUSPENDED));
    assert_eq!(t.end_suspend(1), SbiRet::success(0));
    assert!(!t.begin_suspend(1, 5));
    assert_eq!(t.hart_stop(1), SbiRet::success(0));
    assert_eq!(t.hart_get_status(1), SbiRet::success(STOPPED));
}

#[test]
fn rfence_hart_mask_clear() {
    let m = HartMask::from_mask_base(0b1111, 0);
    assert_eq!(hart_mask_clear(m, 2).into_inner(), (0b1011, 0));
    let all = HartMask::from_mask_base(0b1111, usize::MAX);
    assert_eq!(hart_mask_clear(all, 1).into_inner(), (0b1101, 0));
    let based = HartMask::from_mask_base(0b11, 10);
    assert_eq!(hart_mask_clear(based, 3).into_inner(), (0b11, 10));
    // The bit cleared is numbered by the hart id, not by its index in the window.
    assert_eq!(hart_mask_clear(based, 11).into_inner(), (0b11 & !(1 << 11), 10));
}

#[test]
fn rfence_clear_removes_only_that_hart() {
    let m = HartMask::from_mask_base(0b1111, 0);
    let c = hart_mask_clear(m, 2);
    assert!(!c.has_bit(2));
    assert!(c.has_bit(0) && c.has_bit(1) && c.has_bit(3));
    assert!(!c.has_bit(4));
    let based = HartMask::from_mask_base(0b100, 20);
    let c = hart_mask_clear(based, 21);
    assert!(!c.has_bit(21));
    assert!(c.has_bit(22));
    // A mask based above zero that holds the hart keeps it.
    let held = HartMask::from_mask_base(0b11, 10);
    assert!(hart_mask_clear(held, 11).has_bit(11));
}

#[test]
fn rfence_plan_and_cell() {
    let m = HartMask::from_mask_base(0b111, 0);
    let plan = plan_remote_fence(m, 0, &[true, false, true]);
    assert_eq!(plan.notify, vec![0, 2]);
    assert_eq!(plan.ipi_mask.into_inner(), (0b100, 0));
    assert!(plan.local);
    let mut cell = RFenceCell::new();
    let ctx = RFenceCTX { start_addr: 0x1000, size: 0x1000, asid: 0, vmid: 0, op: RFenceType::SFenceVma };
    cell.set(ctx);
    assert_eq!(cell.get(), Some(ctx));
    assert!(!cell.is_sync());
    cell.sync();
    assert_eq!(cell.get(), None);
    assert!(cell.is_sync());
}

#[test]
fn version_fields() {
    let v = Version::from_raw(0x0200_0001);
    assert_eq!(v.major(), 2);
    assert_eq!(v.minor(), 1);
    assert_eq!(Version::from_raw(0xff00_0000).major(), 0x7f);
}

#[test]
fn board_reset_actions() {
    assert_eq!(reset_action(0, 0), ResetAction::Pass);
    assert_eq!(reset_action(0, 1), ResetAction::Fail(0xffff));
    assert_eq!(reset_action(0, 0x1_0005), ResetAction::Fail(5));
    assert_eq!(reset_action(1, 0), ResetAction::Reset);
    assert_eq!(reset_action(2, 9), ResetAction::Reset);
    assert_eq!(reset_action(3, 0), ResetAction::Refuse(SbiRet::invalid_param()));
}

#[test]
fn dynamic_info_checks() {
    let info = DynamicInfo { magic: 0x4942534f, version: 2, next_addr: 0x8020_0000, next_mode: 1, options: 0 };
    assert_eq!(next_mode_mpp(&info), Ok(PrivilegeMode::Supervisor));
    assert_eq!(check_next_addr(&info), Ok(0x8020_0000));
    let bad = DynamicInfo { next_addr: 0x7000_0000, next_mode: 2, ..info };
    assert_eq!(next_mode_mpp(&bad), Err(()));
    assert_eq!(check_next_addr(&bad), Err(()));
    assert_eq!(try_read_dynamic(0x2000, |_| info), Ok(info));
    assert_eq!(try_read_dynamic(0x10, |_| info), Err(()));
    assert_eq!(try_read_dynamic(0xeff0, |_| info), Err(()));
    assert_eq!(explain_next_mode(3), "Machine");
    assert_eq!(explain_next_mode(0), "User");
    assert_eq!(explain_next_mode(7), "Invalid");
}

#[test]
fn probe_extension_table() {
    let probes = Probes { timer: true, ipi: false, rfence: true, reset: false, hsm: true, pmu: false, legacy_stdio: true };
    assert!(probe_extension(&probes, 0x10));
    assert!(probe_extension(&probes, 0x54494D45));
    assert!(probe_extension(&probes, 0));
    assert!(!probe_extension(&probes, 4));
    assert!(probe_extension(&probes, 3));
    assert!(probe_extension(&probes, 1));
    assert!(!probe_extension(&probes, 8));
    assert!(!probe_extension(&probes, 5));
}

#[test]
fn console_levels() {
    assert_eq!(color_code(LogLevel::Error), 31);
    assert_eq!(color_code(LogLevel::Warn), 93);
    assert_eq!(color_code(LogLevel::Info), 34);
    assert_eq!(color_code(LogLevel::Debug), 32);
    assert_eq!(color_code(LogLevel::Trace), 90);
    assert_eq!(max_level(None), 3);
    assert_eq!(max_level(Some("debug")), 4);
    assert_eq!(max_level(Some("OFF")), 0);
    assert_eq!(max_level(Some("verbose")), 3);
}

struct Echo;
impl LegacyStdio for Echo {
    fn getchar(&self) -> u8 {
        b'q'
    }
    fn putchar(&self, _ch: u8) {}
}

#[test]
fn legacy_stdio_slot() {
    let mut slot: Option<Echo> = None;
    assert_eq!(legacy_stdio_getchar(&slot), usize::MAX);
    legacy_stdio_putchar(&slot, b'a');
    init_legacy_stdio(&mut slot, Echo);
    assert_eq!(legacy_stdio_getchar(&slot), b'q' as usize);
}

#[test]
fn testing_verdicts() {
    let t = Testing { hartid: 0, hart_mask: 1, hart_mask_base: 0, delay: 100 };
    let good = [TestCase::Base(BaseKind::Begin), TestCase::Time(TimeKind::Pass), TestCase::Hsm(HsmKind::NoStoppedHart)];
    assert!(t.test(&good));
    let t = Testing { hartid: 0, hart_mask: 1, hart_mask_base: 0, delay: 100 };
    let bad = [TestCase::Base(BaseKind::Begin), TestCase::Dbcn(DbcnKind::ReadingFailed)];
    assert!(!t.test(&bad));
    assert_eq!(case_level(TestCase::Dbcn(DbcnKind::WriteByte)), Level::Silent);
    assert_eq!(case_level(TestCase::Hsm(HsmKind::HartStarted)), Level::Debug);
    assert_eq!(case_level(TestCase::Base(BaseKind::UnknownSbiImplId)), Level::Warn);
    assert_eq!(case_level(TestCase::Time(TimeKind::NotExist)), Level::Error);
}

#[test]
fn testing_time_steps() {
    let (s, out) = time_step(TimeStage::Probe, TimeEvent::Probed(true));
    assert_eq!((s, out), (TimeStage::Read, vec![TimeKind::Begin]));
    let (s, out) = time_step(TimeStage::Read, TimeEvent::Reads { ok: true, begin: 10, end: 5 });
    assert_eq!((s, out), (TimeStage::Done, vec![TimeKind::TimeDecreased { a: 10, b: 5 }]));
    let (s, out) = time_step(TimeStage::Read, TimeEvent::Reads { ok: true, begin: 10, end: 15 });
    assert_eq!((s, out), (TimeStage::Wait, vec![TimeKind::Interval { begin: 10, end: 15 }]));
    let (s, out) = time_step(TimeStage::Read, TimeEvent::Reads { ok: true, begin: 7, end: 7 });
    assert_eq!((s, out), (TimeStage::Wait, vec![TimeKind::Interval { begin: 7, end: 7 }]));
    let (s, out) = time_step(TimeStage::Wait, TimeEvent::Trapped { interrupt: false, code: 8 });
    assert_eq!((s, out), (TimeStage::Done, vec![TimeKind::UnexpectedTrap { interrupt: false, code: 8 }]));
    let (s, out) = time_step(TimeStage::Wait, TimeEvent::Trapped { interrupt: true, code: 5 });
    assert_eq!((s, out), (TimeStage::Done, vec![TimeKind::SetTimer, TimeKind::Pass]));
    let (s, out) = time_step(TimeStage::Probe, TimeEvent::Probed(false));
    assert_eq!((s, out), (TimeStage::Done, vec![TimeKind::NotExist]));
}

#[test]
fn efi_layout_offsets() {
    let secs = vec![
        SectionInfo { address: 0x2000, size: 0x100, data: Some(vec![1; 4]) },
        SectionInfo { address: 0x1000, size: 0x800, data: None },
    ];
    let l = efi_layout(0x1010, &secs);
    assert_eq!(l.base_va, 0x1000);
    assert_eq!(l.mem_size, 0x1100);
    assert_eq!(l.page_count, 2);
    assert_eq!(l.entry_offset, 0x10);
    assert_eq!(l.offsets, vec![0x1000, 0]);
}

#[test]
fn efi_plan_rejects_garbage() {
    assert!(arceboot::efi::plan_efi_image(b"this is not an executable image").is_none());
    assert!(arceboot::efi::plan_efi_image(&[]).is_none());
}

#[test]
fn rfence_plan_over_high_harts() {
    // A mask based at hart 100 with harts 100 and 101; all harts take IPIs
    // except hart 5, which is outside the mask.
    let m = HartMask::from_mask_base(0b11, 100);
    let mut allow = vec![true; 200];
    allow[5] = false;
    let plan = plan_remote_fence(m, 0, &allow);
    assert_eq!(plan.notify, vec![100, 101]);
    assert_eq!(plan.ipi_mask.into_inner(), (0b11, 100));
    assert!(!plan.local);
}

#[test]
fn heap_plan_starts_with_largest_free_region() {
    let regions = [
        MemRegion { paddr: 0x8000_0000, size: 0x10_0000, free: false },
        MemRegion { paddr: 0x8010_0000, size: 0x4000, free: true },
        MemRegion { paddr: 0x9000_0000, size: 0x8000, free: true },
        MemRegion { paddr: 0xa000_0000, size: 0x8000, free: true },
    ];
    let plan = plan_heap(&regions);
    assert_eq!(plan.init, Some((0x9000_0000, 0x8000)));
    assert_eq!(plan.add, vec![(0x8010_0000, 0x4000), (0xa000_0000, 0x8000)]);
    let none = plan_heap(&[MemRegion { paddr: 0x1000, size: 0x1000, free: false }]);
    assert_eq!(none.init, None);
    assert!(none.add.is_empty());
}
