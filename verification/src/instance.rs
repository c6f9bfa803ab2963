//! A RustSBI instance: the extensions a platform provides, and the
//! dispatcher that turns an environment call into a call of one of them.
use crate::binary::{HartMask, Physical, SbiRet, RET_ERR_INVALID_PARAM, RET_ERR_NOT_SUPPORTED, RET_SUCCESS};
use crate::extensions::{Console, Cppc, Fence, Hsm, Ipi, Pmu, Reset, Susp, Timer};
use crate::ids::{
    CONSOLE_READ, CONSOLE_WRITE, CONSOLE_WRITE_BYTE, CPPC_PROBE, CPPC_READ, CPPC_READ_HI, CPPC_WRITE,
    EID_BASE, EID_CPPC, EID_DBCN, EID_HSM, EID_PMU, EID_RFNC, EID_SPI, EID_SRST, EID_SUSP, EID_TIME,
    GET_MARCHID, GET_MIMPID, GET_MVENDORID, GET_SBI_IMPL_ID, GET_SBI_IMPL_VERSION,
    GET_SBI_SPEC_VERSION, HART_GET_STATUS, HART_START, HART_STOP, HART_SUSPEND, IMPL_ID_RUSTSBI,
    PMU_COUNTER_CONFIG_MATCHING, PMU_COUNTER_FW_READ, PMU_COUNTER_FW_READ_HI, PMU_COUNTER_GET_INFO,
    PMU_COUNTER_START, PMU_COUNTER_STOP, PMU_NUM_COUNTERS, PROBE_EXTENSION, REMOTE_FENCE_I,
    REMOTE_HFENCE_GVMA, REMOTE_HFENCE_GVMA_VMID, REMOTE_HFENCE_VVMA, REMOTE_HFENCE_VVMA_ASID,
    REMOTE_SFENCE_VMA, REMOTE_SFENCE_VMA_ASID, RUSTSBI_VERSION, SBI_SPEC_MAJOR, SBI_SPEC_MINOR,
    SEND_IPI, SET_TIMER, SUSPEND, SYSTEM_RESET, UNAVAILABLE_EXTENSION,
};
use core::convert::Infallible;
use vstd::prelude::*;

verus! {

/// A standard extension that an instance may provide.
#[derive(Clone, Copy, Debug, PartialEq, Eq, Structural)]
pub enum Extension {
    /// Timer.
    Timer,
    /// Inter-processor interrupts.
    Ipi,
    /// Remote fences.
    Fence,
    /// Hart state management.
    Hsm,
    /// System reset.
    Reset,
    /// Performance monitoring.
    Pmu,
    /// Debug console.
    Console,
    /// System suspend.
    Susp,
    /// Processor performance control.
    Cppc,
}

/// A query of the base extension, answered by the instance itself.
#[derive(Clone, Copy, Debug, PartialEq, Eq, Structural)]
pub enum BaseQuery {
    /// Implemented SBI specification version.
    SpecVersion,
    /// Implementation id.
    ImplId,
    /// Implementation version.
    ImplVersion,
    /// Whether the extension with this id is available.
    ProbeExtension(usize),
    /// Machine vendor id.
    MvendorId,
    /// Machine architecture id.
    MarchId,
    /// Machine implementation id.
    MimpId,
}

/// What an environment call asks for, with its arguments decoded.
#[derive(Clone, Copy, Debug, PartialEq, Eq, Structural)]
pub enum SbiCall {
    /// No call this instance knows.
    Unknown,
    /// A base-extension query.
    Base(BaseQuery),
    /// A call of the extension with an argument out of range.
    InvalidParam(Extension),
    /// Timer: program the next event.
    SetTimer(u64),
    /// IPI: send to the harts of the mask.
    SendIpi(HartMask),
    /// Fence: `FENCE.I`.
    RemoteFenceI(HartMask),
    /// Fence: `SFENCE.VMA` (start, size).
    RemoteSfenceVma(HartMask, usize, usize),
    /// Fence: `SFENCE.VMA` (start, size, asid).
    RemoteSfenceVmaAsid(HartMask, usize, usize, usize),
    /// Fence: `HFENCE.GVMA` (start, size, vmid).
    RemoteHfenceGvmaVmid(HartMask, usize, usize, usize),
    /// Fence: `HFENCE.GVMA` (start, size).
    RemoteHfenceGvma(HartMask, usize, usize),
    /// Fence: `HFENCE.VVMA` (start, size, asid).
    RemoteHfenceVvmaAsid(HartMask, usize, usize, usize),
    /// Fence: `HFENCE.VVMA` (start, size).
    RemoteHfenceVvma(HartMask, usize, usize),
    /// HSM: start a hart (hart id, start address, opaque).
    HartStart(usize, usize, usize),
    /// HSM: stop the calling hart.
    HartStop,
    /// HSM: status of a hart.
    HartGetStatus(usize),
    /// HSM: suspend the calling hart (type, resume address, opaque).
    HartSuspend(u32, usize, usize),
    /// Reset: type and reason.
    SystemReset(u32, u32),
    /// PMU: number of counters.
    PmuNumCounters,
    /// PMU: counter details.
    CounterGetInfo(usize),
    /// PMU: configure a matching counter.
    CounterConfigMatching(usize, usize, usize, usize, u64),
    /// PMU: start counters.
    CounterStart(usize, usize, usize, u64),
    /// PMU: stop counters.
    CounterStop(usize, usize, usize),
    /// PMU: read a firmware counter.
    CounterFwRead(usize),
    /// PMU: read the upper bits of a firmware counter.
    CounterFwReadHi(usize),
    /// Console: write (length, address low, address high).
    ConsoleWrite(usize, usize, usize),
    /// Console: read (length, address low, address high).
    ConsoleRead(usize, usize, usize),
    /// Console: write one byte.
    ConsoleWriteByte(u8),
    /// Suspend: sleep type, resume address, opaque.
    SystemSuspend(u32, usize, usize),
    /// CPPC: probe a register.
    CppcProbe(u32),
    /// CPPC: read a register.
    CppcRead(u32),
    /// CPPC: read the upper half of a register.
    CppcReadHi(u32),
    /// CPPC: write a register.
    CppcWrite(u32, u64),
}

/// A 64-bit argument passed in one register (64-bit harts) or in two,
/// low half first (32-bit harts).
pub open spec fn wide_arg(lo: usize, hi: usize) -> u64 {
    if usize::BITS == 64 {
        lo as u64
    } else {
        (hi * 0x1_0000_0000 + lo) as u64
    }
}

/// Reads a 64-bit argument (see `wide_arg`).
pub fn wide(lo: usize, hi: usize) -> (r: u64)
    ensures
        r == wide_arg(lo, hi),
{
    if usize::BITS == 64 {
        lo as u64
    } else {
        let h = hi as u64;
        let l = lo as u64;
        assert(h < 0x1_0000_0000 && l < 0x1_0000_0000);
        let r = (h << 32u64) | l;
        assert(r == h * 0x1_0000_0000 + l) by (bit_vector)
            requires
                h < 0x1_0000_0000,
                l < 0x1_0000_0000,
                r == (h << 32u64) | l,
        ;
        r
    }
}

/// The extension that serves a call, if any.
pub open spec fn served_by(c: SbiCall) -> Option<Extension> {
    match c {
        SbiCall::Unknown => None,
        SbiCall::Base(_) => None,
        SbiCall::InvalidParam(e) => Some(e),
        SbiCall::SetTimer(_) => Some(Extension::Timer),
        SbiCall::SendIpi(_) => Some(Extension::Ipi),
        SbiCall::RemoteFenceI(_) => Some(Extension::Fence),
        SbiCall::RemoteSfenceVma(..) => Some(Extension::Fence),
        SbiCall::RemoteSfenceVmaAsid(..) => Some(Extension::Fence),
        SbiCall::RemoteHfenceGvmaVmid(..) => Some(Extension::Fence),
        SbiCall::RemoteHfenceGvma(..) => Some(Extension::Fence),
        SbiCall::RemoteHfenceVvmaAsid(..) => Some(Extension::Fence),
        SbiCall::RemoteHfenceVvma(..) => Some(Extension::Fence),
        SbiCall::HartStart(..) => Some(Extension::Hsm),
        SbiCall::HartStop => Some(Extension::Hsm),
        SbiCall::HartGetStatus(_) => Some(Extension::Hsm),
        SbiCall::HartSuspend(..) => Some(Extension::Hsm),
        SbiCall::SystemReset(..) => Some(Extension::Reset),
        SbiCall::PmuNumCounters => Some(Extension::Pmu),
        SbiCall::CounterGetInfo(_) => Some(Extension::Pmu),
        SbiCall::CounterConfigMatching(..) => Some(Extension::Pmu),
        SbiCall::CounterStart(..) => Some(Extension::Pmu),
        SbiCall::CounterStop(..) => Some(Extension::Pmu),
        SbiCall::CounterFwRead(_) => Some(Extension::Pmu),
        SbiCall::CounterFwReadHi(_) => Some(Extension::Pmu),
        SbiCall::ConsoleWrite(..) => Some(Extension::Console),
        SbiCall::ConsoleRead(..) => Some(Extension::Console),
        SbiCall::ConsoleWriteByte(_) => Some(Extension::Console),
        SbiCall::SystemSuspend(..) => Some(Extension::Susp),
        SbiCall::CppcProbe(_) => Some(Extension::Cppc),
        SbiCall::CppcRead(_) => Some(Extension::Cppc),
        SbiCall::CppcReadHi(_) => Some(Extension::Cppc),
        SbiCall::CppcWrite(..) => Some(Extension::Cppc),
    }
}

/// The call that extension id `eid`, function id `fid` and arguments `p`
/// (six registers) stand for. A 32-bit register argument out of `u32` range
/// makes the call invalid; the debug console takes the low byte.
pub open spec fn call_of(eid: usize, fid: usize, p: Seq<usize>) -> SbiCall {
    if eid == EID_RFNC {
        let m = HartMask::spec_from(p[0], p[1]);
        if fid == REMOTE_FENCE_I {
            SbiCall::RemoteFenceI(m)
        } else if fid == REMOTE_SFENCE_VMA {
            SbiCall::RemoteSfenceVma(m, p[2], p[3])
        } else if fid == REMOTE_SFENCE_VMA_ASID {
            SbiCall::RemoteSfenceVmaAsid(m, p[2], p[3], p[4])
        } else if fid == REMOTE_HFENCE_GVMA_VMID {
            SbiCall::RemoteHfenceGvmaVmid(m, p[2], p[3], p[4])
        } else if fid == REMOTE_HFENCE_GVMA {
            SbiCall::RemoteHfenceGvma(m, p[2], p[3])
        } else if fid == REMOTE_HFENCE_VVMA_ASID {
            SbiCall::RemoteHfenceVvmaAsid(m, p[2], p[3], p[4])
        } else if fid == REMOTE_HFENCE_VVMA {
            SbiCall::RemoteHfenceVvma(m, p[2], p[3])
        } else {
            SbiCall::Unknown
        }
    } else if eid == EID_TIME {
        if fid == SET_TIMER {
            SbiCall::SetTimer(wide_arg(p[0], p[1]))
        } else {
            SbiCall::Unknown
        }
    } else if eid == EID_SPI {
        if fid == SEND_IPI {
            SbiCall::SendIpi(HartMask::spec_from(p[0], p[1]))
        } else {
            SbiCall::Unknown
        }
    } else if eid == EID_BASE {
        if fid == GET_SBI_SPEC_VERSION {
            SbiCall::Base(BaseQuery::SpecVersion)
        } else if fid == GET_SBI_IMPL_ID {
            SbiCall::Base(BaseQuery::ImplId)
        } else if fid == GET_SBI_IMPL_VERSION {
            SbiCall::Base(BaseQuery::ImplVersion)
        } else if fid == PROBE_EXTENSION {
            SbiCall::Base(BaseQuery::ProbeExtension(p[0]))
        } else if fid == GET_MVENDORID {
            SbiCall::Base(BaseQuery::MvendorId)
        } else if fid == GET_MARCHID {
            SbiCall::Base(BaseQuery::MarchId)
        } else if fid == GET_MIMPID {
            SbiCall::Base(BaseQuery::MimpId)
        } else {
            SbiCall::Unknown
        }
    } else if eid == EID_HSM {
        if fid == HART_START {
            SbiCall::HartStart(p[0], p[1], p[2])
        } else if fid == HART_STOP {
            SbiCall::HartStop
        } else if fid == HART_GET_STATUS {
            SbiCall::HartGetStatus(p[0])
        } else if fid == HART_SUSPEND {
            if p[0] <= u32::MAX {
                SbiCall::HartSuspend(p[0] as u32, p[1], p[2])
            } else {
                SbiCall::InvalidParam(Extension::Hsm)
            }
        } else {
            SbiCall::Unknown
        }
    } else if eid == EID_SRST {
        if fid == SYSTEM_RESET {
            if p[0] <= u32::MAX && p[1] <= u32::MAX {
                SbiCall::SystemReset(p[0] as u32, p[1] as u32)
            } else {
                SbiCall::InvalidParam(Extension::Reset)
            }
        } else {
            SbiCall::Unknown
        }
    } else if eid == EID_PMU {
        if fid == PMU_NUM_COUNTERS {
            SbiCall::PmuNumCounters
        } else if fid == PMU_COUNTER_GET_INFO {
            SbiCall::CounterGetInfo(p[0])
        } else if fid == PMU_COUNTER_CONFIG_MATCHING {
            SbiCall::CounterConfigMatching(p[0], p[1], p[2], p[3], wide_arg(p[4], p[5]))
        } else if fid == PMU_COUNTER_START {
            SbiCall::CounterStart(p[0], p[1], p[2], wide_arg(p[3], p[4]))
        } else if fid == PMU_COUNTER_STOP {
            SbiCall::CounterStop(p[0], p[1], p[2])
        } else if fid == PMU_COUNTER_FW_READ {
            SbiCall::CounterFwRead(p[0])
        } else if fid == PMU_COUNTER_FW_READ_HI {
            SbiCall::CounterFwReadHi(p[0])
        } else {
            SbiCall::Unknown
        }
    } else if eid == EID_DBCN {
        if fid == CONSOLE_WRITE {
            SbiCall::ConsoleWrite(p[0], p[1], p[2])
        } else if fid == CONSOLE_READ {
            SbiCall::ConsoleRead(p[0], p[1], p[2])
        } else if fid == CONSOLE_WRITE_BYTE {
            SbiCall::ConsoleWriteByte((p[0] % 0x100) as u8)
        } else {
            SbiCall::Unknown
        }
    } else if eid == EID_SUSP {
        if fid == SUSPEND {
            if p[0] <= u32::MAX {
                SbiCall::SystemSuspend(p[0] as u32, p[1], p[2])
            } else {
                SbiCall::InvalidParam(Extension::Susp)
            }
        } else {
            SbiCall::Unknown
        }
    } else if eid == EID_CPPC {
        if fid == CPPC_PROBE || fid == CPPC_READ || fid == CPPC_READ_HI || fid == CPPC_WRITE {
            if p[0] <= u32::MAX {
                let reg = p[0] as u32;
                if fid == CPPC_PROBE {
                    SbiCall::CppcProbe(reg)
                } else if fid == CPPC_READ {
                    SbiCall::CppcRead(reg)
                } else if fid == CPPC_READ_HI {
                    SbiCall::CppcReadHi(reg)
                } else {
                    SbiCall::CppcWrite(reg, wide_arg(p[1], p[2]))
                }
            } else {
                SbiCall::InvalidParam(Extension::Cppc)
            }
        } else {
            SbiCall::Unknown
        }
    } else {
        SbiCall::Unknown
    }
}

/// A register argument as a 32-bit value, when it fits.
fn narrow(v: usize) -> (r: Option<u32>)
    ensures
        v <= u32::MAX ==> r == Some(v as u32),
        v > u32::MAX ==> r is None,
{
    if v <= u32::MAX as usize {
        Some(v as u32)
    } else {
        None
    }
}

/// Decodes an environment call: extension id, function id and the six
/// argument registers (see `call_of`).
pub fn decode_call(extension: usize, function: usize, param: [usize; 6]) -> (r: SbiCall)
    ensures
        r == call_of(extension, function, param@),
{
    let p0 = param[0];
    let p1 = param[1];
    let p2 = param[2];
    let p3 = param[3];
    let p4 = param[4];
    let p5 = param[5];
    if extension == EID_RFNC {
        let m = HartMask::from_mask_base(p0, p1);
        if function == REMOTE_FENCE_I {
            SbiCall::RemoteFenceI(m)
        } else if function == REMOTE_SFENCE_VMA {
            SbiCall::RemoteSfenceVma(m, p2, p3)
        } else if function == REMOTE_SFENCE_VMA_ASID {
            SbiCall::RemoteSfenceVmaAsid(m, p2, p3, p4)
        } else if function == REMOTE_HFENCE_GVMA_VMID {
            SbiCall::RemoteHfenceGvmaVmid(m, p2, p3, p4)
        } else if function == REMOTE_HFENCE_GVMA {
            SbiCall::RemoteHfenceGvma(m, p2, p3)
        } else if function == REMOTE_HFENCE_VVMA_ASID {
            SbiCall::RemoteHfenceVvmaAsid(m, p2, p3, p4)
        } else if function == REMOTE_HFENCE_VVMA {
            SbiCall::RemoteHfenceVvma(m, p2, p3)
        } else {
            SbiCall::Unknown
        }
    } else if extension == EID_TIME {
        if function == SET_TIMER {
            SbiCall::SetTimer(wide(p0, p1))
        } else {
            SbiCall::Unknown
        }
    } else if extension == EID_SPI {
        if function == SEND_IPI {
            SbiCall::SendIpi(HartMask::from_mask_base(p0, p1))
        } else {
            SbiCall::Unknown
        }
    } else if extension == EID_BASE {
        if function == GET_SBI_SPEC_VERSION {
            SbiCall::Base(BaseQuery::SpecVersion)
        } else if function == GET_SBI_IMPL_ID {
            SbiCall::Base(BaseQuery::ImplId)
        } else if function == GET_SBI_IMPL_VERSION {
            SbiCall::Base(BaseQuery::ImplVersion)
        } else if function == PROBE_EXTENSION {
            SbiCall::Base(BaseQuery::ProbeExtension(p0))
        } else if function == GET_MVENDORID {
            SbiCall::Base(BaseQuery::MvendorId)
        } else if function == GET_MARCHID {
            SbiCall::Base(BaseQuery::MarchId)
        } else if function == GET_MIMPID {
            SbiCall::Base(BaseQuery::MimpId)
        } else {
            SbiCall::Unknown
        }
    } else if extension == EID_HSM {
        if function == HART_START {
            SbiCall::HartStart(p0, p1, p2)
        } else if function == HART_STOP {
            SbiCall::HartStop
        } else if function == HART_GET_STATUS {
            SbiCall::HartGetStatus(p0)
        } else if function == HART_SUSPEND {
            match narrow(p0) {
                Some(t) => SbiCall::HartSuspend(t, p1, p2),
                None => SbiCall::InvalidParam(Extension::Hsm),
            }
        } else {
            SbiCall::Unknown
        }
    } else if extension == EID_SRST {
        if function == SYSTEM_RESET {
            match (narrow(p0), narrow(p1)) {
                (Some(t), Some(r)) => SbiCall::SystemReset(t, r),
                _ => SbiCall::InvalidParam(Extension::Reset),
            }
        } else {
            SbiCall::Unknown
        }
    } else if extension == EID_PMU {
        if function == PMU_NUM_COUNTERS {
            SbiCall::PmuNumCounters
        } else if function == PMU_COUNTER_GET_INFO {
            SbiCall::CounterGetInfo(p0)
        } else if function == PMU_COUNTER_CONFIG_MATCHING {
            SbiCall::CounterConfigMatching(p0, p1, p2, p3, wide(p4, p5))
        } else if function == PMU_COUNTER_START {
            SbiCall::CounterStart(p0, p1, p2, wide(p3, p4))
        } else if function == PMU_COUNTER_STOP {
            SbiCall::CounterStop(p0, p1, p2)
        } else if function == PMU_COUNTER_FW_READ {
            SbiCall::CounterFwRead(p0)
        } else if function == PMU_COUNTER_FW_READ_HI {
            SbiCall::CounterFwReadHi(p0)
        } else {
            SbiCall::Unknown
        }
    } else if extension == EID_DBCN {
        if function == CONSOLE_WRITE {
            SbiCall::ConsoleWrite(p0, p1, p2)
        } else if function == CONSOLE_READ {
            SbiCall::ConsoleRead(p0, p1, p2)
        } else if function == CONSOLE_WRITE_BYTE {
            SbiCall::ConsoleWriteByte((p0 % 0x100) as u8)
        } else {
            SbiCall::Unknown
        }
    } else if extension == EID_SUSP {
        if function == SUSPEND {
            match narrow(p0) {
                Some(t) => SbiCall::SystemSuspend(t, p1, p2),
                None => SbiCall::InvalidParam(Extension::Susp),
            }
        } else {
            SbiCall::Unknown
        }
    } else if extension == EID_CPPC {
        if function == CPPC_PROBE || function == CPPC_READ || function == CPPC_READ_HI || function
            == CPPC_WRITE {
            match narrow(p0) {
                Some(reg) => {
                    if function == CPPC_PROBE {
                        SbiCall::CppcProbe(reg)
                    } else if function == CPPC_READ {
                        SbiCall::CppcRead(reg)
                    } else if function == CPPC_READ_HI {
                        SbiCall::CppcReadHi(reg)
                    } else {
                        SbiCall::CppcWrite(reg, wide(p1, p2))
                    }
                },
                None => SbiCall::InvalidParam(Extension::Cppc),
            }
        } else {
            SbiCall::Unknown
        }
    } else {
        SbiCall::Unknown
    }
}

} // verus!

verus! {

/// Machine information reported to the supervisor environment.
#[derive(Clone, Copy, Debug)]
pub struct MachineInfo {
    /// Register `mvendorid` for supervisor environment.
    pub mvendorid: usize,
    /// Register `marchid` for supervisor environment.
    pub marchid: usize,
    /// Register `mimpid` for supervisor environment.
    pub mimpid: usize,
}

/// Machine information from register reads: a register that reads as
/// absent reports zero.
pub open spec fn info_from(mvendorid: Option<usize>, marchid: Option<usize>, mimpid: Option<usize>) -> MachineInfo {
    MachineInfo {
        mvendorid: match mvendorid {
            Some(v) => v,
            None => 0,
        },
        marchid: match marchid {
            Some(v) => v,
            None => 0,
        },
        mimpid: match mimpid {
            Some(v) => v,
            None => 0,
        },
    }
}

/// Builds the machine information from the three register reads (see
/// `info_from`).
pub fn machine_info_from(mvendorid: Option<usize>, marchid: Option<usize>, mimpid: Option<usize>) -> (r: MachineInfo)
    ensures
        r == info_from(mvendorid, marchid, mimpid),
{
    MachineInfo {
        mvendorid: match mvendorid {
            Some(v) => v,
            None => 0,
        },
        marchid: match marchid {
            Some(v) => v,
            None => 0,
        },
        mimpid: match mimpid {
            Some(v) => v,
            None => 0,
        },
    }
}

/// RustSBI instance including standard extensions: each one present or
/// absent, and the machine information it reports.
pub struct RustSBI<T, I, R, H, S, P, C, SU, CP> {
    timer: Option<T>,
    ipi: Option<I>,
    rfnc: Option<R>,
    hsm: Option<H>,
    srst: Option<S>,
    pmu: Option<P>,
    dbcn: Option<C>,
    susp: Option<SU>,
    cppc: Option<CP>,
    info: MachineInfo,
}

impl<T, I, R, H, S, P, C, SU, CP> RustSBI<T, I, R, H, S, P, C, SU, CP> {
    /// Whether extension `e` is provided.
    pub closed spec fn present(self, e: Extension) -> bool {
        match e {
            Extension::Timer => self.timer is Some,
            Extension::Ipi => self.ipi is Some,
            Extension::Fence => self.rfnc is Some,
            Extension::Hsm => self.hsm is Some,
            Extension::Reset => self.srst is Some,
            Extension::Pmu => self.pmu is Some,
            Extension::Console => self.dbcn is Some,
            Extension::Susp => self.susp is Some,
            Extension::Cppc => self.cppc is Some,
        }
    }

    /// The machine information reported.
    pub closed spec fn spec_info(self) -> MachineInfo {
        self.info
    }

    /// The timer extension, if provided.
    pub closed spec fn spec_timer(self) -> Option<T> {
        self.timer
    }

    /// The IPI extension, if provided.
    pub closed spec fn spec_ipi(self) -> Option<I> {
        self.ipi
    }

    /// The remote fence extension, if provided.
    pub closed spec fn spec_rfnc(self) -> Option<R> {
        self.rfnc
    }

    /// The hart state management extension, if provided.
    pub closed spec fn spec_hsm(self) -> Option<H> {
        self.hsm
    }

    /// The system reset extension, if provided.
    pub closed spec fn spec_srst(self) -> Option<S> {
        self.srst
    }

    /// The PMU extension, if provided.
    pub closed spec fn spec_pmu(self) -> Option<P> {
        self.pmu
    }

    /// The debug console extension, if provided.
    pub closed spec fn spec_dbcn(self) -> Option<C> {
        self.dbcn
    }

    /// The system suspend extension, if provided.
    pub closed spec fn spec_susp(self) -> Option<SU> {
        self.susp
    }

    /// The CPPC extension, if provided.
    pub closed spec fn spec_cppc(self) -> Option<CP> {
        self.cppc
    }

    /// The extension with id `eid`, among those an instance may provide.
    pub open spec fn extension_of(eid: usize) -> Option<Extension> {
        if eid == EID_TIME {
            Some(Extension::Timer)
        } else if eid == EID_SPI {
            Some(Extension::Ipi)
        } else if eid == EID_RFNC {
            Some(Extension::Fence)
        } else if eid == EID_SRST {
            Some(Extension::Reset)
        } else if eid == EID_HSM {
            Some(Extension::Hsm)
        } else if eid == EID_PMU {
            Some(Extension::Pmu)
        } else if eid == EID_DBCN {
            Some(Extension::Console)
        } else if eid == EID_SUSP {
            Some(Extension::Susp)
        } else if eid == EID_CPPC {
            Some(Extension::Cppc)
        } else {
            None
        }
    }

    /// What probing extension `eid` answers: one when it is the base
    /// extension or a provided one, zero otherwise.
    pub open spec fn probe_value(self, eid: usize) -> usize {
        if eid == EID_BASE || (Self::extension_of(eid) matches Some(e) && self.present(e)) {
            (UNAVAILABLE_EXTENSION + 1) as usize
        } else {
            UNAVAILABLE_EXTENSION
        }
    }

    /// The value a base-extension query answers.
    pub open spec fn base_value(self, q: BaseQuery) -> usize {
        match q {
            BaseQuery::SpecVersion => ((SBI_SPEC_MAJOR * 0x100_0000) + SBI_SPEC_MINOR) as usize,
            BaseQuery::ImplId => IMPL_ID_RUSTSBI,
            BaseQuery::ImplVersion => RUSTSBI_VERSION,
            BaseQuery::ProbeExtension(eid) => self.probe_value(eid),
            BaseQuery::MvendorId => self.spec_info().mvendorid,
            BaseQuery::MarchId => self.spec_info().marchid,
            BaseQuery::MimpId => self.spec_info().mimpid,
        }
    }

    /// Answers a probe of extension `extension` (see `probe_value`).
    fn probe_extension(&self, extension: usize) -> (r: usize)
        ensures
            r == self.probe_value(extension),
    {
        let ans = if extension == EID_BASE {
            true
        } else if extension == EID_TIME {
            self.timer.is_some()
        } else if extension == EID_SPI {
            self.ipi.is_some()
        } else if extension == EID_RFNC {
            self.rfnc.is_some()
        } else if extension == EID_SRST {
            self.srst.is_some()
        } else if extension == EID_HSM {
            self.hsm.is_some()
        } else if extension == EID_PMU {
            self.pmu.is_some()
        } else if extension == EID_DBCN {
            self.dbcn.is_some()
        } else if extension == EID_SUSP {
            self.susp.is_some()
        } else if extension == EID_CPPC {
            self.cppc.is_some()
        } else {
            false
        };
        if ans {
            UNAVAILABLE_EXTENSION.wrapping_add(1)
        } else {
            UNAVAILABLE_EXTENSION
        }
    }

    /// Answers a base-extension query (see `base_value`).
    fn answer_base(&self, q: BaseQuery) -> (r: usize)
        ensures
            r == self.base_value(q),
    {
        match q {
            BaseQuery::SpecVersion => {
                assert((2usize << 24usize) | 0usize == 0x200_0000usize) by (bit_vector);
                (SBI_SPEC_MAJOR << 24usize) | SBI_SPEC_MINOR
            },
            BaseQuery::ImplId => IMPL_ID_RUSTSBI,
            BaseQuery::ImplVersion => RUSTSBI_VERSION,
            BaseQuery::ProbeExtension(eid) => self.probe_extension(eid),
            BaseQuery::MvendorId => self.info.mvendorid,
            BaseQuery::MarchId => self.info.marchid,
            BaseQuery::MimpId => self.info.mimpid,
        }
    }
}

} // verus!

verus! {

/// What an instance answers on its own for call `c`: `None` when the call
/// goes to a provided extension, whose reply is then the answer.
pub open spec fn own_answer<T, I, R, H, S, P, C, SU, CP>(
    sbi: RustSBI<T, I, R, H, S, P, C, SU, CP>,
    c: SbiCall,
) -> Option<SbiRet> {
    match c {
        SbiCall::Unknown => Some(SbiRet { error: RET_ERR_NOT_SUPPORTED, value: 0 }),
        SbiCall::Base(q) => Some(SbiRet { error: RET_SUCCESS, value: sbi.base_value(q) }),
        _ => {
            let e = served_by(c)->Some_0;
            if !sbi.present(e) {
                Some(SbiRet { error: RET_ERR_NOT_SUPPORTED, value: 0 })
            } else if c is InvalidParam {
                Some(SbiRet { error: RET_ERR_INVALID_PARAM, value: 0 })
            } else if c is SetTimer {
                Some(SbiRet { error: RET_SUCCESS, value: 0 })
            } else {
                None
            }
        },
    }
}

/// Whether `r` answers call `c` on instance `sbi`: the instance's own answer
/// where it has one (see `own_answer`), after programming the timer for a
/// timer call; otherwise a reply that the extension serving the call may
/// give to the method for that call, on the decoded arguments. The counter
/// count comes back as a success.
pub open spec fn reply_of<
    T: Timer,
    I: Ipi,
    R: Fence,
    H: Hsm,
    S: Reset,
    P: Pmu,
    C: Console,
    SU: Susp,
    CP: Cppc,
>(sbi: RustSBI<T, I, R, H, S, P, C, SU, CP>, c: SbiCall, r: SbiRet) -> bool {
    match own_answer(sbi, c) {
        Some(a) => r == a && (sbi.present(Extension::Timer) ==> (c matches SbiCall::SetTimer(v)
            ==> sbi.spec_timer()->Some_0.sets_timer(v))),
        None => match c {
            SbiCall::SendIpi(m) => sbi.spec_ipi()->Some_0.send_ipi_reply(m, r),
            SbiCall::RemoteFenceI(m) => sbi.spec_rfnc()->Some_0.remote_fence_i_reply(m, r),
            SbiCall::RemoteSfenceVma(m, a, b) => sbi.spec_rfnc()->Some_0.remote_sfence_vma_reply(m, a, b, r),
            SbiCall::RemoteSfenceVmaAsid(m, a, b, x) => sbi.spec_rfnc()->Some_0.remote_sfence_vma_asid_reply(
                m,
                a,
                b,
                x,
                r,
            ),
            SbiCall::RemoteHfenceGvmaVmid(m, a, b, x) => sbi.spec_rfnc()->Some_0.remote_hfence_gvma_vmid_reply(
                m,
                a,
                b,
                x,
                r,
            ),
            SbiCall::RemoteHfenceGvma(m, a, b) => sbi.spec_rfnc()->Some_0.remote_hfence_gvma_reply(m, a, b, r),
            SbiCall::RemoteHfenceVvmaAsid(m, a, b, x) => sbi.spec_rfnc()->Some_0.remote_hfence_vvma_asid_reply(
                m,
                a,
                b,
                x,
                r,
            ),
            SbiCall::RemoteHfenceVvma(m, a, b) => sbi.spec_rfnc()->Some_0.remote_hfence_vvma_reply(m, a, b, r),
            SbiCall::HartStart(h, a, o) => sbi.spec_hsm()->Some_0.hart_start_reply(h, a, o, r),
            SbiCall::HartStop => sbi.spec_hsm()->Some_0.hart_stop_reply(r),
            SbiCall::HartGetStatus(h) => sbi.spec_hsm()->Some_0.hart_get_status_reply(h, r),
            SbiCall::HartSuspend(t, a, o) => sbi.spec_hsm()->Some_0.hart_suspend_reply(t, a, o, r),
            SbiCall::SystemReset(t, why) => sbi.spec_srst()->Some_0.system_reset_reply(t, why, r),
            SbiCall::PmuNumCounters => r.error == RET_SUCCESS && sbi.spec_pmu()->Some_0.num_counters_reply(
                r.value,
            ),
            SbiCall::CounterGetInfo(i) => sbi.spec_pmu()->Some_0.counter_get_info_reply(i, r),
            SbiCall::CounterConfigMatching(a, b, x, y, z) => sbi.spec_pmu()->Some_0.counter_config_matching_reply(
                a,
                b,
                x,
                y,
                z,
                r,
            ),
            SbiCall::CounterStart(a, b, x, y) => sbi.spec_pmu()->Some_0.counter_start_reply(a, b, x, y, r),
            SbiCall::CounterStop(a, b, x) => sbi.spec_pmu()->Some_0.counter_stop_reply(a, b, x, r),
            SbiCall::CounterFwRead(i) => sbi.spec_pmu()->Some_0.counter_fw_read_reply(i, r),
            SbiCall::CounterFwReadHi(i) => sbi.spec_pmu()->Some_0.counter_fw_read_hi_reply(i, r),
            SbiCall::ConsoleWrite(n, lo, hi) => sbi.spec_dbcn()->Some_0.console_write_reply(n, lo, hi, r),
            SbiCall::ConsoleRead(n, lo, hi) => sbi.spec_dbcn()->Some_0.console_read_reply(n, lo, hi, r),
            SbiCall::ConsoleWriteByte(b) => sbi.spec_dbcn()->Some_0.console_write_byte_reply(b, r),
            SbiCall::SystemSuspend(t, a, o) => sbi.spec_susp()->Some_0.system_suspend_reply(t, a, o, r),
            SbiCall::CppcProbe(g) => sbi.spec_cppc()->Some_0.cppc_probe_reply(g, r),
            SbiCall::CppcRead(g) => sbi.spec_cppc()->Some_0.cppc_read_reply(g, r),
            SbiCall::CppcReadHi(g) => sbi.spec_cppc()->Some_0.cppc_read_hi_reply(g, r),
            SbiCall::CppcWrite(g, v) => sbi.spec_cppc()->Some_0.cppc_write_reply(g, v, r),
            _ => true,
        },
    }
}

impl<
    T: Timer,
    I: Ipi,
    R: Fence,
    H: Hsm,
    S: Reset,
    P: Pmu,
    C: Console,
    SU: Susp,
    CP: Cppc,
> RustSBI<T, I, R, H, S, P, C, SU, CP> {

    /// An instance with all the SBI extensions, reporting `info`.
    pub fn with_machine_info(
        timer: T,
        ipi: I,
        rfnc: R,
        hsm: H,
        srst: S,
        pmu: P,
        dbcn: C,
        susp: SU,
        cppc: CP,
        info: MachineInfo,
    ) -> (r: Self)
        ensures
            forall|e: Extension| r.present(e),
            r.spec_info() == info,
    {
        RustSBI {
            timer: Some(timer),
            ipi: Some(ipi),
            rfnc: Some(rfnc),
            hsm: Some(hsm),
            srst: Some(srst),
            pmu: Some(pmu),
            dbcn: Some(dbcn),
            susp: Some(susp),
            cppc: Some(cppc),
            info,
        }
    }

    /// Handles an environment call with extension id `extension`, function
    /// id `function` and argument registers `param`. The call is decoded (see
    /// `call_of`); the instance answers unknown calls, base queries, calls of
    /// absent extensions and invalid arguments itself (see `own_answer`),
    /// and hands every other call, with the decoded arguments, to the
    /// extension that serves it, whose reply it returns (see `reply_of`).
    pub fn handle_ecall(&mut self, extension: usize, function: usize, param: [usize; 6]) -> (r: SbiRet)
        ensures
            *final(self) == *old(self),
            own_answer(*old(self), call_of(extension, function, param@)) matches Some(a) ==> r == a,
            reply_of(*old(self), call_of(extension, function, param@), r),
    {
        let call = decode_call(extension, function, param);
        self.dispatch(call)
    }

    /// Performs a decoded call (see `handle_ecall`).
    pub fn dispatch(&mut self, call: SbiCall) -> (r: SbiRet)
        ensures
            *final(self) == *old(self),
            own_answer(*old(self), call) matches Some(a) ==> r == a,
            reply_of(*old(self), call, r),
    {
        match call {
            SbiCall::Unknown => SbiRet::not_supported(),
            SbiCall::Base(q) => SbiRet::success(self.answer_base(q)),
            SbiCall::InvalidParam(e) => {
                let present = match e {
                    Extension::Timer => self.timer.is_some(),
                    Extension::Ipi => self.ipi.is_some(),
                    Extension::Fence => self.rfnc.is_some(),
                    Extension::Hsm => self.hsm.is_some(),
                    Extension::Reset => self.srst.is_some(),
                    Extension::Pmu => self.pmu.is_some(),
                    Extension::Console => self.dbcn.is_some(),
                    Extension::Susp => self.susp.is_some(),
                    Extension::Cppc => self.cppc.is_some(),
                };
                if present {
                    SbiRet::invalid_param()
                } else {
                    SbiRet::not_supported()
                }
            },
            SbiCall::SetTimer(v) => match &self.timer {
                Some(timer) => {
                    timer.set_timer(v);
                    SbiRet::success(0)
                },
                None => SbiRet::not_supported(),
            },
            SbiCall::SendIpi(m) => match &self.ipi {
                Some(ipi) => ipi.send_ipi(m),
                None => SbiRet::not_supported(),
            },
            SbiCall::RemoteFenceI(m) => match &self.rfnc {
                Some(f) => f.remote_fence_i(m),
                None => SbiRet::not_supported(),
            },
            SbiCall::RemoteSfenceVma(m, a, b) => match &self.rfnc {
                Some(f) => f.remote_sfence_vma(m, a, b),
                None => SbiRet::not_supported(),
            },
            SbiCall::RemoteSfenceVmaAsid(m, a, b, c) => match &self.rfnc {
                Some(f) => f.remote_sfence_vma_asid(m, a, b, c),
                None => SbiRet::not_supported(),
            },
            SbiCall::RemoteHfenceGvmaVmid(m, a, b, c) => match &self.rfnc {
                Some(f) => f.remote_hfence_gvma_vmid(m, a, b, c),
                None => SbiRet::not_supported(),
            },
            SbiCall::RemoteHfenceGvma(m, a, b) => match &self.rfnc {
                Some(f) => f.remote_hfence_gvma(m, a, b),
                None => SbiRet::not_supported(),
            },
            SbiCall::RemoteHfenceVvmaAsid(m, a, b, c) => match &self.rfnc {
                Some(f) => f.remote_hfence_vvma_asid(m, a, b, c),
                None => SbiRet::not_supported(),
            },
            SbiCall::RemoteHfenceVvma(m, a, b) => match &self.rfnc {
                Some(f) => f.remote_hfence_vvma(m, a, b),
                None => SbiRet::not_supported(),
            },
            SbiCall::HartStart(h, a, o) => match &self.hsm {
                Some(hsm) => hsm.hart_start(h, a, o),
                None => SbiRet::not_supported(),
            },
            SbiCall::HartStop => match &self.hsm {
                Some(hsm) => hsm.hart_stop(),
                None => SbiRet::not_supported(),
            },
            SbiCall::HartGetStatus(h) => match &self.hsm {
                Some(hsm) => hsm.hart_get_status(h),
                None => SbiRet::not_supported(),
            },
            SbiCall::HartSuspend(t, a, o) => match &self.hsm {
                Some(hsm) => hsm.hart_suspend(t, a, o),
                None => SbiRet::not_supported(),
            },
            SbiCall::SystemReset(t, why) => match &self.srst {
                Some(srst) => srst.system_reset(t, why),
                None => SbiRet::not_supported(),
            },
            SbiCall::PmuNumCounters => match &self.pmu {
                Some(pmu) => SbiRet::success(pmu.num_counters()),
                None => SbiRet::not_supported(),
            },
            SbiCall::CounterGetInfo(i) => match &self.pmu {
                Some(pmu) => pmu.counter_get_info(i),
                None => SbiRet::not_supported(),
            },
            SbiCall::CounterConfigMatching(a, b, c, d, e) => match &self.pmu {
                Some(pmu) => pmu.counter_config_matching(a, b, c, d, e),
                None => SbiRet::not_supported(),
            },
            SbiCall::CounterStart(a, b, c, d) => match &self.pmu {
                Some(pmu) => pmu.counter_start(a, b, c, d),
                None => SbiRet::not_supported(),
            },
            SbiCall::CounterStop(a, b, c) => match &self.pmu {
                Some(pmu) => pmu.counter_stop(a, b, c),
                None => SbiRet::not_supported(),
            },
            SbiCall::CounterFwRead(i) => match &self.pmu {
                Some(pmu) => pmu.counter_fw_read(i),
                None => SbiRet::not_supported(),
            },
            SbiCall::CounterFwReadHi(i) => match &self.pmu {
                Some(pmu) => pmu.counter_fw_read_hi(i),
                None => SbiRet::not_supported(),
            },
            SbiCall::ConsoleWrite(n, lo, hi) => match &self.dbcn {
                Some(dbcn) => dbcn.write(Physical::new(n, lo, hi)),
                None => SbiRet::not_supported(),
            },
            SbiCall::ConsoleRead(n, lo, hi) => match &self.dbcn {
                Some(dbcn) => dbcn.read(Physical::new(n, lo, hi)),
                None => SbiRet::not_supported(),
            },
            SbiCall::ConsoleWriteByte(b) => match &self.dbcn {
                Some(dbcn) => dbcn.write_byte(b),
                None => SbiRet::not_supported(),
            },
            SbiCall::SystemSuspend(t, a, o) => match &self.susp {
                Some(susp) => susp.system_suspend(t, a, o),
                None => SbiRet::not_supported(),
            },
            SbiCall::CppcProbe(reg) => match &self.cppc {
                Some(cppc) => cppc.probe(reg),
                None => SbiRet::not_supported(),
            },
            SbiCall::CppcRead(reg) => match &self.cppc {
                Some(cppc) => cppc.read(reg),
                None => SbiRet::not_supported(),
            },
            SbiCall::CppcReadHi(reg) => match &self.cppc {
                Some(cppc) => cppc.read_hi(reg),
                None => SbiRet::not_supported(),
            },
            SbiCall::CppcWrite(reg, v) => match &self.cppc {
                Some(cppc) => cppc.write(reg, v),
                None => SbiRet::not_supported(),
            },
        }
    }
}

} // verus!

verus! {

/// Structure to build a RustSBI instance, one extension at a time.
pub struct Builder<T, I, R, H, S, P, C, SU, CP> {
    inner: RustSBI<T, I, R, H, S, P, C, SU, CP>,
}

impl<T, I, R, H, S, P, C, SU, CP> Builder<T, I, R, H, S, P, C, SU, CP> {
    /// The instance being built.
    pub closed spec fn spec_inner(self) -> RustSBI<T, I, R, H, S, P, C, SU, CP> {
        self.inner
    }
}

impl Builder<
    Infallible,
    Infallible,
    Infallible,
    Infallible,
    Infallible,
    Infallible,
    Infallible,
    Infallible,
    Infallible,
> {

    /// A builder with no extension, reporting `info`.
    pub fn with_machine_info(info: MachineInfo) -> (r: Self)
        ensures
            forall|e: Extension| !r.spec_inner().present(e),
            r.spec_inner().spec_info() == info,
    {
        Builder {
            inner: RustSBI {
                timer: None,
                ipi: None,
                rfnc: None,
                hsm: None,
                srst: None,
                pmu: None,
                dbcn: None,
                susp: None,
                cppc: None,
                info,
            },
        }
    }
}

impl<T, I, R, H, S, P, C, SU, CP> Builder<T, I, R, H, S, P, C, SU, CP> {
    /// Add Timer programmer extension to RustSBI: the instance provides it from then on.
    pub fn with_timer<T2: Timer>(self, timer: T2) -> (r: Builder<T2, I, R, H, S, P, C, SU, CP>)
        ensures
            forall|e: Extension|
                r.spec_inner().present(e) == (e == Extension::Timer || self.spec_inner().present(e)),
            r.spec_inner().spec_info() == self.spec_inner().spec_info(),
    {
        Builder {
            inner: RustSBI {
                timer: Some(timer),
                ipi: self.inner.ipi,
                rfnc: self.inner.rfnc,
                hsm: self.inner.hsm,
                srst: self.inner.srst,
                pmu: self.inner.pmu,
                dbcn: self.inner.dbcn,
                susp: self.inner.susp,
                cppc: self.inner.cppc,
                info: self.inner.info,
            },
        }
    }

    /// Add Inter-processor Interrupt extension to RustSBI: the instance provides it from then on.
    pub fn with_ipi<I2: Ipi>(self, ipi: I2) -> (r: Builder<T, I2, R, H, S, P, C, SU, CP>)
        ensures
            forall|e: Extension|
                r.spec_inner().present(e) == (e == Extension::Ipi || self.spec_inner().present(e)),
            r.spec_inner().spec_info() == self.spec_inner().spec_info(),
    {
        Builder {
            inner: RustSBI {
                timer: self.inner.timer,
                ipi: Some(ipi),
                rfnc: self.inner.rfnc,
                hsm: self.inner.hsm,
                srst: self.inner.srst,
                pmu: self.inner.pmu,
                dbcn: self.inner.dbcn,
                susp: self.inner.susp,
                cppc: self.inner.cppc,
                info: self.inner.info,
            },
        }
    }

    /// Add Remote Fence extension to RustSBI: the instance provides it from then on.
    pub fn with_fence<R2: Fence>(self, fence: R2) -> (r: Builder<T, I, R2, H, S, P, C, SU, CP>)
        ensures
            forall|e: Extension|
                r.spec_inner().present(e) == (e == Extension::Fence || self.spec_inner().present(e)),
            r.spec_inner().spec_info() == self.spec_inner().spec_info(),
    {
        Builder {
            inner: RustSBI {
                timer: self.inner.timer,
                ipi: self.inner.ipi,
                rfnc: Some(fence),
                hsm: self.inner.hsm,
                srst: self.inner.srst,
                pmu: self.inner.pmu,
                dbcn: self.inner.dbcn,
                susp: self.inner.susp,
                cppc: self.inner.cppc,
                info: self.inner.info,
            },
        }
    }

    /// Add Hart State Monitor extension to RustSBI: the instance provides it from then on.
    pub fn with_hsm<H2: Hsm>(self, hsm: H2) -> (r: Builder<T, I, R, H2, S, P, C, SU, CP>)
        ensures
            forall|e: Extension|
                r.spec_inner().present(e) == (e == Extension::Hsm || self.spec_inner().present(e)),
            r.spec_inner().spec_info() == self.spec_inner().spec_info(),
    {
        Builder {
            inner: RustSBI {
                timer: self.inner.timer,
                ipi: self.inner.ipi,
                rfnc: self.inner.rfnc,
                hsm: Some(hsm),
                srst: self.inner.srst,
                pmu: self.inner.pmu,
                dbcn: self.inner.dbcn,
                susp: self.inner.susp,
                cppc: self.inner.cppc,
                info: self.inner.info,
            },
        }
    }

    /// Add System Reset extension to RustSBI: the instance provides it from then on.
    pub fn with_reset<S2: Reset>(self, reset: S2) -> (r: Builder<T, I, R, H, S2, P, C, SU, CP>)
        ensures
            forall|e: Extension|
                r.spec_inner().present(e) == (e == Extension::Reset || self.spec_inner().present(e)),
            r.spec_inner().spec_info() == self.spec_inner().spec_info(),
    {
        Builder {
            inner: RustSBI {
                timer: self.inner.timer,
                ipi: self.inner.ipi,
                rfnc: self.inner.rfnc,
                hsm: self.inner.hsm,
                srst: Some(reset),
                pmu: self.inner.pmu,
                dbcn: self.inner.dbcn,
                susp: self.inner.susp,
                cppc: self.inner.cppc,
                info: self.inner.info,
            },
        }
    }

    /// Add Performance Monitor Unit extension to RustSBI: the instance provides it from then on.
    pub fn with_pmu<P2: Pmu>(self, pmu: P2) -> (r: Builder<T, I, R, H, S, P2, C, SU, CP>)
        ensures
            forall|e: Extension|
                r.spec_inner().present(e) == (e == Extension::Pmu || self.spec_inner().present(e)),
            r.spec_inner().spec_info() == self.spec_inner().spec_info(),
    {
        Builder {
            inner: RustSBI {
                timer: self.inner.timer,
                ipi: self.inner.ipi,
                rfnc: self.inner.rfnc,
                hsm: self.inner.hsm,
                srst: self.inner.srst,
                pmu: Some(pmu),
                dbcn: self.inner.dbcn,
                susp: self.inner.susp,
                cppc: self.inner.cppc,
                info: self.inner.info,
            },
        }
    }

    /// Add Debug Console extension to RustSBI: the instance provides it from then on.
    pub fn with_console<C2: Console>(self, console: C2) -> (r: Builder<T, I, R, H, S, P, C2, SU, CP>)
        ensures
            forall|e: Extension|
                r.spec_inner().present(e) == (e == Extension::Console || self.spec_inner().present(e)),
            r.spec_inner().spec_info() == self.spec_inner().spec_info(),
    {
        Builder {
            inner: RustSBI {
                timer: self.inner.timer,
                ipi: self.inner.ipi,
                rfnc: self.inner.rfnc,
                hsm: self.inner.hsm,
                srst: self.inner.srst,
                pmu: self.inner.pmu,
                dbcn: Some(console),
                susp: self.inner.susp,
                cppc: self.inner.cppc,
                info: self.inner.info,
            },
        }
    }

    /// Add System Suspend extension to RustSBI: the instance provides it from then on.
    pub fn with_susp<SU2: Susp>(self, susp: SU2) -> (r: Builder<T, I, R, H, S, P, C, SU2, CP>)
        ensures
            forall|e: Extension|
                r.spec_inner().present(e) == (e == Extension::Susp || self.spec_inner().present(e)),
            r.spec_inner().spec_info() == self.spec_inner().spec_info(),
    {
        Builder {
            inner: RustSBI {
                timer: self.inner.timer,
                ipi: self.inner.ipi,
                rfnc: self.inner.rfnc,
                hsm: self.inner.hsm,
                srst: self.inner.srst,
                pmu: self.inner.pmu,
                dbcn: self.inner.dbcn,
                susp: Some(susp),
                cppc: self.inner.cppc,
                info: self.inner.info,
            },
        }
    }

    /// Add CPPC extension to RustSBI: the instance provides it from then on.
    pub fn with_cppc<CP2: Cppc>(self, cppc: CP2) -> (r: Builder<T, I, R, H, S, P, C, SU, CP2>)
        ensures
            forall|e: Extension|
                r.spec_inner().present(e) == (e == Extension::Cppc || self.spec_inner().present(e)),
            r.spec_inner().spec_info() == self.spec_inner().spec_info(),
    {
        Builder {
            inner: RustSBI {
                timer: self.inner.timer,
                ipi: self.inner.ipi,
                rfnc: self.inner.rfnc,
                hsm: self.inner.hsm,
                srst: self.inner.srst,
                pmu: self.inner.pmu,
                dbcn: self.inner.dbcn,
                susp: self.inner.susp,
                cppc: Some(cppc),
                info: self.inner.info,
            },
        }
    }

    /// Builds the target RustSBI instance.
    pub fn build(self) -> (r: RustSBI<T, I, R, H, S, P, C, SU, CP>)
        ensures
            r == self.spec_inner(),
    {
        self.inner
    }
}

} // verus!

verus! {

/// The extension id of a standard extension.
pub open spec fn eid_of(e: Extension) -> usize {
    match e {
        Extension::Timer => EID_TIME,
        Extension::Ipi => EID_SPI,
        Extension::Fence => EID_RFNC,
        Extension::Hsm => EID_HSM,
        Extension::Reset => EID_SRST,
        Extension::Pmu => EID_PMU,
        Extension::Console => EID_DBCN,
        Extension::Susp => EID_SUSP,
        Extension::Cppc => EID_CPPC,
    }
}

/// Probing reports exactly the extensions an instance provides: the probe
/// of a standard extension's id answers one when the instance provides it
/// and zero otherwise, and a call of an absent extension is not supported.
pub proof fn lemma_probe_reports_presence<T, I, R, H, S, P, C, SU, CP>(
    sbi: RustSBI<T, I, R, H, S, P, C, SU, CP>,
    e: Extension,
    c: SbiCall,
)
    ensures
        sbi.probe_value(eid_of(e)) == (if sbi.present(e) {
            1usize
        } else {
            0usize
        }),
        served_by(c) == Some(e) && !sbi.present(e) ==> own_answer(sbi, c) == Some(
            SbiRet { error: RET_ERR_NOT_SUPPORTED, value: 0 },
        ),
{
}

/// The probe of each standard extension id answers whether the instance
/// provides that very extension: timer, IPI, remote fence, hart state
/// management, system reset, PMU, debug console, system suspend, CPPC; the
/// base extension is always provided.
pub proof fn lemma_probe_by_id<T, I, R, H, S, P, C, SU, CP>(sbi: RustSBI<T, I, R, H, S, P, C, SU, CP>)
    ensures
        sbi.probe_value(EID_BASE) == 1,
        (sbi.probe_value(EID_TIME) == 1) == sbi.present(Extension::Timer),
        (sbi.probe_value(EID_SPI) == 1) == sbi.present(Extension::Ipi),
        (sbi.probe_value(EID_RFNC) == 1) == sbi.present(Extension::Fence),
        (sbi.probe_value(EID_HSM) == 1) == sbi.present(Extension::Hsm),
        (sbi.probe_value(EID_SRST) == 1) == sbi.present(Extension::Reset),
        (sbi.probe_value(EID_PMU) == 1) == sbi.present(Extension::Pmu),
        (sbi.probe_value(EID_DBCN) == 1) == sbi.present(Extension::Console),
        (sbi.probe_value(EID_SUSP) == 1) == sbi.present(Extension::Susp),
        (sbi.probe_value(EID_CPPC) == 1) == sbi.present(Extension::Cppc),
{
}

} // verus!

verus! {

/// Whether hart `h` belongs to the harts that registers `a0` (mask word)
/// and `a1` (base hart id) name: every hart when `a1` is `usize::MAX`,
/// otherwise hart `a1 + i` for each set bit `i` of `a0`.
pub open spec fn named_by_registers(a0: usize, a1: usize, h: usize) -> bool {
    a1 == usize::MAX || (a1 <= h && h - a1 < usize::BITS && a0 & (1usize << ((h - a1) as usize)) != 0)
}

/// The hart mask a decoded call is addressed to, for the calls that carry
/// one.
pub open spec fn mask_of(c: SbiCall) -> Option<HartMask> {
    match c {
        SbiCall::SendIpi(m) => Some(m),
        SbiCall::RemoteFenceI(m) => Some(m),
        SbiCall::RemoteSfenceVma(m, _, _) => Some(m),
        SbiCall::RemoteSfenceVmaAsid(m, _, _, _) => Some(m),
        SbiCall::RemoteHfenceGvmaVmid(m, _, _, _) => Some(m),
        SbiCall::RemoteHfenceGvma(m, _, _) => Some(m),
        SbiCall::RemoteHfenceVvmaAsid(m, _, _, _) => Some(m),
        SbiCall::RemoteHfenceVvma(m, _, _) => Some(m),
        _ => None,
    }
}

/// A send-IPI call and every known remote fence call are addressed to the
/// harts that `a0` (mask word) and `a1` (base hart id) name: hart `h`
/// belongs to the decoded mask exactly when the registers name it. So a
/// supervisor that sends to `a0 = 1, a1 = 0` reaches hart 0.
pub proof fn lemma_decoded_mask_is_registers(eid: usize, fid: usize, p: Seq<usize>, h: usize)
    requires
        (eid == EID_SPI && fid == SEND_IPI) || (eid == EID_RFNC && fid <= REMOTE_HFENCE_VVMA),
    ensures
        mask_of(call_of(eid, fid, p)) matches Some(m) && m.spec_contains(h) == named_by_registers(
            p[0],
            p[1],
            h,
        ),
{
    crate::binary::lemma_spec_from_fields(p[0], p[1]);
}

/// The range of a remote fence call is `a2` (start) and `a3` (size), and
/// the address space or virtual machine id is `a4`.
pub proof fn lemma_fence_range_is_registers(fid: usize, p: Seq<usize>)
    ensures
        fid == REMOTE_SFENCE_VMA ==> (call_of(EID_RFNC, fid, p) matches SbiCall::RemoteSfenceVma(_, s, z)
            && s == p[2] && z == p[3]),
        fid == REMOTE_SFENCE_VMA_ASID ==> (call_of(EID_RFNC, fid, p) matches SbiCall::RemoteSfenceVmaAsid(
            _,
            s,
            z,
            x,
        ) && s == p[2] && z == p[3] && x == p[4]),
        fid == REMOTE_HFENCE_GVMA_VMID ==> (call_of(EID_RFNC, fid, p) matches SbiCall::RemoteHfenceGvmaVmid(
            _,
            s,
            z,
            x,
        ) && s == p[2] && z == p[3] && x == p[4]),
        fid == REMOTE_HFENCE_GVMA ==> (call_of(EID_RFNC, fid, p) matches SbiCall::RemoteHfenceGvma(_, s, z)
            && s == p[2] && z == p[3]),
        fid == REMOTE_HFENCE_VVMA_ASID ==> (call_of(EID_RFNC, fid, p) matches SbiCall::RemoteHfenceVvmaAsid(
            _,
            s,
            z,
            x,
        ) && s == p[2] && z == p[3] && x == p[4]),
        fid == REMOTE_HFENCE_VVMA ==> (call_of(EID_RFNC, fid, p) matches SbiCall::RemoteHfenceVvma(_, s, z)
            && s == p[2] && z == p[3]),
{
}

} // verus!
