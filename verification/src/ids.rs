//! Extension and function identifiers of the SBI calls this firmware answers.
use vstd::prelude::*;

verus! {

/// Base extension.
pub const EID_BASE: usize = 0x10;
/// Timer extension (`"TIME"`).
pub const EID_TIME: usize = 0x54494D45;
/// Inter-processor interrupt extension (`"sPI"`).
pub const EID_SPI: usize = 0x735049;
/// Remote fence extension (`"RFNC"`).
pub const EID_RFNC: usize = 0x52464E43;
/// Hart state management extension (`"HSM"`).
pub const EID_HSM: usize = 0x48534D;
/// System reset extension (`"SRST"`).
pub const EID_SRST: usize = 0x53525354;
/// Performance monitoring unit extension (`"PMU"`).
pub const EID_PMU: usize = 0x504D55;
/// Debug console extension (`"DBCN"`).
pub const EID_DBCN: usize = 0x4442434E;
/// System suspend extension (`"SUSP"`).
pub const EID_SUSP: usize = 0x53555350;
/// Collaborative processor performance control extension (`"CPPC"`).
pub const EID_CPPC: usize = 0x43505043;

/// Value a probe returns for an extension that is not available.
pub const UNAVAILABLE_EXTENSION: usize = 0;

/// Base: specification version.
pub const GET_SBI_SPEC_VERSION: usize = 0;
/// Base: implementation id.
pub const GET_SBI_IMPL_ID: usize = 1;
/// Base: implementation version.
pub const GET_SBI_IMPL_VERSION: usize = 2;
/// Base: probe an extension.
pub const PROBE_EXTENSION: usize = 3;
/// Base: machine vendor id.
pub const GET_MVENDORID: usize = 4;
/// Base: machine architecture id.
pub const GET_MARCHID: usize = 5;
/// Base: machine implementation id.
pub const GET_MIMPID: usize = 6;

/// Remote fence: `FENCE.I`.
pub const REMOTE_FENCE_I: usize = 0;
/// Remote fence: `SFENCE.VMA`.
pub const REMOTE_SFENCE_VMA: usize = 1;
/// Remote fence: `SFENCE.VMA` with an address space id.
pub const REMOTE_SFENCE_VMA_ASID: usize = 2;
/// Remote fence: `HFENCE.GVMA` with a virtual machine id.
pub const REMOTE_HFENCE_GVMA_VMID: usize = 3;
/// Remote fence: `HFENCE.GVMA`.
pub const REMOTE_HFENCE_GVMA: usize = 4;
/// Remote fence: `HFENCE.VVMA` with an address space id.
pub const REMOTE_HFENCE_VVMA_ASID: usize = 5;
/// Remote fence: `HFENCE.VVMA`.
pub const REMOTE_HFENCE_VVMA: usize = 6;

/// Timer: program the next event.
pub const SET_TIMER: usize = 0;
/// IPI: send an inter-processor interrupt.
pub const SEND_IPI: usize = 0;

/// HSM: start a hart.
pub const HART_START: usize = 0;
/// HSM: stop the calling hart.
pub const HART_STOP: usize = 1;
/// HSM: status of a hart.
pub const HART_GET_STATUS: usize = 2;
/// HSM: suspend the calling hart.
pub const HART_SUSPEND: usize = 3;

/// System reset: reset the system.
pub const SYSTEM_RESET: usize = 0;

/// PMU: number of counters.
pub const PMU_NUM_COUNTERS: usize = 0;
/// PMU: counter details.
pub const PMU_COUNTER_GET_INFO: usize = 1;
/// PMU: find and configure a matching counter.
pub const PMU_COUNTER_CONFIG_MATCHING: usize = 2;
/// PMU: start counters.
pub const PMU_COUNTER_START: usize = 3;
/// PMU: stop counters.
pub const PMU_COUNTER_STOP: usize = 4;
/// PMU: read a firmware counter.
pub const PMU_COUNTER_FW_READ: usize = 5;
/// PMU: read the upper bits of a firmware counter.
pub const PMU_COUNTER_FW_READ_HI: usize = 6;

/// Debug console: write bytes.
pub const CONSOLE_WRITE: usize = 0;
/// Debug console: read bytes.
pub const CONSOLE_READ: usize = 1;
/// Debug console: write one byte.
pub const CONSOLE_WRITE_BYTE: usize = 2;

/// System suspend: suspend the system.
pub const SUSPEND: usize = 0;

/// CPPC: probe a register.
pub const CPPC_PROBE: usize = 0;
/// CPPC: read a register.
pub const CPPC_READ: usize = 1;
/// CPPC: read the upper half of a register.
pub const CPPC_READ_HI: usize = 2;
/// CPPC: write a register.
pub const CPPC_WRITE: usize = 3;

/// Version of the SBI specification implemented: major part.
pub const SBI_SPEC_MAJOR: usize = 2;
/// Version of the SBI specification implemented: minor part.
pub const SBI_SPEC_MINOR: usize = 0;
/// Implementation id of RustSBI.
pub const IMPL_ID_RUSTSBI: usize = 4;
/// Implementation version, as `major << 16 | minor << 8 | patch`.
pub const RUSTSBI_VERSION: usize = 0x400;

} // verus!
