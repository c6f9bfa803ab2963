//! Which SBI extensions the firmware answers.
use crate::ecall::{LEGACY_CONSOLE_GETCHAR, LEGACY_CONSOLE_PUTCHAR, LEGACY_SEND_IPI, LEGACY_SET_TIMER, LEGACY_SHUTDOWN};
use crate::ids::{EID_BASE, EID_HSM, EID_PMU, EID_RFNC, EID_SPI, EID_SRST, EID_TIME};
use vstd::prelude::*;

verus! {

/// Legacy: clear the pending IPI.
pub const LEGACY_CLEAR_IPI: usize = 3;

/// Which services the platform installed.
#[derive(Clone, Copy, Debug, PartialEq, Eq, Structural)]
pub struct Probes {
    /// A timer.
    pub timer: bool,
    /// Inter-processor interrupts.
    pub ipi: bool,
    /// Remote fences.
    pub rfence: bool,
    /// System reset.
    pub reset: bool,
    /// Hart state management.
    pub hsm: bool,
    /// Performance monitoring.
    pub pmu: bool,
    /// The legacy console.
    pub legacy_stdio: bool,
}

/// Whether extension `extension` is available: the base extension and the
/// legacy IPI clearing always are; the others when their service is
/// installed (the legacy timer, IPI and shutdown through the timer, IPI and
/// reset services); the legacy remote fences never are.
pub open spec fn available(probes: Probes, extension: usize) -> bool {
    if extension == EID_BASE || extension == LEGACY_CLEAR_IPI {
        true
    } else if extension == EID_TIME || extension == LEGACY_SET_TIMER {
        probes.timer
    } else if extension == EID_SPI || extension == LEGACY_SEND_IPI {
        probes.ipi
    } else if extension == EID_RFNC {
        probes.rfence
    } else if extension == EID_SRST || extension == LEGACY_SHUTDOWN {
        probes.reset
    } else if extension == EID_HSM {
        probes.hsm
    } else if extension == EID_PMU {
        probes.pmu
    } else if extension == LEGACY_CONSOLE_PUTCHAR || extension == LEGACY_CONSOLE_GETCHAR {
        probes.legacy_stdio
    } else {
        false
    }
}

/// Whether extension `extension` is available (see `available`).
pub fn probe_extension(probes: &Probes, extension: usize) -> (r: bool)
    ensures
        r == available(*probes, extension),
{
    if extension == EID_BASE || extension == LEGACY_CLEAR_IPI {
        true
    } else if extension == EID_TIME || extension == LEGACY_SET_TIMER {
        probes.timer
    } else if extension == EID_SPI || extension == LEGACY_SEND_IPI {
        probes.ipi
    } else if extension == EID_RFNC {
        probes.rfence
    } else if extension == EID_SRST || extension == LEGACY_SHUTDOWN {
        probes.reset
    } else if extension == EID_HSM {
        probes.hsm
    } else if extension == EID_PMU {
        probes.pmu
    } else if extension == LEGACY_CONSOLE_PUTCHAR || extension == LEGACY_CONSOLE_GETCHAR {
        probes.legacy_stdio
    } else {
        false
    }
}

/// Probing a standard extension answers exactly whether the service behind
/// it is installed: the timer for the timer extension, IPIs for the IPI
/// extension, remote fences for the fence extension, system reset for the
/// reset extension, hart state management and performance monitoring for
/// theirs, the legacy console for the legacy console calls; the base
/// extension is always there.
pub proof fn lemma_probe_answers_installed(probes: Probes)
    ensures
        available(probes, EID_BASE),
        available(probes, EID_TIME) == probes.timer,
        available(probes, EID_SPI) == probes.ipi,
        available(probes, EID_RFNC) == probes.rfence,
        available(probes, EID_SRST) == probes.reset,
        available(probes, EID_HSM) == probes.hsm,
        available(probes, EID_PMU) == probes.pmu,
        available(probes, LEGACY_SET_TIMER) == probes.timer,
        available(probes, LEGACY_SEND_IPI) == probes.ipi,
        available(probes, LEGACY_SHUTDOWN) == probes.reset,
        available(probes, LEGACY_CONSOLE_PUTCHAR) == probes.legacy_stdio,
        available(probes, LEGACY_CONSOLE_GETCHAR) == probes.legacy_stdio,
{
}

} // verus!
