//! Environment-call entry with the legacy (SBI v0.1) functions: checks the
//! call identifiers, hands the standard extensions to an SBI instance and
//! answers the legacy functions in their own register convention.
use crate::binary::{
    RET_ERR_ALREADY_AVAILABLE, RET_ERR_ALREADY_STARTED, RET_ERR_ALREADY_STOPPED, RET_ERR_FAILED,
    RET_ERR_INVALID_ADDRESS, RET_ERR_INVALID_PARAM, RET_ERR_NOT_SUPPORTED, RET_SUCCESS,
};
use crate::ids::{EID_BASE, EID_HSM, EID_PMU, EID_RFNC, EID_SPI, EID_SRST, EID_TIME};
use crate::extensions::{Console, Cppc, Fence, Hsm, Ipi, Pmu, Reset, Susp, Timer};
use crate::instance::{call_of, reply_of, wide, wide_arg, RustSBI};
use vstd::prelude::*;

pub mod ipi;
pub mod pmu;
pub mod rfnc;

verus! {

/// Legacy: program the timer.
pub const LEGACY_SET_TIMER: usize = 0;
/// Legacy: write a character to the console.
pub const LEGACY_CONSOLE_PUTCHAR: usize = 1;
/// Legacy: read a character from the console.
pub const LEGACY_CONSOLE_GETCHAR: usize = 2;
/// Legacy: send inter-processor interrupts.
pub const LEGACY_SEND_IPI: usize = 4;
/// Legacy: shut the system down.
pub const LEGACY_SHUTDOWN: usize = 8;

/// Call result returned by SBI: `error` goes to `a0`, `value` to `a1`.
#[derive(Clone, Copy, PartialEq, Eq, Structural)]
pub struct SbiRet {
    /// Error number.
    pub error: usize,
    /// Result value.
    pub value: usize,
}

impl SbiRet {
    /// Return success SBI state with given value.
    pub fn ok(value: usize) -> (r: SbiRet)
        ensures
            r == (SbiRet { error: RET_SUCCESS, value }),
    {
        SbiRet { error: RET_SUCCESS, value }
    }

    /// The SBI call request failed for unknown reasons.
    pub fn failed() -> (r: SbiRet)
        ensures
            r == (SbiRet { error: RET_ERR_FAILED, value: 0 }),
    {
        SbiRet { error: RET_ERR_FAILED, value: 0 }
    }

    /// SBI call failed due to not supported by target ISA, operation type not
    /// supported, or target operation type not implemented on purpose.
    pub fn not_supported() -> (r: SbiRet)
        ensures
            r == (SbiRet { error: RET_ERR_NOT_SUPPORTED, value: 0 }),
    {
        SbiRet { error: RET_ERR_NOT_SUPPORTED, value: 0 }
    }

    /// SBI call failed due to invalid hart mask parameter, invalid target
    /// hart id, invalid operation type or invalid resource index.
    pub fn invalid_param() -> (r: SbiRet)
        ensures
            r == (SbiRet { error: RET_ERR_INVALID_PARAM, value: 0 }),
    {
        SbiRet { error: RET_ERR_INVALID_PARAM, value: 0 }
    }

    /// SBI call failed for invalid mask start address, not a valid physical
    /// address parameter, or the target address is prohibited by PMP to run
    /// in supervisor mode.
    pub fn invalid_address() -> (r: SbiRet)
        ensures
            r == (SbiRet { error: RET_ERR_INVALID_ADDRESS, value: 0 }),
    {
        SbiRet { error: RET_ERR_INVALID_ADDRESS, value: 0 }
    }

    /// SBI call failed for the target resource is already available.
    pub fn already_available() -> (r: SbiRet)
        ensures
            r == (SbiRet { error: RET_ERR_ALREADY_AVAILABLE, value: 0 }),
    {
        SbiRet { error: RET_ERR_ALREADY_AVAILABLE, value: 0 }
    }

    /// SBI call failed for the target resource is already started.
    pub fn already_started() -> (r: SbiRet)
        ensures
            r == (SbiRet { error: RET_ERR_ALREADY_STARTED, value: 0 }),
    {
        SbiRet { error: RET_ERR_ALREADY_STARTED, value: 0 }
    }

    /// SBI call failed for the target resource is already stopped.
    pub fn already_stopped() -> (r: SbiRet)
        ensures
            r == (SbiRet { error: RET_ERR_ALREADY_STOPPED, value: 0 }),
    {
        SbiRet { error: RET_ERR_ALREADY_STOPPED, value: 0 }
    }

    /// A legacy result: the value goes to `a0`, `a1` is zero.
    pub(crate) fn legacy_ok(legacy_value: usize) -> (r: SbiRet)
        ensures
            r == (SbiRet { error: legacy_value, value: 0 }),
    {
        SbiRet { error: legacy_value, value: 0 }
    }

    /// A legacy call that returns nothing: `a0` and `a1` are left as they
    /// were.
    pub(crate) fn legacy_void(self, a0: usize, a1: usize) -> (r: SbiRet)
        ensures
            r == (SbiRet { error: a0, value: a1 }),
    {
        SbiRet { error: a0, value: a1 }
    }

    /// A legacy call that returns in `a0` only: `a1` is left as it was.
    pub(crate) fn legacy_return(self, a1: usize) -> (r: SbiRet)
        ensures
            r == (SbiRet { error: self.error, value: a1 }),
    {
        SbiRet { error: self.error, value: a1 }
    }
}

/// The legacy (SBI v0.1) services of the platform. Each method comes with a
/// relation that the platform's impl gives meaning to: from which state, on
/// which argument, it may reach which state with which reply.
pub trait EcallEnv: Sized {
    /// Whether programming the timer for `stime_value` from this state may
    /// lead to state `after` with reply `r`.
    closed spec fn set_timer_step(&self, stime_value: u64, after: Self, r: SbiRet) -> bool {
        true
    }

    /// Legacy: programs the timer for `stime_value`.
    fn set_timer(&mut self, stime_value: u64) -> (r: SbiRet)
        ensures
            old(self).set_timer_step(stime_value, *final(self), r),
    ;

    /// Whether writing character `ch` from this state may lead to state
    /// `after` with reply `r`.
    closed spec fn console_putchar_step(&self, ch: usize, after: Self, r: SbiRet) -> bool {
        true
    }

    /// Legacy: writes character `ch` to the console.
    fn console_putchar(&mut self, ch: usize) -> (r: SbiRet)
        ensures
            old(self).console_putchar_step(ch, *final(self), r),
    ;

    /// Whether reading a character from this state may lead to state
    /// `after` with reply `r`.
    closed spec fn console_getchar_step(&self, after: Self, r: SbiRet) -> bool {
        true
    }

    /// Legacy: reads a character from the console, into `error`.
    fn console_getchar(&mut self) -> (r: SbiRet)
        ensures
            old(self).console_getchar_step(*final(self), r),
    ;

    /// Whether sending IPIs to the harts whose mask is stored at
    /// `hart_mask_addr` from this state may lead to state `after` with reply
    /// `r`.
    closed spec fn send_ipi_step(&self, hart_mask_addr: usize, after: Self, r: SbiRet) -> bool {
        true
    }

    /// Legacy: sends IPIs to the harts whose mask is stored at supervisor
    /// address `hart_mask_addr`.
    fn send_ipi(&mut self, hart_mask_addr: usize) -> (r: SbiRet)
        ensures
            old(self).send_ipi_step(hart_mask_addr, *final(self), r),
    ;

    /// Whether shutting down from this state may lead to state `after` with
    /// reply `r`.
    closed spec fn shutdown_step(&self, after: Self, r: SbiRet) -> bool {
        true
    }

    /// Legacy: shuts the system down.
    fn shutdown(&mut self) -> (r: SbiRet)
        ensures
            old(self).shutdown_step(*final(self), r),
    ;
}

/// Where an environment call goes.
#[derive(Clone, Copy, PartialEq, Eq, Structural)]
pub enum EcallRoute {
    /// Refused with `not_supported`: unknown, or an identifier that is no
    /// signed 32-bit value.
    Refused,
    /// A standard extension, with the function id.
    Standard(u32),
    /// Legacy timer.
    SetTimer(u64),
    /// Legacy console output of a character.
    ConsolePutchar(usize),
    /// Legacy console input.
    ConsoleGetchar,
    /// Legacy IPI, with the address of the hart mask.
    SendIpi(usize),
    /// Legacy shutdown.
    Shutdown,
}

/// The route of a call: extension and function ids must fit in 32 bits
/// (the extension id only matters on harts wider than 32 bits); the seven
/// standard extensions go on, the legacy functions are answered here.
pub open spec fn route_of(extension: usize, function: usize, p: Seq<usize>) -> EcallRoute {
    if usize::BITS != 32 && extension > u32::MAX {
        EcallRoute::Refused
    } else if function > u32::MAX {
        EcallRoute::Refused
    } else if extension == EID_RFNC || extension == EID_TIME || extension == EID_SPI || extension
        == EID_BASE || extension == EID_HSM || extension == EID_SRST || extension == EID_PMU {
        EcallRoute::Standard(function as u32)
    } else if extension == LEGACY_SET_TIMER {
        EcallRoute::SetTimer(wide_arg(p[0], p[1]))
    } else if extension == LEGACY_CONSOLE_PUTCHAR {
        EcallRoute::ConsolePutchar(p[0])
    } else if extension == LEGACY_CONSOLE_GETCHAR {
        EcallRoute::ConsoleGetchar
    } else if extension == LEGACY_SEND_IPI {
        EcallRoute::SendIpi(p[0])
    } else if extension == LEGACY_SHUTDOWN {
        EcallRoute::Shutdown
    } else {
        EcallRoute::Refused
    }
}

/// Computes the route of a call (see `route_of`).
pub fn route_ecall(extension: usize, function: usize, param: [usize; 6]) -> (r: EcallRoute)
    ensures
        r == route_of(extension, function, param@),
{
    if usize::BITS != 32 && extension > u32::MAX as usize {
        return EcallRoute::Refused;
    }
    if function > u32::MAX as usize {
        return EcallRoute::Refused;
    }
    if extension == EID_RFNC || extension == EID_TIME || extension == EID_SPI || extension == EID_BASE
        || extension == EID_HSM || extension == EID_SRST || extension == EID_PMU {
        EcallRoute::Standard(function as u32)
    } else if extension == LEGACY_SET_TIMER {
        EcallRoute::SetTimer(wide(param[0], param[1]))
    } else if extension == LEGACY_CONSOLE_PUTCHAR {
        EcallRoute::ConsolePutchar(param[0])
    } else if extension == LEGACY_CONSOLE_GETCHAR {
        EcallRoute::ConsoleGetchar
    } else if extension == LEGACY_SEND_IPI {
        EcallRoute::SendIpi(param[0])
    } else if extension == LEGACY_SHUTDOWN {
        EcallRoute::Shutdown
    } else {
        EcallRoute::Refused
    }
}

/// An `SbiRet` of the extensions' encoding with the same two registers.
pub open spec fn as_ext_ret(r: SbiRet) -> crate::binary::SbiRet {
    crate::binary::SbiRet { error: r.error, value: r.value }
}

/// Supervisor environment call handler: extension id, function id and the
/// six argument registers. Refused calls answer `not_supported` and touch
/// nothing; the seven standard extensions go to the instance `sbi`, which
/// decodes the call and hands it to the extension that serves it (see
/// `RustSBI::handle_ecall`); the legacy functions go to `env` with the
/// argument decoded from the registers and leave `a0` and `a1` as they
/// were, except the console read, which puts the reply's `error` (the
/// character) in `a0`.
pub fn handle_ecall<
    T: Timer,
    I: Ipi,
    R: Fence,
    H: Hsm,
    S: Reset,
    P: Pmu,
    C: Console,
    SU: Susp,
    CP: Cppc,
    E: EcallEnv,
>(
    sbi: &mut RustSBI<T, I, R, H, S, P, C, SU, CP>,
    env: &mut E,
    extension: usize,
    function: usize,
    param: [usize; 6],
) -> (r: SbiRet)
    ensures
        *final(sbi) == *old(sbi),
        match route_of(extension, function, param@) {
            EcallRoute::Refused => r == (SbiRet { error: RET_ERR_NOT_SUPPORTED, value: 0 })
                && *final(env) == *old(env),
            EcallRoute::Standard(_) => *final(env) == *old(env) && reply_of(
                *old(sbi),
                call_of(extension, function, param@),
                as_ext_ret(r),
            ),
            EcallRoute::SetTimer(t) => r == (SbiRet { error: param@[0], value: param@[1] }) && exists|
                c: SbiRet,
            | #[trigger] (*old(env)).set_timer_step(t, *final(env), c),
            EcallRoute::ConsolePutchar(ch) => r == (SbiRet { error: param@[0], value: param@[1] })
                && exists|c: SbiRet| #[trigger] (*old(env)).console_putchar_step(ch, *final(env), c),
            EcallRoute::ConsoleGetchar => r.value == param@[1] && exists|c: SbiRet|
                #[trigger] (*old(env)).console_getchar_step(*final(env), c) && r.error == c.error,
            EcallRoute::SendIpi(a) => r == (SbiRet { error: param@[0], value: param@[1] }) && exists|
                c: SbiRet,
            | #[trigger] (*old(env)).send_ipi_step(a, *final(env), c),
            EcallRoute::Shutdown => r == (SbiRet { error: param@[0], value: param@[1] }) && exists|
                c: SbiRet,
            | #[trigger] (*old(env)).shutdown_step(*final(env), c),
        },
{
    match route_ecall(extension, function, param) {
        EcallRoute::Refused => SbiRet::not_supported(),
        EcallRoute::Standard(_) => {
            let a = sbi.handle_ecall(extension, function, param);
            SbiRet { error: a.error, value: a.value }
        },
        EcallRoute::SetTimer(t) => {
            let c = env.set_timer(t);
            c.legacy_void(param[0], param[1])
        },
        EcallRoute::ConsolePutchar(ch) => {
            let c = env.console_putchar(ch);
            c.legacy_void(param[0], param[1])
        },
        EcallRoute::ConsoleGetchar => {
            let c = env.console_getchar();
            c.legacy_return(param[1])
        },
        EcallRoute::SendIpi(a) => {
            let c = env.send_ipi(a);
            c.legacy_void(param[0], param[1])
        },
        EcallRoute::Shutdown => {
            let c = env.shutdown();
            c.legacy_void(param[0], param[1])
        },
    }
}

} // verus!
