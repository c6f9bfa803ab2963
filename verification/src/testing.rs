//! Verdicts of the SBI test suite: which reported case fails a run, and at
//! which level each is logged; and the decisions of the timer test.
use vstd::prelude::*;

verus! {

/// Log level of a reported case; `Silent` cases are not logged.
#[derive(Clone, Copy, Debug, PartialEq, Eq, Structural)]
pub enum Level {
    /// Not logged.
    Silent,
    /// Debug.
    Debug,
    /// Info.
    Info,
    /// Warning.
    Warn,
    /// Error.
    Error,
}

/// Cases of the base extension test.
#[derive(Clone, Copy, Debug, PartialEq, Eq, Structural)]
pub enum BaseKind {
    /// The extension is missing.
    NotExist,
    /// Test begins.
    Begin,
    /// Test passed.
    Pass,
    /// Specification version read.
    GetSbiSpecVersion,
    /// A known implementation id read.
    GetSbiImplId,
    /// An unknown implementation id read.
    UnknownSbiImplId,
    /// Implementation version read.
    GetSbiImplVersion,
    /// Extensions probed.
    ProbeExtensions,
    /// Vendor id read.
    GetMvendorId,
    /// Architecture id read.
    GetMarchId,
    /// Implementation id read.
    GetMimpId,
}

/// Cases of the timer extension test.
#[derive(Clone, Copy, Debug, PartialEq, Eq, Structural)]
pub enum TimeKind {
    /// The extension is missing.
    NotExist,
    /// Test begins.
    Begin,
    /// Test passed.
    Pass,
    /// Two reads of the time counter, the second not earlier.
    Interval {
        /// The first read.
        begin: u64,
        /// The second read.
        end: u64,
    },
    /// The time counter could not be read.
    ReadFailed,
    /// The time counter decreased between two reads.
    TimeDecreased {
        /// The first read.
        a: u64,
        /// The second read.
        b: u64,
    },
    /// The timer interrupt arrived.
    SetTimer,
    /// Another trap arrived, with its cause: whether it is an interrupt,
    /// and its code.
    UnexpectedTrap {
        /// Whether the trap is an interrupt.
        interrupt: bool,
        /// The interrupt or exception code.
        code: usize,
    },
}

/// Interrupt code of the supervisor timer interrupt.
pub const SUPERVISOR_TIMER_INTERRUPT: usize = 5;

/// Cases of the IPI extension test.
#[derive(Clone, Copy, Debug, PartialEq, Eq, Structural)]
pub enum SpiKind {
    /// The extension is missing.
    NotExist,
    /// Test begins.
    Begin,
    /// Test passed.
    Pass,
    /// The IPI was sent.
    SendIpi,
    /// Another trap arrived.
    UnexpectedTrap,
}

/// Cases of the hart state management test.
#[derive(Clone, Copy, Debug, PartialEq, Eq, Structural)]
pub enum HsmKind {
    /// The extension is missing.
    NotExist,
    /// Test begins.
    Begin,
    /// Test passed.
    Pass,
    /// A hart was already running.
    HartStartedBeforeTest,
    /// No hart was stopped.
    NoStoppedHart,
    /// A batch of harts begins.
    BatchBegin,
    /// A hart started.
    HartStarted,
    /// A hart failed to start.
    HartStartFailed,
    /// A hart suspended, non-retentive.
    HartSuspendedNonretentive,
    /// A hart resumed.
    HartResumed,
    /// A hart suspended, retentive.
    HartSuspendedRetentive,
    /// A hart stopped.
    HartStopped,
    /// A batch of harts passed.
    BatchPass,
}

/// Cases of the debug console test.
#[derive(Clone, Copy, Debug, PartialEq, Eq, Structural)]
pub enum DbcnKind {
    /// The extension is missing.
    NotExist,
    /// Test begins.
    Begin,
    /// Test passed.
    Pass,
    /// A byte was written.
    WriteByte,
    /// Writing a byte failed.
    WritingByteFailed,
    /// A slice was written.
    WriteSlice,
    /// Only part of a slice was written.
    WritingPartialSlice,
    /// Writing a slice failed.
    WritingSliceFailed,
    /// Bytes were read.
    Read,
    /// Reading failed.
    ReadingFailed,
}

/// A case reported by one of the extension tests.
#[derive(Clone, Copy, Debug, PartialEq, Eq, Structural)]
pub enum TestCase {
    /// Base extension.
    Base(BaseKind),
    /// Timer extension.
    Time(TimeKind),
    /// IPI extension.
    Spi(SpiKind),
    /// Hart state management extension.
    Hsm(HsmKind),
    /// Debug console extension.
    Dbcn(DbcnKind),
}

/// Whether a case fails the run: a missing extension other than the base
/// one, and every failure case.
pub open spec fn fails(c: TestCase) -> bool {
    match c {
        TestCase::Base(_) => false,
        TestCase::Time(k) => k is NotExist || k is ReadFailed || k is TimeDecreased || k is UnexpectedTrap,
        TestCase::Spi(k) => k == SpiKind::NotExist || k == SpiKind::UnexpectedTrap,
        TestCase::Hsm(k) => k == HsmKind::NotExist || k == HsmKind::HartStartFailed,
        TestCase::Dbcn(k) => k == DbcnKind::NotExist || k == DbcnKind::WritingByteFailed || k
            == DbcnKind::WritingSliceFailed || k == DbcnKind::ReadingFailed,
    }
}

/// The level a case is logged at: failures at error, odd but harmless
/// findings at warning, per-hart steps at debug, a written byte not at all,
/// the rest at info.
pub open spec fn level_of(c: TestCase) -> Level {
    if fails(c) {
        Level::Error
    } else {
        match c {
            TestCase::Base(k) => if k == BaseKind::UnknownSbiImplId {
                Level::Warn
            } else {
                Level::Info
            },
            TestCase::Hsm(k) => if k == HsmKind::HartStartedBeforeTest || k == HsmKind::NoStoppedHart {
                Level::Warn
            } else if k == HsmKind::HartStarted || k == HsmKind::HartSuspendedNonretentive || k
                == HsmKind::HartResumed || k == HsmKind::HartSuspendedRetentive || k
                == HsmKind::HartStopped {
                Level::Debug
            } else {
                Level::Info
            },
            TestCase::Dbcn(k) => if k == DbcnKind::WriteByte {
                Level::Silent
            } else if k == DbcnKind::WritingPartialSlice {
                Level::Warn
            } else {
                Level::Info
            },
            _ => Level::Info,
        }
    }
}

/// Whether a case fails the run (see `fails`).
pub fn case_fails(c: TestCase) -> (r: bool)
    ensures
        r == fails(c),
{
    match c {
        TestCase::Base(_) => false,
        TestCase::Time(k) => match k {
            TimeKind::NotExist | TimeKind::ReadFailed | TimeKind::TimeDecreased { .. }
            | TimeKind::UnexpectedTrap { .. } => true,
            _ => false,
        },
        TestCase::Spi(k) => match k {
            SpiKind::NotExist | SpiKind::UnexpectedTrap => true,
            _ => false,
        },
        TestCase::Hsm(k) => match k {
            HsmKind::NotExist | HsmKind::HartStartFailed => true,
            _ => false,
        },
        TestCase::Dbcn(k) => match k {
            DbcnKind::NotExist | DbcnKind::WritingByteFailed | DbcnKind::WritingSliceFailed
            | DbcnKind::ReadingFailed => true,
            _ => false,
        },
    }
}

/// The level a case is logged at (see `level_of`).
pub fn case_level(c: TestCase) -> (r: Level)
    ensures
        r == level_of(c),
{
    if case_fails(c) {
        return Level::Error;
    }
    match c {
        TestCase::Base(BaseKind::UnknownSbiImplId) => Level::Warn,
        TestCase::Hsm(k) => match k {
            HsmKind::HartStartedBeforeTest | HsmKind::NoStoppedHart => Level::Warn,
            HsmKind::HartStarted | HsmKind::HartSuspendedNonretentive | HsmKind::HartResumed
            | HsmKind::HartSuspendedRetentive | HsmKind::HartStopped => Level::Debug,
            _ => Level::Info,
        },
        TestCase::Dbcn(DbcnKind::WriteByte) => Level::Silent,
        TestCase::Dbcn(DbcnKind::WritingPartialSlice) => Level::Warn,
        _ => Level::Info,
    }
}

/// Automatic SBI testing with logging enabled.
pub struct Testing {
    /// The hart ID to test most of single core extensions.
    pub hartid: usize,
    /// A list of harts to test Hart State Monitor extension.
    pub hart_mask: usize,
    /// Base of hart list to test Hart State Monitor extension.
    pub hart_mask_base: usize,
    /// Delay value to test Timer programmer extension.
    pub delay: u64,
}

impl Testing {
    /// The verdict of a test run over the cases its extension tests
    /// reported, in order: it passes when no case fails (see `fails`). A
    /// missing base extension stops the run before any verdict, so such a
    /// case is not among the inputs.
    pub fn test(self, cases: &[TestCase]) -> (r: bool)
        requires
            forall|i: int| 0 <= i < cases@.len() ==> cases@[i] != TestCase::Base(BaseKind::NotExist),
        ensures
            r == (forall|i: int| 0 <= i < cases@.len() ==> !fails(#[trigger] cases@[i])),
    {
        let mut result = true;
        let mut i: usize = 0;
        while i < cases.len()
            invariant
                i <= cases@.len(),
                result == (forall|k: int| 0 <= k < i ==> !fails(#[trigger] cases@[k])),
            decreases cases.len() - i,
        {
            if case_fails(cases[i]) {
                result = false;
            }
            i += 1;
        }
        result
    }
}

/// Where the timer test stands.
#[derive(Clone, Copy, Debug, PartialEq, Eq, Structural)]
pub enum TimeStage {
    /// The extension is about to be probed.
    Probe,
    /// The time counter is about to be read twice.
    Read,
    /// The timer is armed and the hart waits for a trap.
    Wait,
    /// The test is over.
    Done,
}

/// What the timer test observed.
#[derive(Clone, Copy, Debug, PartialEq, Eq, Structural)]
pub enum TimeEvent {
    /// Probe result: whether the extension is available.
    Probed(bool),
    /// Two reads of the counter: whether they succeeded, and the values.
    Reads { ok: bool, begin: u64, end: u64 },
    /// A trap arrived, with its cause: whether it is an interrupt, and its
    /// code.
    Trapped { interrupt: bool, code: usize },
}

/// The next stage of the timer test and the cases it reports, after
/// `event` at `stage`: a missing extension, a failed read, a counter that
/// went backwards or a trap other than the supervisor timer interrupt end
/// the test; two good reads (the second not earlier) arm the timer; the
/// timer's interrupt passes it. An event that does not
/// belong to the stage ends the test with nothing reported.
pub open spec fn time_next(stage: TimeStage, event: TimeEvent) -> (TimeStage, Seq<TimeKind>) {
    match (stage, event) {
        (TimeStage::Probe, TimeEvent::Probed(available)) => if available {
            (TimeStage::Read, seq![TimeKind::Begin])
        } else {
            (TimeStage::Done, seq![TimeKind::NotExist])
        },
        (TimeStage::Read, TimeEvent::Reads { ok, begin, end }) => if !ok {
            (TimeStage::Done, seq![TimeKind::ReadFailed])
        } else if begin > end {
            (TimeStage::Done, seq![TimeKind::TimeDecreased { a: begin, b: end }])
        } else {
            (TimeStage::Wait, seq![TimeKind::Interval { begin, end }])
        },
        (TimeStage::Wait, TimeEvent::Trapped { interrupt, code }) => if interrupt && code
            == SUPERVISOR_TIMER_INTERRUPT {
            (TimeStage::Done, seq![TimeKind::SetTimer, TimeKind::Pass])
        } else {
            (TimeStage::Done, seq![TimeKind::UnexpectedTrap { interrupt, code }])
        },
        _ => (TimeStage::Done, Seq::empty()),
    }
}

/// One step of the timer test (see `time_next`).
pub fn time_step(stage: TimeStage, event: TimeEvent) -> (r: (TimeStage, Vec<TimeKind>))
    ensures
        r.0 == time_next(stage, event).0,
        r.1@ == time_next(stage, event).1,
{
    let mut out: Vec<TimeKind> = Vec::new();
    let next = match (stage, event) {
        (TimeStage::Probe, TimeEvent::Probed(available)) => if available {
            out.push(TimeKind::Begin);
            TimeStage::Read
        } else {
            out.push(TimeKind::NotExist);
            TimeStage::Done
        },
        (TimeStage::Read, TimeEvent::Reads { ok, begin, end }) => if !ok {
            out.push(TimeKind::ReadFailed);
            TimeStage::Done
        } else if begin > end {
            out.push(TimeKind::TimeDecreased { a: begin, b: end });
            TimeStage::Done
        } else {
            out.push(TimeKind::Interval { begin, end });
            TimeStage::Wait
        },
        (TimeStage::Wait, TimeEvent::Trapped { interrupt, code }) => if interrupt && code
            == SUPERVISOR_TIMER_INTERRUPT {
            out.push(TimeKind::SetTimer);
            out.push(TimeKind::Pass);
            TimeStage::Done
        } else {
            out.push(TimeKind::UnexpectedTrap { interrupt, code });
            TimeStage::Done
        },
        _ => TimeStage::Done,
    };
    proof {
        let w = time_next(stage, event);
        assert(out@ =~= w.1);
    }
    (next, out)
}

} // verus!
