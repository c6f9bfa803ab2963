//! Hart state management: the state of each hart and the start request
//! handed from one hart to another.
use crate::binary::{SbiRet, RET_ERR_ALREADY_STARTED, RET_ERR_INVALID_PARAM, RET_SUCCESS};
use vstd::prelude::*;

verus! {

/// The hart is running.
pub const STARTED: usize = 0;
/// The hart is stopped.
pub const STOPPED: usize = 1;
/// A start of the hart was requested.
pub const START_PENDING: usize = 2;
/// The hart is suspended.
pub const SUSPENDED: usize = 4;
/// A start request is being written; reported as `START_PENDING`.
pub const HART_STATE_START_PENDING_EXT: usize = usize::MAX;
/// Retentive suspend.
pub const RETENTIVE: u32 = 0;
/// Non-retentive suspend.
pub const NON_RETENTIVE: u32 = 0x8000_0000;

/// Hart state and the data handed to a hart that is being started.
pub struct HsmCell<T> {
    status: usize,
    inner: Option<T>,
}

impl<T> HsmCell<T> {
    /// The hart state.
    pub closed spec fn spec_status(self) -> usize {
        self.status
    }

    /// The data waiting for the hart.
    pub closed spec fn spec_inner(self) -> Option<T> {
        self.inner
    }

    /// The cell's invariant: a pending start has its data, and no start is
    /// half written.
    pub closed spec fn wf(self) -> bool {
        &&& self.status == START_PENDING ==> self.inner is Some
        &&& self.status != HART_STATE_START_PENDING_EXT
    }

    /// The cell and result after another hart hands `t` over (see `start`).
    pub closed spec fn after_start(self, t: T) -> (HsmCell<T>, bool) {
        if self.status == STOPPED {
            (HsmCell { status: START_PENDING, inner: Some(t) }, true)
        } else {
            (self, false)
        }
    }

    /// The cell and result after the hart takes a pending start (see
    /// `local_start`).
    pub closed spec fn after_local_start(self) -> (HsmCell<T>, Result<T, usize>) {
        if self.status == START_PENDING {
            (HsmCell { status: STARTED, inner: None }, Ok(self.inner->Some_0))
        } else {
            (self, Err(self.status))
        }
    }

    /// Creates the cell of a stopped hart with nothing handed to it.
    pub fn new() -> (r: Self)
        ensures
            r.wf(),
            r.spec_status() == STOPPED,
            r.spec_inner() is None,
    {
        HsmCell { status: STOPPED, inner: None }
    }

    /// A read-only view of the cell for any hart.
    pub fn remote(&self) -> (r: RemoteHsmCell<'_, T>)
        ensures
            *r.0 == *self,
    {
        RemoteHsmCell(self)
    }

    /// Hands `t` to a stopped hart and marks its start as pending; returns
    /// whether it did. A hart in any other state is left as it was.
    pub fn start(&mut self, t: T) -> (r: bool)
        requires
            old(self).wf(),
        ensures
            final(self).wf(),
            (*final(self), r) == old(self).after_start(t),
            r == (old(self).spec_status() == STOPPED),
            r ==> final(self).spec_status() == START_PENDING && final(self).spec_inner() == Some(t),
            !r ==> *final(self) == *old(self),
    {
        if self.status == STOPPED {
            self.status = HART_STATE_START_PENDING_EXT;
            self.inner = Some(t);
            self.status = START_PENDING;
            true
        } else {
            false
        }
    }

    /// On the hart itself: takes the data of a pending start and marks the
    /// hart started; in any other state, returns the state and changes
    /// nothing.
    pub fn local_start(&mut self) -> (r: Result<T, usize>)
        requires
            old(self).wf(),
        ensures
            final(self).wf(),
            (*final(self), r) == old(self).after_local_start(),
            old(self).spec_status() == START_PENDING ==> r == Ok::<T, usize>(
                old(self).spec_inner()->Some_0,
            ) && final(self).spec_status() == STARTED,
            old(self).spec_status() != START_PENDING ==> r == Err::<T, usize>(old(self).spec_status())
                && *final(self) == *old(self),
    {
        if self.status == START_PENDING {
            self.status = STARTED;
            match self.inner.take() {
                Some(t) => Ok(t),
                None => Err(START_PENDING),
            }
        } else {
            Err(self.status)
        }
    }

    /// On the hart itself: marks it stopped.
    pub fn stop(&mut self)
        requires
            old(self).wf(),
        ensures
            final(self).wf(),
            final(self).spec_status() == STOPPED,
            final(self).spec_inner() == old(self).spec_inner(),
    {
        self.status = STOPPED;
    }

    /// On the hart itself: marks it suspended.
    pub fn suspend(&mut self)
        requires
            old(self).wf(),
        ensures
            final(self).wf(),
            final(self).spec_status() == SUSPENDED,
            final(self).spec_inner() == old(self).spec_inner(),
    {
        self.status = SUSPENDED;
    }

    /// On the hart itself: marks it started again.
    pub fn resume(&mut self)
        requires
            old(self).wf(),
        ensures
            final(self).wf(),
            final(self).spec_status() == STARTED,
            final(self).spec_inner() == old(self).spec_inner(),
    {
        self.status = STARTED;
    }
}

/// A start handed to a stopped hart is what that hart takes when it starts:
/// the hand-over succeeds, the hart's own start returns the same data, and
/// the hart is then started. A hart that is not stopped refuses it.
pub proof fn lemma_start_handoff<T>(c: HsmCell<T>, t: T)
    requires
        c.wf(),
    ensures
        c.spec_status() == STOPPED ==> {
            let (c1, ok) = c.after_start(t);
            &&& ok
            &&& c1.after_local_start().1 == Ok::<T, usize>(t)
            &&& c1.after_local_start().0.spec_status() == STARTED
        },
        c.spec_status() != STOPPED ==> c.after_start(t) == (c, false),
{
}

/// The state a cell reports: a start being written counts as pending.
pub open spec fn reported_status(status: usize) -> usize {
    if status == HART_STATE_START_PENDING_EXT {
        START_PENDING
    } else {
        status
    }
}

/// Read-only view of the cell of any hart.
pub struct RemoteHsmCell<'a, T>(pub &'a HsmCell<T>);

impl<'a, T> RemoteHsmCell<'a, T> {
    /// The current state (see `reported_status`).
    pub fn sbi_get_status(&self) -> (r: usize)
        ensures
            r == reported_status(self.0.spec_status()),
    {
        if self.0.status == HART_STATE_START_PENDING_EXT {
            START_PENDING
        } else {
            self.0.status
        }
    }

    /// Whether the hart can take an IPI: it is started or suspended.
    pub fn allow_ipi(&self) -> (r: bool)
        ensures
            r == (self.0.spec_status() == STARTED || self.0.spec_status() == SUSPENDED),
    {
        self.0.status == STARTED || self.0.status == SUSPENDED
    }
}

} // verus!

verus! {

/// Privilege mode a hart enters when it starts.
#[derive(Clone, Copy, Debug, PartialEq, Eq, Structural)]
pub enum PrivilegeMode {
    /// User mode.
    User,
    /// Supervisor mode.
    Supervisor,
    /// Machine mode.
    Machine,
}

/// Where a started hart goes.
#[derive(Clone, Copy, Debug, PartialEq, Eq, Structural)]
pub struct NextStage {
    /// Entry address.
    pub start_addr: usize,
    /// Value passed in `a1`.
    pub opaque: usize,
    /// Privilege mode entered.
    pub next_mode: PrivilegeMode,
}

/// The state cells of all harts, indexed by hart id.
pub struct HartTable {
    cells: Vec<HsmCell<NextStage>>,
}

impl HartTable {
    /// The cells.
    pub closed spec fn spec_cells(self) -> Seq<HsmCell<NextStage>> {
        self.cells@
    }

    /// Every cell keeps its invariant.
    pub open spec fn wf(self) -> bool {
        forall|i: int| 0 <= i < self.spec_cells().len() ==> #[trigger] self.spec_cells()[i].wf()
    }

    /// A table of `n` stopped harts.
    pub fn new(n: usize) -> (r: Self)
        ensures
            r.wf(),
            r.spec_cells().len() == n,
            forall|i: int| 0 <= i < n ==> #[trigger] r.spec_cells()[i].spec_status() == STOPPED,
    {
        let mut cells: Vec<HsmCell<NextStage>> = Vec::new();
        let mut i: usize = 0;
        while i < n
            invariant
                i <= n,
                cells@.len() == i,
                forall|k: int| 0 <= k < i ==> (#[trigger] cells@[k]).wf() && cells@[k].spec_status() == STOPPED,
            decreases n - i,
        {
            cells.push(HsmCell::new());
            i += 1;
        }
        HartTable { cells }
    }

    /// Starts hart `hartid` at `start_addr` in supervisor mode with `opaque`:
    /// an unknown hart is an invalid parameter, a hart that is not stopped is
    /// already started, a stopped one gets the request and the call
    /// succeeds (the caller then wakes the hart).
    pub fn hart_start(&mut self, hartid: usize, start_addr: usize, opaque: usize) -> (r: SbiRet)
        requires
            old(self).wf(),
        ensures
            final(self).wf(),
            final(self).spec_cells().len() == old(self).spec_cells().len(),
            hartid >= old(self).spec_cells().len() ==> r == (SbiRet { error: RET_ERR_INVALID_PARAM, value: 0 })
                && final(self).spec_cells() == old(self).spec_cells(),
            hartid < old(self).spec_cells().len() ==> {
                let stage = NextStage { start_addr, opaque, next_mode: PrivilegeMode::Supervisor };
                let (c, ok) = old(self).spec_cells()[hartid as int].after_start(stage);
                &&& final(self).spec_cells() == old(self).spec_cells().update(hartid as int, c)
                &&& r == if ok {
                    SbiRet { error: RET_SUCCESS, value: 0 }
                } else {
                    SbiRet { error: RET_ERR_ALREADY_STARTED, value: 0 }
                }
            },
    {
        if hartid >= self.cells.len() {
            return SbiRet::invalid_param();
        }
        let stage = NextStage { start_addr, opaque, next_mode: PrivilegeMode::Supervisor };
        let mut cell = self.cells.remove(hartid);
        let ok = cell.start(stage);
        self.cells.insert(hartid, cell);
        assert(self.cells@ =~= old(self).spec_cells().update(hartid as int, cell));
        if ok {
            SbiRet::success(0)
        } else {
            SbiRet::already_started()
        }
    }

    /// On hart `current`: takes its pending start (see
    /// `HsmCell::local_start`).
    pub fn take_start(&mut self, current: usize) -> (r: Result<NextStage, usize>)
        requires
            old(self).wf(),
            current < old(self).spec_cells().len(),
        ensures
            final(self).wf(),
            ({
                let (c, res) = old(self).spec_cells()[current as int].after_local_start();
                final(self).spec_cells() == old(self).spec_cells().update(current as int, c) && r == res
            }),
    {
        let mut cell = self.cells.remove(current);
        let r = cell.local_start();
        self.cells.insert(current, cell);
        assert(self.cells@ =~= old(self).spec_cells().update(current as int, cell));
        r
    }

    /// On hart `current`: stops it; always succeeds.
    pub fn hart_stop(&mut self, current: usize) -> (r: SbiRet)
        requires
            old(self).wf(),
            current < old(self).spec_cells().len(),
        ensures
            final(self).wf(),
            final(self).spec_cells().len() == old(self).spec_cells().len(),
            final(self).spec_cells()[current as int].spec_status() == STOPPED,
            forall|i: int| 0 <= i < old(self).spec_cells().len() && i != current ==> #[trigger] final(self).spec_cells()[i] == old(self).spec_cells()[i],
            r == (SbiRet { error: RET_SUCCESS, value: 0 }),
    {
        let mut cell = self.cells.remove(current);
        cell.stop();
        self.cells.insert(current, cell);
        assert(self.cells@ =~= old(self).spec_cells().update(current as int, cell));
        SbiRet::success(0)
    }

    /// The state of hart `hartid` (see `reported_status`); an unknown hart is
    /// an invalid parameter.
    pub fn hart_get_status(&self, hartid: usize) -> (r: SbiRet)
        ensures
            hartid >= self.spec_cells().len() ==> r == (SbiRet { error: RET_ERR_INVALID_PARAM, value: 0 }),
            hartid < self.spec_cells().len() ==> r == (SbiRet {
                error: RET_SUCCESS,
                value: reported_status(self.spec_cells()[hartid as int].spec_status()),
            }),
    {
        if hartid >= self.cells.len() {
            return SbiRet::invalid_param();
        }
        SbiRet::success(self.cells[hartid].remote().sbi_get_status())
    }

    /// On hart `current`: a retentive or non-retentive suspend marks it
    /// suspended and returns `true` (the caller then waits for an interrupt
    /// and calls `end_suspend`); any other type is refused with `false`.
    pub fn begin_suspend(&mut self, current: usize, suspend_type: u32) -> (r: bool)
        requires
            old(self).wf(),
            current < old(self).spec_cells().len(),
        ensures
            final(self).wf(),
            r == (suspend_type == RETENTIVE || suspend_type == NON_RETENTIVE),
            final(self).spec_cells().len() == old(self).spec_cells().len(),
            r ==> final(self).spec_cells()[current as int].spec_status() == SUSPENDED,
            !r ==> final(self).spec_cells() == old(self).spec_cells(),
            forall|i: int| 0 <= i < old(self).spec_cells().len() && i != current ==> #[trigger] final(self).spec_cells()[i] == old(self).spec_cells()[i],
    {
        if suspend_type != RETENTIVE && suspend_type != NON_RETENTIVE {
            return false;
        }
        let mut cell = self.cells.remove(current);
        cell.suspend();
        self.cells.insert(current, cell);
        assert(self.cells@ =~= old(self).spec_cells().update(current as int, cell));
        true
    }

    /// On hart `current`, after the interrupt that ends a suspend: marks it
    /// started again and answers success.
    pub fn end_suspend(&mut self, current: usize) -> (r: SbiRet)
        requires
            old(self).wf(),
            current < old(self).spec_cells().len(),
        ensures
            final(self).wf(),
            final(self).spec_cells().len() == old(self).spec_cells().len(),
            final(self).spec_cells()[current as int].spec_status() == STARTED,
            forall|i: int| 0 <= i < old(self).spec_cells().len() && i != current ==> #[trigger] final(self).spec_cells()[i] == old(self).spec_cells()[i],
            r == (SbiRet { error: RET_SUCCESS, value: 0 }),
    {
        let mut cell = self.cells.remove(current);
        cell.resume();
        self.cells.insert(current, cell);
        assert(self.cells@ =~= old(self).spec_cells().update(current as int, cell));
        SbiRet::success(0)
    }
}

} // verus!
