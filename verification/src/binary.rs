//! SBI binary encoding: return values, error codes, hart and counter masks,
//! and physical memory parameters.
use vstd::prelude::*;
use core::marker::PhantomData;

verus! {

/// SBI success state return value.
pub const RET_SUCCESS: usize = 0;
/// Error for SBI call failed for unknown reasons (`-1` as an unsigned word).
pub const RET_ERR_FAILED: usize = usize::MAX;
/// Error for target operation not supported (`-2`).
pub const RET_ERR_NOT_SUPPORTED: usize = usize::MAX - 1;
/// Error for invalid parameter (`-3`).
pub const RET_ERR_INVALID_PARAM: usize = usize::MAX - 2;
/// Error for denied (`-4`).
pub const RET_ERR_DENIED: usize = usize::MAX - 3;
/// Error for invalid address (`-5`).
pub const RET_ERR_INVALID_ADDRESS: usize = usize::MAX - 4;
/// Error for resource already available (`-6`).
pub const RET_ERR_ALREADY_AVAILABLE: usize = usize::MAX - 5;
/// Error for resource already started (`-7`).
pub const RET_ERR_ALREADY_STARTED: usize = usize::MAX - 6;
/// Error for resource already stopped (`-8`).
pub const RET_ERR_ALREADY_STOPPED: usize = usize::MAX - 7;
/// Error for shared memory not available (`-9`).
pub const RET_ERR_NO_SHMEM: usize = usize::MAX - 8;

/// SBI functions return type: an error code (`a0`) and a value (`a1`).
#[derive(Clone, Copy, Debug, PartialEq, Eq, Structural)]
pub struct SbiRet {
    /// Error number.
    pub error: usize,
    /// Result value.
    pub value: usize,
}

/// RISC-V SBI error in enumeration.
#[derive(Clone, Copy, Debug, PartialEq, Eq, Structural)]
pub enum Error {
    /// Error for SBI call failed for unknown reasons.
    Failed,
    /// Error for target operation not supported.
    NotSupported,
    /// Error for invalid parameter.
    InvalidParam,
    /// Error for denied.
    Denied,
    /// Error for invalid address.
    InvalidAddress,
    /// Error for resource already available.
    AlreadyAvailable,
    /// Error for resource already started.
    AlreadyStarted,
    /// Error for resource already stopped.
    AlreadyStopped,
    /// Error for shared memory not available.
    NoShmem,
    /// Custom error code.
    Custom(isize),
}

/// The error that a non-success error code stands for.
pub open spec fn error_of_code(code: usize) -> Error {
    if code == RET_ERR_FAILED {
        Error::Failed
    } else if code == RET_ERR_NOT_SUPPORTED {
        Error::NotSupported
    } else if code == RET_ERR_INVALID_PARAM {
        Error::InvalidParam
    } else if code == RET_ERR_DENIED {
        Error::Denied
    } else if code == RET_ERR_INVALID_ADDRESS {
        Error::InvalidAddress
    } else if code == RET_ERR_ALREADY_AVAILABLE {
        Error::AlreadyAvailable
    } else if code == RET_ERR_ALREADY_STARTED {
        Error::AlreadyStarted
    } else if code == RET_ERR_ALREADY_STOPPED {
        Error::AlreadyStopped
    } else if code == RET_ERR_NO_SHMEM {
        Error::NoShmem
    } else {
        Error::Custom(code as isize)
    }
}

impl SbiRet {
    /// The call succeeded: its error code is `RET_SUCCESS`.
    pub open spec fn spec_is_ok(self) -> bool {
        self.error == RET_SUCCESS
    }

    /// The return value read as a `Result` of value and error.
    pub open spec fn spec_result(self) -> Result<usize, Error> {
        if self.error == RET_SUCCESS {
            Ok(self.value)
        } else {
            Err(error_of_code(self.error))
        }
    }

    /// The error this return value carries; meaningful when it is not a success.
    pub open spec fn spec_error(self) -> Error {
        error_of_code(self.error)
    }

    /// Returns success SBI state with given `value`.
    pub fn success(value: usize) -> (r: Self)
        ensures
            r == (SbiRet { error: RET_SUCCESS, value }),
    {
        SbiRet { error: RET_SUCCESS, value }
    }

    /// The SBI call request failed for unknown reasons.
    pub fn failed() -> (r: Self)
        ensures
            r == (SbiRet { error: RET_ERR_FAILED, value: 0 }),
    {
        SbiRet { error: RET_ERR_FAILED, value: 0 }
    }

    /// SBI call failed due to not supported by target ISA, operation type not
    /// supported, or target operation type not implemented on purpose.
    pub fn not_supported() -> (r: Self)
        ensures
            r == (SbiRet { error: RET_ERR_NOT_SUPPORTED, value: 0 }),
    {
        SbiRet { error: RET_ERR_NOT_SUPPORTED, value: 0 }
    }

    /// SBI call failed due to invalid hart mask parameter, invalid target hart
    /// id, invalid operation type, or invalid resource index.
    pub fn invalid_param() -> (r: Self)
        ensures
            r == (SbiRet { error: RET_ERR_INVALID_PARAM, value: 0 }),
    {
        SbiRet { error: RET_ERR_INVALID_PARAM, value: 0 }
    }

    /// SBI call denied for unsatisfied entry criteria, or insufficient access
    /// permission to debug console or CPPC register.
    pub fn denied() -> (r: Self)
        ensures
            r == (SbiRet { error: RET_ERR_DENIED, value: 0 }),
    {
        SbiRet { error: RET_ERR_DENIED, value: 0 }
    }

    /// SBI call failed for invalid mask start address, not a valid physical
    /// address parameter, or the target address is prohibited by PMP.
    pub fn invalid_address() -> (r: Self)
        ensures
            r == (SbiRet { error: RET_ERR_INVALID_ADDRESS, value: 0 }),
    {
        SbiRet { error: RET_ERR_INVALID_ADDRESS, value: 0 }
    }

    /// SBI call failed for the target resource is already available.
    pub fn already_available() -> (r: Self)
        ensures
            r == (SbiRet { error: RET_ERR_ALREADY_AVAILABLE, value: 0 }),
    {
        SbiRet { error: RET_ERR_ALREADY_AVAILABLE, value: 0 }
    }

    /// SBI call failed for the target resource is already started.
    pub fn already_started() -> (r: Self)
        ensures
            r == (SbiRet { error: RET_ERR_ALREADY_STARTED, value: 0 }),
    {
        SbiRet { error: RET_ERR_ALREADY_STARTED, value: 0 }
    }

    /// SBI call failed for the target resource is already stopped.
    pub fn already_stopped() -> (r: Self)
        ensures
            r == (SbiRet { error: RET_ERR_ALREADY_STOPPED, value: 0 }),
    {
        SbiRet { error: RET_ERR_ALREADY_STOPPED, value: 0 }
    }

    /// SBI call failed for shared memory is not available.
    pub fn no_shmem() -> (r: Self)
        ensures
            r == (SbiRet { error: RET_ERR_NO_SHMEM, value: 0 }),
    {
        SbiRet { error: RET_ERR_NO_SHMEM, value: 0 }
    }

    /// Converts to a [`Result`] of value and error.
    pub fn into_result(self) -> (r: Result<usize, Error>)
        ensures
            r == self.spec_result(),
    {
        if self.error == RET_SUCCESS {
            Ok(self.value)
        } else if self.error == RET_ERR_FAILED {
            Err(Error::Failed)
        } else if self.error == RET_ERR_NOT_SUPPORTED {
            Err(Error::NotSupported)
        } else if self.error == RET_ERR_INVALID_PARAM {
            Err(Error::InvalidParam)
        } else if self.error == RET_ERR_DENIED {
            Err(Error::Denied)
        } else if self.error == RET_ERR_INVALID_ADDRESS {
            Err(Error::InvalidAddress)
        } else if self.error == RET_ERR_ALREADY_AVAILABLE {
            Err(Error::AlreadyAvailable)
        } else if self.error == RET_ERR_ALREADY_STARTED {
            Err(Error::AlreadyStarted)
        } else if self.error == RET_ERR_ALREADY_STOPPED {
            Err(Error::AlreadyStopped)
        } else if self.error == RET_ERR_NO_SHMEM {
            Err(Error::NoShmem)
        } else {
            Err(Error::Custom(self.error as isize))
        }
    }

    /// Returns `true` if current SBI return succeeded.
    pub fn is_ok(&self) -> (r: bool)
        ensures
            r == self.spec_is_ok(),
    {
        self.error == RET_SUCCESS
    }

    /// Returns `true` if the SBI call succeeded and the value inside of it
    /// matches a predicate.
    pub fn is_ok_and<F: FnOnce(usize) -> bool>(self, f: F) -> (r: bool)
        requires
            self.spec_is_ok() ==> f.requires((self.value,)),
        ensures
            self.spec_is_ok() ==> f.ensures((self.value,), r),
            !self.spec_is_ok() ==> !r,
    {
        match self.into_result() {
            Ok(v) => f(v),
            Err(_) => false,
        }
    }

    /// Returns `true` if current SBI return is an error.
    pub fn is_err(&self) -> (r: bool)
        ensures
            r == !self.spec_is_ok(),
    {
        !self.is_ok()
    }

    /// Returns `true` if the result is an error and the value inside of it
    /// matches a predicate.
    pub fn is_err_and<F: FnOnce(Error) -> bool>(self, f: F) -> (r: bool)
        requires
            !self.spec_is_ok() ==> f.requires((self.spec_error(),)),
        ensures
            !self.spec_is_ok() ==> f.ensures((self.spec_error(),), r),
            self.spec_is_ok() ==> !r,
    {
        match self.into_result() {
            Ok(_) => false,
            Err(e) => f(e),
        }
    }

    /// Converts from `SbiRet` to `Option<usize>`, discarding the error.
    pub fn ok(self) -> (r: Option<usize>)
        ensures
            r == (if self.spec_is_ok() { Some(self.value) } else { None::<usize> }),
    {
        match self.into_result() {
            Ok(v) => Some(v),
            Err(_) => None,
        }
    }

    /// Converts from `SbiRet` to `Option<Error>`, discarding the success value.
    pub fn err(self) -> (r: Option<Error>)
        ensures
            r == (if self.spec_is_ok() { None::<Error> } else { Some(self.spec_error()) }),
    {
        match self.into_result() {
            Ok(_) => None,
            Err(e) => Some(e),
        }
    }

    /// Maps a `SbiRet` to `Result<U, Error>` by applying a function to a
    /// contained success value, leaving an error value untouched.
    pub fn map<U, F: FnOnce(usize) -> U>(self, op: F) -> (r: Result<U, Error>)
        requires
            self.spec_is_ok() ==> op.requires((self.value,)),
        ensures
            self.spec_is_ok() ==> (r is Ok && op.ensures((self.value,), r->Ok_0)),
            !self.spec_is_ok() ==> r == Err::<U, Error>(self.spec_error()),
    {
        match self.into_result() {
            Ok(v) => Ok(op(v)),
            Err(e) => Err(e),
        }
    }

    /// Returns the provided default (if error), or applies a function to the
    /// contained value (if success).
    pub fn map_or<U, F: FnOnce(usize) -> U>(self, default: U, f: F) -> (r: U)
        requires
            self.spec_is_ok() ==> f.requires((self.value,)),
        ensures
            self.spec_is_ok() ==> f.ensures((self.value,), r),
            !self.spec_is_ok() ==> r == default,
    {
        match self.into_result() {
            Ok(v) => f(v),
            Err(_) => default,
        }
    }

    /// Maps a `SbiRet` by applying fallback function `default` to a contained
    /// error, or function `f` to a contained success value.
    pub fn map_or_else<U, D: FnOnce(Error) -> U, F: FnOnce(usize) -> U>(
        self,
        default: D,
        f: F,
    ) -> (r: U)
        requires
            self.spec_is_ok() ==> f.requires((self.value,)),
            !self.spec_is_ok() ==> default.requires((self.spec_error(),)),
        ensures
            self.spec_is_ok() ==> f.ensures((self.value,), r),
            !self.spec_is_ok() ==> default.ensures((self.spec_error(),), r),
    {
        match self.into_result() {
            Ok(v) => f(v),
            Err(e) => default(e),
        }
    }

    /// Maps a `SbiRet` to `Result<usize, F>` by applying a function to a
    /// contained error, leaving a success value untouched.
    pub fn map_err<F, O: FnOnce(Error) -> F>(self, op: O) -> (r: Result<usize, F>)
        requires
            !self.spec_is_ok() ==> op.requires((self.spec_error(),)),
        ensures
            self.spec_is_ok() ==> r == Ok::<usize, F>(self.value),
            !self.spec_is_ok() ==> (r is Err && op.ensures((self.spec_error(),), r->Err_0)),
    {
        match self.into_result() {
            Ok(v) => Ok(v),
            Err(e) => Err(op(e)),
        }
    }

    /// Calls a function with a reference to the contained value if current SBI
    /// call succeeded, and returns the result unchanged.
    pub fn inspect<F: FnOnce(&usize)>(self, f: F) -> (r: Self)
        requires
            self.spec_is_ok() ==> f.requires((&self.value,)),
        ensures
            r == self,
            self.spec_is_ok() ==> f.ensures((&self.value,), ()),
    {
        if let Ok(t) = self.into_result() {
            f(&t);
        }
        self
    }

    /// Calls a function with a reference to the contained error if current SBI
    /// result is an error, and returns the result unchanged.
    pub fn inspect_err<F: FnOnce(&Error)>(self, f: F) -> (r: Self)
        requires
            !self.spec_is_ok() ==> f.requires((&self.spec_error(),)),
        ensures
            r == self,
            !self.spec_is_ok() ==> f.ensures((&self.spec_error(),), ()),
    {
        if let Err(e) = self.into_result() {
            f(&e);
        }
        self
    }

    /// Returns the contained success value; the call must have succeeded.
    pub fn expect(self, msg: &str) -> (r: usize)
        requires
            self.spec_is_ok(),
        ensures
            r == self.value,
    {
        self.value
    }

    /// Returns the contained success value; the call must have succeeded.
    pub fn unwrap(self) -> (r: usize)
        requires
            self.spec_is_ok(),
        ensures
            r == self.value,
    {
        self.value
    }

    /// Returns the contained error; the call must have failed.
    pub fn expect_err(self, msg: &str) -> (r: Error)
        requires
            !self.spec_is_ok(),
        ensures
            r == self.spec_error(),
    {
        match self.into_result() {
            Ok(_) => Error::Failed,
            Err(e) => e,
        }
    }

    /// Returns the contained error; the call must have failed.
    pub fn unwrap_err(self) -> (r: Error)
        requires
            !self.spec_is_ok(),
        ensures
            r == self.spec_error(),
    {
        match self.into_result() {
            Ok(_) => Error::Failed,
            Err(e) => e,
        }
    }

    /// Returns `res` if self is a success value, otherwise the contained error.
    pub fn and<U>(self, res: Result<U, Error>) -> (r: Result<U, Error>)
        ensures
            self.spec_is_ok() ==> r == res,
            !self.spec_is_ok() ==> r == Err::<U, Error>(self.spec_error()),
    {
        match self.into_result() {
            Ok(_) => res,
            Err(e) => Err(e),
        }
    }

    /// Calls `op` if self is a success value, otherwise returns the contained
    /// error.
    pub fn and_then<U, F: FnOnce(usize) -> Result<U, Error>>(self, op: F) -> (r: Result<U, Error>)
        requires
            self.spec_is_ok() ==> op.requires((self.value,)),
        ensures
            self.spec_is_ok() ==> op.ensures((self.value,), r),
            !self.spec_is_ok() ==> r == Err::<U, Error>(self.spec_error()),
    {
        match self.into_result() {
            Ok(v) => op(v),
            Err(e) => Err(e),
        }
    }

    /// Returns `res` if self is an SBI error, otherwise the success value.
    pub fn or<F>(self, res: Result<usize, F>) -> (r: Result<usize, F>)
        ensures
            self.spec_is_ok() ==> r == Ok::<usize, F>(self.value),
            !self.spec_is_ok() ==> r == res,
    {
        match self.into_result() {
            Ok(v) => Ok(v),
            Err(_) => res,
        }
    }

    /// Calls `op` if self is an SBI error, otherwise returns the success value.
    pub fn or_else<F, O: FnOnce(Error) -> Result<usize, F>>(self, op: O) -> (r: Result<usize, F>)
        requires
            !self.spec_is_ok() ==> op.requires((self.spec_error(),)),
        ensures
            self.spec_is_ok() ==> r == Ok::<usize, F>(self.value),
            !self.spec_is_ok() ==> op.ensures((self.spec_error(),), r),
    {
        match self.into_result() {
            Ok(v) => Ok(v),
            Err(e) => op(e),
        }
    }

    /// Returns the contained success value or a provided default.
    pub fn unwrap_or(self, default: usize) -> (r: usize)
        ensures
            r == (if self.spec_is_ok() { self.value } else { default }),
    {
        match self.into_result() {
            Ok(v) => v,
            Err(_) => default,
        }
    }

    /// Returns the contained success value or computes it from a closure.
    pub fn unwrap_or_else<F: FnOnce(Error) -> usize>(self, op: F) -> (r: usize)
        requires
            !self.spec_is_ok() ==> op.requires((self.spec_error(),)),
        ensures
            self.spec_is_ok() ==> r == self.value,
            !self.spec_is_ok() ==> op.ensures((self.spec_error(),), r),
    {
        match self.into_result() {
            Ok(v) => v,
            Err(e) => op(e),
        }
    }
}

/// Whether `bit` is a member of the set described by `mask` and `base`:
/// every bit when `base` equals `ignore`, otherwise bit `bit - base` of
/// `mask` when that index lies within one machine word.
pub open spec fn spec_has_bit(mask: usize, base: usize, ignore: usize, bit: usize) -> bool {
    if base == ignore {
        true
    } else if bit < base {
        false
    } else if bit - base >= usize::BITS {
        false
    } else {
        mask & (1usize << ((bit - base) as usize)) != 0
    }
}

/// Checks if the mask contains the provided `bit`.
///
/// - `mask`: bitmask defining the range of bits.
/// - `base`: the starting bit index.
/// - `ignore`: if `base` is equal to this value, ignore the `mask` parameter,
///   and consider all `bit`s set.
/// - `bit`: the bit index to check for membership in the `mask`.
pub(crate) fn has_bit(mask: usize, base: usize, ignore: usize, bit: usize) -> (r: bool)
    ensures
        r == spec_has_bit(mask, base, ignore, bit),
{
    if base == ignore {
        true
    } else if bit < base {
        false
    } else if (bit - base) >= usize::BITS as usize {
        false
    } else {
        mask & (1usize << (bit - base)) != 0
    }
}

/// The special base value that makes a mask contain every index.
pub const IGNORE_MASK: usize = usize::MAX;

/// Hart mask structure in SBI function calls.
#[derive(Debug, Copy, Clone, PartialEq, Eq, Structural)]
pub struct HartMask {
    hart_mask: usize,
    hart_mask_base: usize,
}

impl HartMask {
    /// Special value to ignore the `mask`, and consider all `bit`s as set.
    pub const IGNORE_MASK: usize = usize::MAX;

    /// The mask word.
    pub closed spec fn spec_mask(self) -> usize {
        self.hart_mask
    }

    /// The hart id of bit 0 of the mask word.
    pub closed spec fn spec_base(self) -> usize {
        self.hart_mask_base
    }

    /// Whether `hart_id` belongs to this mask.
    pub open spec fn spec_contains(self, hart_id: usize) -> bool {
        spec_has_bit(self.spec_mask(), self.spec_base(), IGNORE_MASK, hart_id)
    }

    /// The mask with the given mask word and base hart id.
    pub closed spec fn spec_from(hart_mask: usize, hart_mask_base: usize) -> HartMask {
        HartMask { hart_mask, hart_mask_base }
    }

    /// Construct a [HartMask] from mask value and base hart id.
    pub fn from_mask_base(hart_mask: usize, hart_mask_base: usize) -> (r: Self)
        ensures
            r.spec_mask() == hart_mask,
            r.spec_base() == hart_mask_base,
            r == HartMask::spec_from(hart_mask, hart_mask_base),
    {
        HartMask { hart_mask, hart_mask_base }
    }

    /// Gets the special value for ignoring the `mask` parameter.
    pub fn ignore_mask(&self) -> (r: usize)
        ensures
            r == IGNORE_MASK,
    {
        IGNORE_MASK
    }

    /// Returns `mask` and `base` parameters from the [HartMask].
    pub fn into_inner(self) -> (r: (usize, usize))
        ensures
            r == (self.spec_mask(), self.spec_base()),
    {
        (self.hart_mask, self.hart_mask_base)
    }

    /// Returns whether the [HartMask] contains the provided `hart_id`.
    pub fn has_bit(self, hart_id: usize) -> (r: bool)
        ensures
            r == self.spec_contains(hart_id),
    {
        has_bit(self.hart_mask, self.hart_mask_base, IGNORE_MASK, hart_id)
    }
}

/// Counter index mask structure in SBI function calls for the `PMU` extension.
#[derive(Debug, Copy, Clone, PartialEq, Eq, Structural)]
pub struct CounterMask {
    counter_idx_mask: usize,
    counter_idx_base: usize,
}

impl CounterMask {
    /// Special value to ignore the `mask`, and consider all `bit`s as set.
    pub const IGNORE_MASK: usize = usize::MAX;

    /// The mask word.
    pub closed spec fn spec_mask(self) -> usize {
        self.counter_idx_mask
    }

    /// The counter index of bit 0 of the mask word.
    pub closed spec fn spec_base(self) -> usize {
        self.counter_idx_base
    }

    /// Whether `counter` belongs to this mask.
    pub open spec fn spec_contains(self, counter: usize) -> bool {
        spec_has_bit(self.spec_mask(), self.spec_base(), IGNORE_MASK, counter)
    }

    /// Construct a [CounterMask] from mask value and base counter index.
    pub fn from_mask_base(counter_idx_mask: usize, counter_idx_base: usize) -> (r: Self)
        ensures
            r.spec_mask() == counter_idx_mask,
            r.spec_base() == counter_idx_base,
    {
        CounterMask { counter_idx_mask, counter_idx_base }
    }

    /// Gets the special value for ignoring the `mask` parameter.
    pub fn ignore_mask(&self) -> (r: usize)
        ensures
            r == IGNORE_MASK,
    {
        IGNORE_MASK
    }

    /// Returns `mask` and `base` parameters from the [CounterMask].
    pub fn into_inner(self) -> (r: (usize, usize))
        ensures
            r == (self.spec_mask(), self.spec_base()),
    {
        (self.counter_idx_mask, self.counter_idx_base)
    }

    /// Returns whether the [CounterMask] contains the provided `counter`.
    pub fn has_bit(self, counter: usize) -> (r: bool)
        ensures
            r == self.spec_contains(counter),
    {
        has_bit(self.counter_idx_mask, self.counter_idx_base, IGNORE_MASK, counter)
    }
}

/// Physical slice wrapper with type annotation: a length and the low and high
/// parts of a physical base address. `P` hints how the slice would be used.
pub struct Physical<P> {
    num_bytes: usize,
    phys_addr_lo: usize,
    phys_addr_hi: usize,
    _marker: PhantomData<P>,
}

impl<P> Clone for Physical<P> {
    fn clone(&self) -> (r: Self)
        ensures
            r == *self,
    {
        Physical {
            num_bytes: self.num_bytes,
            phys_addr_lo: self.phys_addr_lo,
            phys_addr_hi: self.phys_addr_hi,
            _marker: PhantomData,
        }
    }
}

impl<P> Copy for Physical<P> {}

impl<P> Physical<P> {
    /// Length of the slice in bytes.
    pub closed spec fn spec_num_bytes(self) -> usize {
        self.num_bytes
    }

    /// Low part of the physical base address.
    pub closed spec fn spec_lo(self) -> usize {
        self.phys_addr_lo
    }

    /// High part of the physical base address.
    pub closed spec fn spec_hi(self) -> usize {
        self.phys_addr_hi
    }

    /// Create a physical memory slice by length and physical address.
    pub fn new(num_bytes: usize, phys_addr_lo: usize, phys_addr_hi: usize) -> (r: Self)
        ensures
            r.spec_num_bytes() == num_bytes,
            r.spec_lo() == phys_addr_lo,
            r.spec_hi() == phys_addr_hi,
    {
        Physical { num_bytes, phys_addr_lo, phys_addr_hi, _marker: PhantomData }
    }

    /// Returns length of the physical memory slice.
    pub fn num_bytes(&self) -> (r: usize)
        ensures
            r == self.spec_num_bytes(),
    {
        self.num_bytes
    }

    /// Returns low-part base address of physical memory slice.
    pub fn phys_addr_lo(&self) -> (r: usize)
        ensures
            r == self.spec_lo(),
    {
        self.phys_addr_lo
    }

    /// Returns high-part base address of physical memory slice.
    pub fn phys_addr_hi(&self) -> (r: usize)
        ensures
            r == self.spec_hi(),
    {
        self.phys_addr_hi
    }
}

/// Shared memory physical address with a type annotation of what it points
/// to; it carries the low and high parts of a physical address and is never
/// dereferenced.
pub struct SharedPtr<T> {
    phys_addr_lo: usize,
    phys_addr_hi: usize,
    _marker: PhantomData<T>,
}

impl<T> Clone for SharedPtr<T> {
    fn clone(&self) -> (r: Self)
        ensures
            r == *self,
    {
        SharedPtr { phys_addr_lo: self.phys_addr_lo, phys_addr_hi: self.phys_addr_hi, _marker: PhantomData }
    }
}

impl<T> Copy for SharedPtr<T> {}

impl<T> SharedPtr<T> {
    /// Low part of the physical address.
    pub closed spec fn spec_lo(self) -> usize {
        self.phys_addr_lo
    }

    /// High part of the physical address.
    pub closed spec fn spec_hi(self) -> usize {
        self.phys_addr_hi
    }

    /// Create a shared physical memory pointer by physical address.
    pub fn new(phys_addr_lo: usize, phys_addr_hi: usize) -> (r: Self)
        ensures
            r.spec_lo() == phys_addr_lo,
            r.spec_hi() == phys_addr_hi,
    {
        SharedPtr { phys_addr_lo, phys_addr_hi, _marker: PhantomData }
    }

    /// Returns low-part physical address of the shared physical memory pointer.
    pub fn phys_addr_lo(self) -> (r: usize)
        ensures
            r == self.spec_lo(),
    {
        self.phys_addr_lo
    }

    /// Returns high-part physical address of the shared physical memory pointer.
    pub fn phys_addr_hi(self) -> (r: usize)
        ensures
            r == self.spec_hi(),
    {
        self.phys_addr_hi
    }
}

} // verus!

verus! {

/// Success and `Ok` agree: a return value is a success exactly when it reads
/// as `Ok`, and then `Ok` carries its value; every error code reads as the
/// error whose constructor produces it, and the named error codes never read
/// as a custom one.
pub proof fn lemma_result_agrees_with_code(r: SbiRet)
    ensures
        r.spec_is_ok() <==> r.spec_result() is Ok,
        r.spec_is_ok() ==> r.spec_result() == Ok::<usize, Error>(r.value),
        r.error == RET_ERR_FAILED ==> r.spec_result() == Err::<usize, Error>(Error::Failed),
        r.error == RET_ERR_NOT_SUPPORTED ==> r.spec_result() == Err::<usize, Error>(Error::NotSupported),
        r.error == RET_ERR_INVALID_PARAM ==> r.spec_result() == Err::<usize, Error>(Error::InvalidParam),
        r.error == RET_ERR_DENIED ==> r.spec_result() == Err::<usize, Error>(Error::Denied),
        r.error == RET_ERR_INVALID_ADDRESS ==> r.spec_result() == Err::<usize, Error>(Error::InvalidAddress),
        r.error == RET_ERR_ALREADY_AVAILABLE ==> r.spec_result() == Err::<usize, Error>(Error::AlreadyAvailable),
        r.error == RET_ERR_ALREADY_STARTED ==> r.spec_result() == Err::<usize, Error>(Error::AlreadyStarted),
        r.error == RET_ERR_ALREADY_STOPPED ==> r.spec_result() == Err::<usize, Error>(Error::AlreadyStopped),
        r.error == RET_ERR_NO_SHMEM ==> r.spec_result() == Err::<usize, Error>(Error::NoShmem),
        r.spec_result() matches Err(Error::Custom(c)) ==> (usize::MAX - 8 > r.error && r.error != RET_SUCCESS),
{
}

/// A mask whose base is the ignore value contains every index, whatever its
/// mask word.
pub proof fn lemma_ignored_base_contains_all(mask: usize, bit: usize)
    ensures
        HartMask::spec_from(mask, IGNORE_MASK).spec_contains(bit),
        spec_has_bit(mask, IGNORE_MASK, IGNORE_MASK, bit),
{
}

/// Any other mask contains only indices in the word-wide window that starts
/// at its base, and within it exactly those whose bit is set.
pub proof fn lemma_mask_window(mask: usize, base: usize, bit: usize)
    requires
        base != IGNORE_MASK,
    ensures
        spec_has_bit(mask, base, IGNORE_MASK, bit) ==> base <= bit && bit - base < usize::BITS,
        base <= bit && bit - base < usize::BITS ==> (spec_has_bit(mask, base, IGNORE_MASK, bit) <==> (
        mask >> ((bit - base) as usize)) & 1 == 1),
{
    if base <= bit && bit - base < usize::BITS {
        let i = (bit - base) as usize;
        assert(i < usize::BITS ==> ((mask & (1usize << i) != 0) <==> ((mask >> i) & 1 == 1))) by (bit_vector);
    }
}

} // verus!

verus! {

/// The mask built from a word and a base has that word and that base.
pub proof fn lemma_spec_from_fields(hart_mask: usize, hart_mask_base: usize)
    ensures
        HartMask::spec_from(hart_mask, hart_mask_base).spec_mask() == hart_mask,
        HartMask::spec_from(hart_mask, hart_mask_base).spec_base() == hart_mask_base,
{
}

} // verus!
