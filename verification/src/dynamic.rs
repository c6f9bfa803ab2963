//! First boot stage dynamic information: where it may be read from and
//! whether what it says can be used.
use crate::hsm::PrivilegeMode;
use vstd::prelude::*;

verus! {

/// M-mode firmware dynamic information.
#[derive(Clone, Copy, Debug, PartialEq, Eq, Structural)]
pub struct DynamicInfo {
    /// Dynamic information magic value.
    pub magic: usize,
    /// Version of dynamic information.
    pub version: usize,
    /// Address of the next boot-loading stage.
    pub next_addr: usize,
    /// RISC-V privilege mode of the next boot-loading stage.
    pub next_mode: usize,
    /// M-mode firmware options; its definition varies between SBI implementations.
    pub options: usize,
}

/// Why dynamic information could not be read.
#[derive(Clone, Copy, Debug, PartialEq, Eq, Structural)]
pub struct DynamicReadError {
    /// The address it was to be read from.
    pub bad_paddr: usize,
}

/// Why dynamic information cannot be used.
#[derive(Clone, Copy, Debug, PartialEq, Eq, Structural)]
pub struct DynamicError {
    /// The privilege mode is not one a stage can be entered in.
    pub invalid_mpp: bool,
    /// The next address is outside the range a stage may start at.
    pub invalid_next_addr: bool,
    /// The information.
    pub bad_info: DynamicInfo,
}

/// Lowest address dynamic information may lie at.
pub const DYNAMIC_INFO_LOW: usize = 0x1000;
/// Address dynamic information must end below.
pub const DYNAMIC_INFO_HIGH: usize = 0xf000;
/// Lowest address the next stage may start at.
pub const NEXT_ADDR_LOW: usize = 0x8000_0000;
/// Address the next stage must start below.
pub const NEXT_ADDR_HIGH: usize = 0x9000_0000;

/// Size of the dynamic information record: five machine words.
pub open spec fn info_size() -> int {
    5 * (usize::BITS / 8) as int
}

/// Whether dynamic information may be read at `paddr`: its first byte and
/// the byte just past it lie in `0x1000..0xf000`.
pub open spec fn readable_at(paddr: usize) -> bool {
    DYNAMIC_INFO_LOW <= paddr < DYNAMIC_INFO_HIGH && DYNAMIC_INFO_LOW <= paddr + info_size()
        < DYNAMIC_INFO_HIGH
}

/// Reads the dynamic information at `paddr` through `read`, after checking
/// the address (see `readable_at`); an address that fails the check gives
/// an error and nothing is read.
pub fn try_read_dynamic<F: FnOnce(usize) -> DynamicInfo>(paddr: usize, read: F) -> (r: Result<DynamicInfo, ()>)
    requires
        readable_at(paddr) ==> read.requires((paddr,)),
    ensures
        !readable_at(paddr) ==> r == Err::<DynamicInfo, ()>(()),
        readable_at(paddr) ==> (r matches Ok(v) && read.ensures((paddr,), v)),
{
    let size = 5 * (usize::BITS / 8) as usize;
    if !(DYNAMIC_INFO_LOW <= paddr && paddr < DYNAMIC_INFO_HIGH) {
        return Err(());
    }
    let end = paddr + size;
    if !(DYNAMIC_INFO_LOW <= end && end < DYNAMIC_INFO_HIGH) {
        return Err(());
    }
    Ok(read(paddr))
}

/// The privilege mode the next stage is entered in: user (0), supervisor (1)
/// or machine (3); any other value is an error.
pub fn next_mode_mpp(info: &DynamicInfo) -> (r: Result<PrivilegeMode, ()>)
    ensures
        info.next_mode == 0 ==> r == Ok::<PrivilegeMode, ()>(PrivilegeMode::User),
        info.next_mode == 1 ==> r == Ok::<PrivilegeMode, ()>(PrivilegeMode::Supervisor),
        info.next_mode == 3 ==> r == Ok::<PrivilegeMode, ()>(PrivilegeMode::Machine),
        !(info.next_mode == 0 || info.next_mode == 1 || info.next_mode == 3) ==> r == Err::<PrivilegeMode, ()>(()),
{
    if info.next_mode == 0 {
        Ok(PrivilegeMode::User)
    } else if info.next_mode == 1 {
        Ok(PrivilegeMode::Supervisor)
    } else if info.next_mode == 3 {
        Ok(PrivilegeMode::Machine)
    } else {
        Err(())
    }
}

/// The address the next stage starts at, when it lies in
/// `0x8000_0000..0x9000_0000`; an error otherwise.
pub fn check_next_addr(info: &DynamicInfo) -> (r: Result<usize, ()>)
    ensures
        NEXT_ADDR_LOW <= info.next_addr < NEXT_ADDR_HIGH ==> r == Ok::<usize, ()>(info.next_addr),
        !(NEXT_ADDR_LOW <= info.next_addr < NEXT_ADDR_HIGH) ==> r == Err::<usize, ()>(()),
{
    if NEXT_ADDR_LOW <= info.next_addr && info.next_addr < NEXT_ADDR_HIGH {
        Ok(info.next_addr)
    } else {
        Err(())
    }
}

/// Name of a privilege mode number in error reports: `Machine` for 3,
/// `Supervisor` for 1, `User` for 0, `Invalid` otherwise.
pub fn explain_next_mode(next_mode: usize) -> (r: &'static str)
    ensures
        next_mode == 3 ==> r@ == "Machine"@,
        next_mode == 1 ==> r@ == "Supervisor"@,
        next_mode == 0 ==> r@ == "User"@,
        !(next_mode == 0 || next_mode == 1 || next_mode == 3) ==> r@ == "Invalid"@,
{
    if next_mode == 3 {
        "Machine"
    } else if next_mode == 1 {
        "Supervisor"
    } else if next_mode == 0 {
        "User"
    } else {
        "Invalid"
    }
}

} // verus!
