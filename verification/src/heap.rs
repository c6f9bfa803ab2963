//! How the global allocator is set up from the machine's memory regions:
//! the largest free region starts the heap, the other free regions are
//! added to it.
use vstd::prelude::*;

verus! {

/// A physical memory region.
#[derive(Clone, Copy, Debug, PartialEq, Eq, Structural)]
pub struct MemRegion {
    /// Start address.
    pub paddr: usize,
    /// Size in bytes.
    pub size: usize,
    /// Whether the region is free for the heap.
    pub free: bool,
}

/// How the heap is set up: the region it starts with, if any, and the
/// regions added afterwards, in order, each as start address and size.
pub struct HeapPlan {
    /// The region the heap is initialised with.
    pub init: Option<(usize, usize)>,
    /// The regions added to the heap afterwards.
    pub add: Vec<(usize, usize)>,
}

/// Size and start address of the largest free region among the first `k`
/// regions: the first of the largest ones; `(0, 0)` when no free region has
/// a positive size.
pub open spec fn largest_free(rs: Seq<MemRegion>, k: int) -> (usize, usize)
    decreases k,
{
    if k <= 0 {
        (0, 0)
    } else {
        let (s, p) = largest_free(rs, k - 1);
        let r = rs[k - 1];
        if r.free && r.size > s {
            (r.size, r.paddr)
        } else {
            (s, p)
        }
    }
}

/// The first free region from index `i` on that starts at `p`, as start
/// address and size.
pub open spec fn first_free_at(rs: Seq<MemRegion>, p: usize, i: int) -> Option<(usize, usize)>
    decreases rs.len() - i,
{
    if i < 0 || i >= rs.len() {
        None
    } else if rs[i].free && rs[i].paddr == p {
        Some((rs[i].paddr, rs[i].size))
    } else {
        first_free_at(rs, p, i + 1)
    }
}

/// The free regions among the first `k` that do not start at `p`, in order.
pub open spec fn free_others(rs: Seq<MemRegion>, p: usize, k: int) -> Seq<(usize, usize)>
    decreases k,
{
    if k <= 0 {
        Seq::empty()
    } else {
        let prev = free_others(rs, p, k - 1);
        let r = rs[k - 1];
        if r.free && r.paddr != p {
            prev.push((r.paddr, r.size))
        } else {
            prev
        }
    }
}

/// Plans the heap over `regions`: the largest free region (the first of the
/// largest ones) is found by size; the heap starts with the first free
/// region at its address, and every free region at another address is added
/// to it.
pub fn plan_heap(regions: &[MemRegion]) -> (r: HeapPlan)
    ensures
        ({
            let p = largest_free(regions@, regions@.len() as int).1;
            &&& r.init == first_free_at(regions@, p, 0)
            &&& r.add@ == free_others(regions@, p, regions@.len() as int)
        }),
{
    let n = regions.len();
    let mut max_size: usize = 0;
    let mut max_paddr: usize = 0;
    let mut i: usize = 0;
    while i < n
        invariant
            i <= n,
            n == regions@.len(),
            (max_size, max_paddr) == largest_free(regions@, i as int),
        decreases n - i,
    {
        let r = regions[i];
        if r.free && r.size > max_size {
            max_size = r.size;
            max_paddr = r.paddr;
        }
        i += 1;
    }
    let mut init: Option<(usize, usize)> = None;
    let mut j: usize = 0;
    while j < n && init.is_none()
        invariant
            j <= n,
            n == regions@.len(),
            init is None ==> first_free_at(regions@, max_paddr, 0) == first_free_at(regions@, max_paddr, j as int),
            init is Some ==> init == first_free_at(regions@, max_paddr, 0),
        decreases n - j,
    {
        let r = regions[j];
        if r.free && r.paddr == max_paddr {
            init = Some((r.paddr, r.size));
        }
        j += 1;
    }
    let mut add: Vec<(usize, usize)> = Vec::new();
    let mut k: usize = 0;
    while k < n
        invariant
            k <= n,
            n == regions@.len(),
            add@ == free_others(regions@, max_paddr, k as int),
        decreases n - k,
    {
        let r = regions[k];
        if r.free && r.paddr != max_paddr {
            add.push((r.paddr, r.size));
        }
        k += 1;
    }
    HeapPlan { init, add }
}

} // verus!
