//! Loading an EFI application: where its sections go in the memory mapped
//! for it, and where it is entered.
use object::{Object, ObjectSection};
use vstd::prelude::*;

verus! {

/// A section of an executable image: its address, its size, and its bytes
/// when the image holds them.
pub struct SectionInfo {
    /// Virtual address.
    pub address: u64,
    /// Size in memory.
    pub size: u64,
    /// The bytes the image holds for it.
    pub data: Option<Vec<u8>>,
}

/// Views of sections: address, size and bytes.
pub open spec fn section_views(s: Seq<SectionInfo>) -> Seq<(u64, u64, Option<Seq<u8>>)> {
    s.map_values(|x: SectionInfo| (x.address, x.size, match x.data {
        Some(d) => Some(d@),
        None => None,
    }))
}

/// The entry address and the sections (address, size, bytes) that the
/// `object` crate reads from an executable image; `None` when it cannot
/// parse it.
pub uninterp spec fn parsed_image(image: Seq<u8>) -> Option<(u64, Seq<(u64, u64, Option<Seq<u8>>)>)>;

/// Parses an executable image (`object::File::parse`, then `entry`,
/// `sections`, and each section's `address`, `size` and `data`).
///
/// Claims only that the result is `parsed_image` of the image bytes: the
/// crate's parsing takes pages and is a function of the bytes alone.
#[verifier::external_body]
fn parse_image(image: &[u8]) -> (r: Option<(u64, Vec<SectionInfo>)>)
    ensures
        match r {
            Some((e, s)) => parsed_image(image@) == Some((e, section_views(s@))),
            None => parsed_image(image@) is None,
        },
{
    let file = match object::File::parse(image) {
        Ok(f) => f,
        Err(_) => return None,
    };
    let mut sections = Vec::new();
    for s in file.sections() {
        let data = match s.data() {
            Ok(d) => Some(d.to_vec()),
            Err(_) => None,
        };
        sections.push(SectionInfo { address: s.address(), size: s.size(), data });
    }
    Some((file.entry(), sections))
}

/// Lowest section address among the first `k` sections, from `u64::MAX`.
pub open spec fn lowest_address(s: Seq<(u64, u64, Option<Seq<u8>>)>, k: int) -> int
    decreases k,
{
    if k <= 0 {
        u64::MAX as int
    } else {
        let prev = lowest_address(s, k - 1);
        if s[k - 1].0 < prev {
            s[k - 1].0 as int
        } else {
            prev
        }
    }
}

/// Highest section end among the first `k` sections, from zero.
pub open spec fn highest_end(s: Seq<(u64, u64, Option<Seq<u8>>)>, k: int) -> int
    decreases k,
{
    if k <= 0 {
        0
    } else {
        let prev = highest_end(s, k - 1);
        let end = s[k - 1].0 + s[k - 1].1;
        if end > prev {
            end
        } else {
            prev
        }
    }
}

/// Whether an image with entry `entry` and sections `s` can be laid out: it
/// has a section, no section end overflows, the mapped size rounds up to
/// pages within `usize`, and the entry is not below the lowest section.
pub open spec fn layout_fits(entry: u64, s: Seq<(u64, u64, Option<Seq<u8>>)>) -> bool {
    &&& s.len() > 0
    &&& forall|i: int| 0 <= i < s.len() ==> #[trigger] s[i].0 + s[i].1 <= u64::MAX
    &&& ((highest_end(s, s.len() as int) - lowest_address(s, s.len() as int)) as usize) + 4095 <= usize::MAX
    &&& entry >= lowest_address(s, s.len() as int)
}

/// Where an image goes: the lowest section address, the mapped size, the
/// number of 4 KiB pages, the entry and each section's offset from the
/// lowest address.
pub struct EfiLayout {
    /// Lowest section address.
    pub base_va: u64,
    /// Bytes from the lowest address to the highest end.
    pub mem_size: usize,
    /// Pages mapped.
    pub page_count: usize,
    /// Offset of the entry.
    pub entry_offset: usize,
    /// Offset of each section.
    pub offsets: Vec<usize>,
}

/// Lays out an image with entry `entry` and sections `sections` (see
/// `EfiLayout`); it must fit (see `layout_fits`).
pub fn efi_layout(entry: u64, sections: &Vec<SectionInfo>) -> (r: EfiLayout)
    requires
        layout_fits(entry, section_views(sections@)),
    ensures
        ({
            let s = section_views(sections@);
            let base = lowest_address(s, s.len() as int);
            let mem = (highest_end(s, s.len() as int) - base) as usize;
            &&& r.base_va == base
            &&& r.mem_size == mem
            &&& r.page_count == (mem + 4095) / 4096
            &&& r.entry_offset == (entry - base) as usize
            &&& r.offsets@.len() == s.len()
            &&& forall|i: int| 0 <= i < s.len() ==> #[trigger] r.offsets@[i] == (s[i].0 - base) as usize
        }),
{
    let ghost s = section_views(sections@);
    let n = sections.len();
    let mut base_va: u64 = u64::MAX;
    let mut max_va: u64 = 0;
    let mut i: usize = 0;
    while i < n
        invariant
            i <= n,
            n == s.len(),
            s == section_views(sections@),
            forall|j: int| 0 <= j < s.len() ==> #[trigger] s[j].0 + s[j].1 <= u64::MAX,
            base_va == lowest_address(s, i as int),
            max_va == highest_end(s, i as int),
        decreases n - i,
    {
        let start = sections[i].address;
        let size = sections[i].size;
        assert(s[i as int].0 == start && s[i as int].1 == size);
        let end = start + size;
        if start < base_va {
            base_va = start;
        }
        if end > max_va {
            max_va = end;
        }
        i += 1;
    }
    proof {
        lemma_end_above_start(s, n as int);
    }
    let mem_size = (max_va - base_va) as usize;
    let page_count = (mem_size + 4095) / 4096;
    let mut offsets: Vec<usize> = Vec::new();
    let mut k: usize = 0;
    while k < n
        invariant
            k <= n,
            n == s.len(),
            s == section_views(sections@),
            base_va == lowest_address(s, n as int),
            forall|j: int| 0 <= j < n ==> base_va <= #[trigger] s[j].0,
            offsets@.len() == k,
            forall|j: int| 0 <= j < k ==> #[trigger] offsets@[j] == (s[j].0 - base_va) as usize,
        decreases n - k,
    {
        assert(s[k as int].0 == sections[k as int].address);
        offsets.push((sections[k].address - base_va) as usize);
        k += 1;
    }
    EfiLayout { base_va, mem_size, page_count, entry_offset: (entry - base_va) as usize, offsets }
}

/// The lowest address is a section's address at most every section's, and
/// the highest end is at least it.
proof fn lemma_end_above_start(s: Seq<(u64, u64, Option<Seq<u8>>)>, k: int)
    requires
        0 < k <= s.len(),
    ensures
        forall|j: int| 0 <= j < k ==> lowest_address(s, k) <= #[trigger] s[j].0,
        highest_end(s, k) >= lowest_address(s, k),
    decreases k,
{
    if k > 1 {
        lemma_end_above_start(s, k - 1);
    }
}

/// Reads an image and lays it out: `None` when it does not parse or cannot
/// be laid out (see `layout_fits`); otherwise its sections and layout.
pub fn plan_efi_image(image: &[u8]) -> (r: Option<(Vec<SectionInfo>, EfiLayout)>)
    ensures
        match parsed_image(image@) {
            None => r is None,
            Some((e, s)) => if layout_fits(e, s) {
                r matches Some((secs, l)) && section_views(secs@) == s && l.base_va == lowest_address(
                    s,
                    s.len() as int,
                ) && l.entry_offset == (e - lowest_address(s, s.len() as int)) as usize
            } else {
                r is None
            },
        },
{
    let (entry, sections) = match parse_image(image) {
        Some(p) => p,
        None => return None,
    };
    if !fits_exec(entry, &sections) {
        return None;
    }
    let l = efi_layout(entry, &sections);
    Some((sections, l))
}

/// Whether an image can be laid out (see `layout_fits`).
fn fits_exec(entry: u64, sections: &Vec<SectionInfo>) -> (r: bool)
    ensures
        r == layout_fits(entry, section_views(sections@)),
{
    let ghost s = section_views(sections@);
    let n = sections.len();
    if n == 0 {
        return false;
    }
    let mut base: u64 = u64::MAX;
    let mut top: u64 = 0;
    let mut i: usize = 0;
    while i < n
        invariant
            i <= n,
            n == s.len(),
            s == section_views(sections@),
            forall|j: int| 0 <= j < i ==> #[trigger] s[j].0 + s[j].1 <= u64::MAX,
            base == lowest_address(s, i as int),
            top == highest_end(s, i as int),
        decreases n - i,
    {
        let start = sections[i].address;
        let size = sections[i].size;
        assert(s[i as int].0 == start && s[i as int].1 == size);
        if size > u64::MAX - start {
            return false;
        }
        let end = start + size;
        if start < base {
            base = start;
        }
        if end > top {
            top = end;
        }
        i += 1;
    }
    proof {
        lemma_end_above_start(s, n as int);
    }
    let mem = (top - base) as usize;
    mem <= usize::MAX - 4095 && entry >= base
}

} // verus!
