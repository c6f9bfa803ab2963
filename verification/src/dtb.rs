//! Flattened device tree (DTB) reading and editing over an owned copy of the
//! blob: bounds-checked memory access, the header, the structure-block token
//! walk, and property lookup and rewrite.
use vstd::prelude::*;
use vstd::string::StringSliceAdditionalSpecFns;

verus! {

/// Token that opens a node.
pub const FDT_BEGIN_NODE: u32 = 0x00000001;
/// Token that closes a node.
pub const FDT_END_NODE: u32 = 0x00000002;
/// Token that introduces a property.
pub const FDT_PROP: u32 = 0x00000003;
/// Token with no meaning.
pub const FDT_NOP: u32 = 0x00000004;
/// Token that ends the structure block.
pub const FDT_END: u32 = 0x00000009;
/// Magic number at the start of every blob.
pub const FDT_MAGIC: u32 = 0xd00dfeed;
/// Size of the blob header in bytes.
pub const FDT_HEADER_SIZE: usize = 40;

/// Big-endian value of four bytes.
pub open spec fn be_value(b0: u8, b1: u8, b2: u8, b3: u8) -> u32 {
    (b0 as int * 0x1000000 + b1 as int * 0x10000 + b2 as int * 0x100 + b3 as int) as u32
}

/// Big-endian value of the four bytes of `data` starting at `i`.
pub open spec fn be_u32_at(data: Seq<u8>, i: int) -> u32 {
    be_value(data[i], data[i + 1], data[i + 2], data[i + 3])
}

/// Big-endian bytes of `v`.
pub open spec fn be_bytes_of(v: u32) -> Seq<u8> {
    seq![(v / 0x1000000) as u8, ((v / 0x10000) % 0x100) as u8, ((v / 0x100) % 0x100) as u8, (v % 0x100) as u8]
}

/// Decodes four big-endian bytes.
pub fn u32_from_be(b: [u8; 4]) -> (r: u32)
    ensures
        r == be_value(b@[0], b@[1], b@[2], b@[3]),
{
    let b0 = b[0];
    let b1 = b[1];
    let b2 = b[2];
    let b3 = b[3];
    let r = ((b0 as u32) << 24u32) | ((b1 as u32) << 16u32) | ((b2 as u32) << 8u32) | (b3 as u32);
    assert(r == (b0 as int * 0x1000000 + b1 as int * 0x10000 + b2 as int * 0x100 + b3 as int)) by (bit_vector)
        requires
            r == ((b0 as u32) << 24u32) | ((b1 as u32) << 16u32) | ((b2 as u32) << 8u32) | (b3 as u32),
    ;
    r
}

/// Encodes a value as four big-endian bytes.
pub fn u32_to_be(v: u32) -> (r: [u8; 4])
    ensures
        r@ == be_bytes_of(v),
        be_value(r@[0], r@[1], r@[2], r@[3]) == v,
{
    let b0 = (v >> 24u32) as u8;
    let b1 = ((v >> 16u32) & 0xff) as u8;
    let b2 = ((v >> 8u32) & 0xff) as u8;
    let b3 = (v & 0xff) as u8;
    assert(b0 == (v / 0x1000000) as u8 && b1 == ((v / 0x10000) % 0x100) as u8 && b2 == ((v / 0x100)
        % 0x100) as u8 && b3 == (v % 0x100) as u8) by (bit_vector)
        requires
            b0 == (v >> 24u32) as u8,
            b1 == ((v >> 16u32) & 0xff) as u8,
            b2 == ((v >> 8u32) & 0xff) as u8,
            b3 == (v & 0xff) as u8,
    ;
    assert((b0 as int * 0x1000000 + b1 as int * 0x10000 + b2 as int * 0x100 + b3 as int) == v) by (bit_vector)
        requires
            b0 == (v >> 24u32) as u8,
            b1 == ((v >> 16u32) & 0xff) as u8,
            b2 == ((v >> 8u32) & 0xff) as u8,
            b3 == (v & 0xff) as u8,
    ;
    let r = [b0, b1, b2, b3];
    assert(r@ =~= be_bytes_of(v));
    r
}

} // verus!

verus! {

/// Bytes of `data` with `bytes` written over the positions starting at `start`.
pub open spec fn spliced(data: Seq<u8>, start: int, bytes: Seq<u8>) -> Seq<u8> {
    data.subrange(0, start) + bytes + data.subrange(start + bytes.len(), data.len() as int)
}

/// Length of the NUL-terminated string starting at `start`, having already
/// seen `len` non-NUL bytes: scanning stops at a NUL byte or after 256
/// bytes, and fails when it runs past the end of `data` first.
pub open spec fn cstr_len(data: Seq<u8>, start: int, len: int) -> Option<int>
    decreases 256 - len,
{
    if len >= 256 {
        Some(len)
    } else if start + len >= data.len() || start + len < 0 {
        None
    } else if data[start + len] == 0 {
        Some(len)
    } else {
        cstr_len(data, start, len + 1)
    }
}

/// The bytes of the string that `read_str` finds at `start`, before any
/// UTF-8 check.
pub open spec fn cstr_bytes(data: Seq<u8>, start: int) -> Option<Seq<u8>> {
    match cstr_len(data, start, 0) {
        Some(n) => Some(data.subrange(start, start + n)),
        None => None,
    }
}

/// Interprets bytes as UTF-8 text (`core::str::from_utf8`).
///
/// Claims, as the standard library documents it: the result is present exactly
/// when the bytes are valid UTF-8, and the returned text has those same bytes.
#[verifier::external_body]
pub(crate) fn str_from_utf8(bytes: &[u8]) -> (r: Option<&str>)
    ensures
        r is Some <==> vstd::utf8::valid_utf8(bytes@),
        r matches Some(s) ==> s.spec_bytes() == bytes@,
{
    core::str::from_utf8(bytes).ok()
}

/// Bounds-checked, big-endian view of a device tree blob.
pub struct DtbMemory {
    data: Vec<u8>,
}

impl View for DtbMemory {
    type V = Seq<u8>;

    closed spec fn view(&self) -> Seq<u8> {
        self.data@
    }
}

impl DtbMemory {
    /// Wraps the bytes of a blob.
    pub fn new(data: Vec<u8>) -> (r: Self)
        ensures
            r@ == data@,
    {
        DtbMemory { data }
    }

    /// Number of bytes held.
    pub fn len(&self) -> (r: usize)
        ensures
            r == self@.len(),
    {
        self.data.len()
    }

    /// The byte at index `i`.
    pub fn get(&self, i: usize) -> (r: u8)
        requires
            i < self@.len(),
        ensures
            r == self@[i as int],
    {
        self.data[i]
    }

    /// The held bytes as a slice.
    pub fn as_slice(&self) -> (r: &[u8])
        ensures
            r@ == self@,
    {
        self.data.as_slice()
    }

    /// Whether `len` bytes starting at `offset` lie inside the blob.
    pub fn check_bounds(&self, offset: usize, len: usize) -> (r: bool)
        ensures
            r == (offset + len <= self@.len()),
            self@.len() <= usize::MAX,
    {
        let n = self.data.len();
        if offset > n {
            false
        } else {
            len <= n - offset
        }
    }

    /// Reads the big-endian word at `offset`.
    pub fn read_u32(&self, offset: usize) -> (r: Option<u32>)
        ensures
            r == (if offset + 4 <= self@.len() {
                Some(be_u32_at(self@, offset as int))
            } else {
                None::<u32>
            }),
    {
        if !self.check_bounds(offset, 4) {
            return None;
        }
        let bytes: [u8; 4] = [
            self.data[offset],
            self.data[offset + 1],
            self.data[offset + 2],
            self.data[offset + 3],
        ];
        Some(u32_from_be(bytes))
    }

    /// Writes `value` as a big-endian word at `offset`; nothing changes when
    /// the word would not fit.
    pub fn write_u32(&mut self, offset: usize, value: u32) -> (r: bool)
        ensures
            r == (offset + 4 <= old(self)@.len()),
            r ==> final(self)@ == spliced(old(self)@, offset as int, be_bytes_of(value)),
            !r ==> final(self)@ == old(self)@,
    {
        if !self.check_bounds(offset, 4) {
            return false;
        }
        let b = u32_to_be(value);
        let ghost old_data = self.data@;
        self.data.set(offset, b[0]);
        self.data.set(offset + 1, b[1]);
        self.data.set(offset + 2, b[2]);
        self.data.set(offset + 3, b[3]);
        assert(self.data@ =~= spliced(old_data, offset as int, be_bytes_of(value)));
        true
    }

    /// The `len` bytes starting at `offset`, when they lie inside the blob.
    pub fn read_bytes(&self, offset: usize, len: usize) -> (r: Option<&[u8]>)
        ensures
            offset + len <= self@.len() ==> (r is Some && r->Some_0@ == self@.subrange(
                offset as int,
                offset + len,
            )),
            offset + len > self@.len() ==> r is None,
    {
        if !self.check_bounds(offset, len) {
            return None;
        }
        Some(&self.data.as_slice()[offset..offset + len])
    }

    /// Copies `data` into the blob at `offset`; nothing changes when it would
    /// not fit.
    pub fn write_bytes(&mut self, offset: usize, data: &[u8]) -> (r: bool)
        ensures
            r == (offset + data@.len() <= old(self)@.len()),
            r ==> final(self)@ == spliced(old(self)@, offset as int, data@),
            !r ==> final(self)@ == old(self)@,
    {
        if !self.check_bounds(offset, data.len()) {
            return false;
        }
        let ghost old_data = self.data@;
        let mut i: usize = 0;
        while i < data.len()
            invariant
                offset + data@.len() <= old_data.len(),
                old_data.len() <= usize::MAX,
                self.data@.len() == old_data.len(),
                0 <= i <= data@.len(),
                forall|k: int|
                    0 <= k < old_data.len() ==> #[trigger] self.data@[k] == if offset <= k < offset
                        + i {
                        data@[k - offset]
                    } else {
                        old_data[k]
                    },
            decreases data.len() - i,
        {
            self.data.set(offset + i, data[i]);
            i += 1;
        }
        assert(self.data@ =~= spliced(old_data, offset as int, data@));
        true
    }

    /// Scans for the NUL-terminated string at `offset` (at most 256 bytes).
    pub fn read_cstr(&self, offset: usize) -> (r: Option<&[u8]>)
        ensures
            r matches Some(s) ==> cstr_bytes(self@, offset as int) == Some(s@),
            r is None ==> cstr_bytes(self@, offset as int) is None,
    {
        let mut len: usize = 0;
        while len < 256
            invariant
                len <= 256,
                len > 0 ==> offset + len <= self@.len(),
                cstr_len(self@, offset as int, 0) == cstr_len(self@, offset as int, len as int),
            ensures
                len <= 256,
                len > 0 ==> offset + len <= self@.len(),
                cstr_len(self@, offset as int, 0) == cstr_len(self@, offset as int, len as int),
                len == 256 || (offset + len < self@.len() && self@[offset + len] == 0),
            decreases 256 - len,
        {
            if !self.check_bounds(offset, len + 1) {
                return None;
            }
            if self.data[offset + len] == 0 {
                break;
            }
            len += 1;
        }
        assert(cstr_len(self@, offset as int, len as int) == Some(len as int));
        self.read_bytes(offset, len)
    }

    /// Reads the NUL-terminated UTF-8 string at `offset` (at most 256 bytes).
    pub fn read_str(&self, offset: usize) -> (r: Option<&str>)
        ensures
            r matches Some(s) ==> cstr_bytes(self@, offset as int) == Some(s.spec_bytes())
                && vstd::utf8::valid_utf8(s.spec_bytes()),
            r is None ==> (match cstr_bytes(self@, offset as int) {
                Some(b) => !vstd::utf8::valid_utf8(b),
                None => true,
            }),
    {
        match self.read_cstr(offset) {
            Some(bytes) => str_from_utf8(bytes),
            None => None,
        }
    }
}

} // verus!

verus! {

/// Value of a big-endian header word.
pub open spec fn be_word(a: [u8; 4]) -> u32 {
    be_value(a@[0], a@[1], a@[2], a@[3])
}

/// The 40-byte blob header, each field held as its four big-endian bytes.
#[derive(Clone, Copy)]
pub struct FdtHeader {
    /// Magic number, `FDT_MAGIC` in a valid blob.
    pub magic: [u8; 4],
    /// Size of the whole blob.
    pub totalsize: [u8; 4],
    /// Offset of the structure block.
    pub off_dt_struct: [u8; 4],
    /// Offset of the strings block.
    pub off_dt_strings: [u8; 4],
    /// Offset of the memory reservation block.
    pub off_mem_rsvmap: [u8; 4],
    /// Format version.
    pub version: [u8; 4],
    /// Oldest compatible format version.
    pub last_comp_version: [u8; 4],
    /// Physical id of the boot CPU.
    pub boot_cpuid_phys: [u8; 4],
    /// Size of the strings block.
    pub size_dt_strings: [u8; 4],
    /// Size of the structure block.
    pub size_dt_struct: [u8; 4],
}

impl FdtHeader {
    /// The header laid out as the 40 bytes at the start of a blob.
    pub open spec fn bytes(self) -> Seq<u8> {
        self.magic@ + self.totalsize@ + self.off_dt_struct@ + self.off_dt_strings@
            + self.off_mem_rsvmap@ + self.version@ + self.last_comp_version@
            + self.boot_cpuid_phys@ + self.size_dt_strings@ + self.size_dt_struct@
    }

    /// Reads the header from the first 40 bytes of the blob.
    pub fn read(memory: &DtbMemory) -> (r: Option<Self>)
        ensures
            memory@.len() >= FDT_HEADER_SIZE ==> (r is Some && r->Some_0.bytes() == memory@.subrange(
                0,
                FDT_HEADER_SIZE as int,
            )),
            memory@.len() < FDT_HEADER_SIZE ==> r is None,
    {
        let b = match memory.read_bytes(0, FDT_HEADER_SIZE) {
            Some(b) => b,
            None => return None,
        };
        let h = FdtHeader {
            magic: [b[0], b[1], b[2], b[3]],
            totalsize: [b[4], b[5], b[6], b[7]],
            off_dt_struct: [b[8], b[9], b[10], b[11]],
            off_dt_strings: [b[12], b[13], b[14], b[15]],
            off_mem_rsvmap: [b[16], b[17], b[18], b[19]],
            version: [b[20], b[21], b[22], b[23]],
            last_comp_version: [b[24], b[25], b[26], b[27]],
            boot_cpuid_phys: [b[28], b[29], b[30], b[31]],
            size_dt_strings: [b[32], b[33], b[34], b[35]],
            size_dt_struct: [b[36], b[37], b[38], b[39]],
        };
        assert(h.bytes() =~= b@);
        Some(h)
    }

    /// Writes the header over the first 40 bytes of the blob.
    pub fn write(&self, memory: &mut DtbMemory) -> (r: bool)
        ensures
            r == (FDT_HEADER_SIZE <= old(memory)@.len()),
            r ==> final(memory)@ == spliced(old(memory)@, 0, self.bytes()),
            !r ==> final(memory)@ == old(memory)@,
    {
        let mut bytes: Vec<u8> = Vec::new();
        let fields = [
            self.magic,
            self.totalsize,
            self.off_dt_struct,
            self.off_dt_strings,
            self.off_mem_rsvmap,
            self.version,
            self.last_comp_version,
            self.boot_cpuid_phys,
            self.size_dt_strings,
            self.size_dt_struct,
        ];
        let mut i: usize = 0;
        while i < 10
            invariant
                0 <= i <= 10,
                fields@ == seq![
                    self.magic,
                    self.totalsize,
                    self.off_dt_struct,
                    self.off_dt_strings,
                    self.off_mem_rsvmap,
                    self.version,
                    self.last_comp_version,
                    self.boot_cpuid_phys,
                    self.size_dt_strings,
                    self.size_dt_struct,
                ],
                bytes@.len() == 4 * i,
                forall|k: int|
                    0 <= k < 4 * i ==> #[trigger] bytes@[k] == fields@[k / 4]@[k % 4],
            decreases 10 - i,
        {
            let f = fields[i];
            bytes.push(f[0]);
            bytes.push(f[1]);
            bytes.push(f[2]);
            bytes.push(f[3]);
            i += 1;
        }
        assert(bytes@ =~= self.bytes());
        memory.write_bytes(0, bytes.as_slice())
    }

    /// The magic number.
    pub fn magic(&self) -> (r: u32)
        ensures
            r == be_word(self.magic),
    {
        u32_from_be(self.magic)
    }

    /// Size of the whole blob.
    pub fn totalsize(&self) -> (r: u32)
        ensures
            r == be_word(self.totalsize),
    {
        u32_from_be(self.totalsize)
    }

    /// Offset of the structure block.
    pub fn off_dt_struct(&self) -> (r: u32)
        ensures
            r == be_word(self.off_dt_struct),
    {
        u32_from_be(self.off_dt_struct)
    }

    /// Offset of the strings block.
    pub fn off_dt_strings(&self) -> (r: u32)
        ensures
            r == be_word(self.off_dt_strings),
    {
        u32_from_be(self.off_dt_strings)
    }

    /// Size of the structure block.
    pub fn size_dt_struct(&self) -> (r: u32)
        ensures
            r == be_word(self.size_dt_struct),
    {
        u32_from_be(self.size_dt_struct)
    }

    /// Size of the strings block.
    pub fn size_dt_strings(&self) -> (r: u32)
        ensures
            r == be_word(self.size_dt_strings),
    {
        u32_from_be(self.size_dt_strings)
    }

    /// Offset of the memory reservation block.
    pub fn off_mem_rsvmap_val(&self) -> (r: u32)
        ensures
            r == be_word(self.off_mem_rsvmap),
    {
        u32_from_be(self.off_mem_rsvmap)
    }

    /// Sets the size of the whole blob.
    pub fn set_totalsize(&mut self, val: u32)
        ensures
            *final(self) == (FdtHeader { totalsize: final(self).totalsize, ..*old(self) }),
            final(self).totalsize@ == be_bytes_of(val),
            be_word(final(self).totalsize) == val,
    {
        self.totalsize = u32_to_be(val);
    }

    /// Sets the offset of the structure block.
    pub fn set_off_dt_struct(&mut self, val: u32)
        ensures
            *final(self) == (FdtHeader { off_dt_struct: final(self).off_dt_struct, ..*old(self) }),
            final(self).off_dt_struct@ == be_bytes_of(val),
            be_word(final(self).off_dt_struct) == val,
    {
        self.off_dt_struct = u32_to_be(val);
    }

    /// Sets the offset of the strings block.
    pub fn set_off_dt_strings(&mut self, val: u32)
        ensures
            *final(self) == (FdtHeader { off_dt_strings: final(self).off_dt_strings, ..*old(self) }),
            final(self).off_dt_strings@ == be_bytes_of(val),
            be_word(final(self).off_dt_strings) == val,
    {
        self.off_dt_strings = u32_to_be(val);
    }

    /// Sets the size of the structure block.
    pub fn set_size_dt_struct(&mut self, val: u32)
        ensures
            *final(self) == (FdtHeader { size_dt_struct: final(self).size_dt_struct, ..*old(self) }),
            final(self).size_dt_struct@ == be_bytes_of(val),
            be_word(final(self).size_dt_struct) == val,
    {
        self.size_dt_struct = u32_to_be(val);
    }

    /// Sets the size of the strings block.
    pub fn set_size_dt_strings(&mut self, val: u32)
        ensures
            *final(self) == (FdtHeader { size_dt_strings: final(self).size_dt_strings, ..*old(self) }),
            final(self).size_dt_strings@ == be_bytes_of(val),
            be_word(final(self).size_dt_strings) == val,
    {
        self.size_dt_strings = u32_to_be(val);
    }
}

} // verus!

verus! {

/// A structure-block word read at word offset `co`: present when its four
/// bytes lie inside the blob.
pub open spec fn token_at(data: Seq<u8>, off: int, co: int) -> Option<u32> {
    if 0 <= off + co * 4 && off + co * 4 + 4 <= data.len() {
        Some(be_u32_at(data, off + co * 4))
    } else {
        None
    }
}

/// Number of name bytes read from `start` onwards, `len` of them already
/// seen: reading stops at a NUL byte, at the end of the blob, or after 256
/// bytes.
pub open spec fn name_len(data: Seq<u8>, start: int, len: nat) -> nat
    decreases 256 - len,
{
    if len >= 256 {
        len
    } else if start + len >= data.len() || start + len < 0 {
        len
    } else if data[start + len] == 0 {
        len
    } else {
        name_len(data, start, len + 1)
    }
}

/// Bytes of the node name that starts at word offset `co`.
pub open spec fn name_bytes_at(data: Seq<u8>, off: int, co: int) -> Seq<u8> {
    let n = name_len(data, off + co * 4, 0);
    if n == 0 {
        Seq::empty()
    } else {
        data.subrange(off + co * 4, off + co * 4 + n)
    }
}

/// Words taken by the node name at word offset `co`, with its terminating
/// NUL and padding to a word boundary.
pub open spec fn name_words(data: Seq<u8>, off: int, co: int) -> nat {
    ((name_len(data, off + co * 4, 0) + 4) / 4) as nat
}

/// A measure that every step of a walk makes smaller.
pub open spec fn walk_measure(co: int) -> int {
    if 0 <= co <= usize::MAX {
        usize::MAX + 1 - co
    } else {
        0
    }
}

/// Word offset after skipping the rest of a node whose nesting depth is
/// `depth`, starting at word offset `co`: nested nodes and properties are
/// stepped over until the matching end-of-node token; an end-of-tree or
/// unknown token stops the walk just after it, and a word that cannot be
/// read stops it where it is.
pub open spec fn skip_walk(data: Seq<u8>, off: int, co: int, depth: int) -> int
    decreases walk_measure(co),
{
    if depth <= 0 || co < 0 || co > usize::MAX {
        co
    } else {
        match token_at(data, off, co) {
            None => co,
            Some(t) => {
                let co1 = co + 1;
                if t == FDT_BEGIN_NODE {
                    skip_walk(data, off, co1 + name_words(data, off, co1), depth + 1)
                } else if t == FDT_END_NODE {
                    skip_walk(data, off, co1, depth - 1)
                } else if t == FDT_PROP {
                    let len: int = match token_at(data, off, co1) {
                        Some(l) => l as int,
                        None => 0,
                    };
                    let co2 = if token_at(data, off, co1) is Some {
                        co1 + 1
                    } else {
                        co1
                    };
                    let co3 = if token_at(data, off, co2) is Some {
                        co2 + 1
                    } else {
                        co2
                    };
                    skip_walk(data, off, co3 + (len + 3) / 4, depth)
                } else if t == FDT_NOP {
                    skip_walk(data, off, co1, depth)
                } else {
                    co1
                }
            },
        }
    }
}

/// Skipping never moves backwards.
pub proof fn lemma_skip_walk_advances(data: Seq<u8>, off: int, co: int, depth: int)
    ensures
        skip_walk(data, off, co, depth) >= co,
    decreases walk_measure(co),
{
    if depth <= 0 || co < 0 || co > usize::MAX {
    } else {
        match token_at(data, off, co) {
            None => {},
            Some(t) => {
                let co1 = co + 1;
                if t == FDT_BEGIN_NODE {
                    lemma_skip_walk_advances(data, off, co1 + name_words(data, off, co1), depth + 1);
                } else if t == FDT_END_NODE {
                    lemma_skip_walk_advances(data, off, co1, depth - 1);
                } else if t == FDT_PROP {
                    let len: int = match token_at(data, off, co1) {
                        Some(l) => l as int,
                        None => 0,
                    };
                    let co2 = if token_at(data, off, co1) is Some {
                        co1 + 1
                    } else {
                        co1
                    };
                    let co3 = if token_at(data, off, co2) is Some {
                        co2 + 1
                    } else {
                        co2
                    };
                    lemma_skip_walk_advances(data, off, co3 + (len + 3) / 4, depth);
                } else if t == FDT_NOP {
                    lemma_skip_walk_advances(data, off, co1, depth);
                }
            },
        }
    }
}

} // verus!

verus! {

/// Text decoding of bytes with every invalid UTF-8 sequence replaced by
/// U+FFFD, given as the bytes of the resulting text.
pub uninterp spec fn utf8_lossy(bytes: Seq<u8>) -> Seq<u8>;

/// Decodes bytes as UTF-8, replacing invalid sequences
/// (`String::from_utf8_lossy`), and returns the bytes of the resulting text.
///
/// Claims: the result is `utf8_lossy` of the input, and input that already is
/// valid UTF-8 comes back unchanged, as the standard library documents.
#[verifier::external_body]
fn lossy_utf8(bytes: &[u8]) -> (r: Vec<u8>)
    ensures
        r@ == utf8_lossy(bytes@),
        vstd::utf8::valid_utf8(bytes@) ==> r@ == bytes@,
{
    String::from_utf8_lossy(bytes).into_owned().into_bytes()
}

/// Number of words that `len` bytes occupy, rounded up.
pub fn words_for(len: u32) -> (r: usize)
    ensures
        r == (len + 3) / 4,
        r <= 0x4000_0000,
{
    let q = (len / 4) as usize;
    if len % 4 != 0 {
        q + 1
    } else {
        q
    }
}

/// Where a node was found: the word offset of its begin token and the word
/// offset just after its end.
pub struct NodeLocation {
    /// Word offset of the node's begin token.
    pub start_offset: usize,
    /// Word offset reached by skipping the node.
    pub end_offset: usize,
}

/// Parser over an owned copy of a device tree blob; walks the structure block
/// word by word from `current_offset`.
pub struct DtbParser {
    dtb: DtbMemory,
    header: FdtHeader,
    current_offset: usize,
}

impl DtbParser {
    /// The blob bytes.
    pub closed spec fn data(self) -> Seq<u8> {
        self.dtb@
    }

    /// The header the parser works with.
    pub closed spec fn spec_header(self) -> FdtHeader {
        self.header
    }

    /// Walk position in words, relative to the structure block.
    pub closed spec fn offset(self) -> usize {
        self.current_offset
    }

    /// Byte offset of the structure block.
    pub open spec fn struct_off(self) -> int {
        be_word(self.spec_header().off_dt_struct) as int
    }

    /// Byte offset of the strings block.
    pub open spec fn strings_off(self) -> int {
        be_word(self.spec_header().off_dt_strings) as int
    }

    /// Mutable view of the blob bytes.
    pub fn get_memory_view(&mut self) -> (r: &mut DtbMemory)
        ensures
            r@ == old(self).data(),
            final(self).spec_header() == old(self).spec_header(),
            final(self).offset() == old(self).offset(),
            final(self).data() == final(r)@,
    {
        &mut self.dtb
    }

    /// Read-only view of the blob bytes.
    pub fn get_memory_view_read_only(&self) -> (r: &DtbMemory)
        ensures
            r@ == self.data(),
    {
        &self.dtb
    }

    /// Reads the next structure-block word and advances past it.
    pub fn next_token(&mut self) -> (r: Option<u32>)
        ensures
            final(self).data() == old(self).data(),
            final(self).spec_header() == old(self).spec_header(),
            r == token_at(old(self).data(), old(self).struct_off(), old(self).offset() as int),
            r is Some ==> final(self).offset() == old(self).offset() + 1,
            r is None ==> final(self).offset() == old(self).offset(),
    {
        let off = self.header.off_dt_struct() as usize;
        let len = self.dtb.len();
        if off > len {
            return None;
        }
        if self.current_offset > (len - off) / 4 {
            return None;
        }
        let pos = off + self.current_offset * 4;
        match self.dtb.read_u32(pos) {
            Some(v) => {
                self.current_offset = self.current_offset + 1;
                Some(v)
            },
            None => None,
        }
    }

    /// Reads the NUL-terminated node name at the walk position and advances
    /// past it and its padding; the name comes back as lossily decoded text.
    pub fn read_node_name(&mut self) -> (r: Vec<u8>)
        requires
            old(self).struct_off() + old(self).offset() * 4 <= usize::MAX,
        ensures
            final(self).data() == old(self).data(),
            final(self).spec_header() == old(self).spec_header(),
            r@ == utf8_lossy(
                name_bytes_at(old(self).data(), old(self).struct_off(), old(self).offset() as int),
            ),
            final(self).offset() == old(self).offset() + name_words(
                old(self).data(),
                old(self).struct_off(),
                old(self).offset() as int,
            ),
    {
        let start = self.header.off_dt_struct() as usize + self.current_offset * 4;
        let ghost data = self.dtb@;
        let mut len: usize = 0;
        while len < 256
            invariant
                len <= 256,
                start + len <= usize::MAX,
                data == self.dtb@,
                len > 0 ==> start + len <= data.len(),
                forall|k: int| 0 <= k < len ==> #[trigger] data[start + k] != 0,
                name_len(data, start as int, 0) == name_len(data, start as int, len as nat),
            ensures
                len <= 256,
                len > 0 ==> start + len <= data.len(),
                forall|k: int| 0 <= k < len ==> #[trigger] data[start + k] != 0,
                name_len(data, start as int, 0) == len,
            decreases 256 - len,
        {
            if !self.dtb.check_bounds(start, len + 1) {
                break;
            }
            if self.dtb.get(start + len) == 0 {
                break;
            }
            len += 1;
        }
        let ghost nb = name_bytes_at(data, be_word(self.header.off_dt_struct) as int, self.current_offset as int);
        let empty: Vec<u8> = Vec::new();
        let name = if len == 0 {
            assert(empty@ =~= nb);
            lossy_utf8(empty.as_slice())
        } else {
            match self.dtb.read_bytes(start, len) {
                Some(b) => {
                    assert(b@ =~= nb);
                    lossy_utf8(b)
                },
                None => lossy_utf8(empty.as_slice()),
            }
        };
        let total_len = len + 1;
        let aligned_len = (total_len + 3) & !3usize;
        let ghost summed = (total_len + 3) as usize;
        assert(summed & !3usize == summed / 4 * 4) by (bit_vector);
        self.current_offset = self.current_offset + aligned_len / 4;
        name
    }

    /// Skips the rest of the current node, up to and including its
    /// end-of-node token, and returns the word offset reached.
    pub fn skip_node(&mut self) -> (r: usize)
        ensures
            final(self).data() == old(self).data(),
            final(self).spec_header() == old(self).spec_header(),
            r == final(self).offset(),
            r == skip_walk(old(self).data(), old(self).struct_off(), old(self).offset() as int, 1),
    {
        let ghost data = self.dtb@;
        let ghost off = self.struct_off();
        let ghost co0 = self.current_offset as int;
        let ghost hdr = self.header;
        let _ = self.dtb.len();
        let mut depth: usize = 1;
        while depth > 0
            invariant_except_break
                skip_walk(data, off, self.current_offset as int, depth as int) == skip_walk(data, off, co0, 1),
            invariant
                data.len() <= usize::MAX,
                self.dtb@ == data,
                self.header == hdr,
                off == be_word(hdr.off_dt_struct) as int,
                depth <= self.current_offset + 1,
            ensures
                self.dtb@ == data,
                self.header == hdr,
                self.current_offset == skip_walk(data, off, co0, 1),
            decreases usize::MAX - self.current_offset,
        {
            let ghost co = self.current_offset as int;
            match self.next_token() {
                Some(t) => {
                    if t == FDT_BEGIN_NODE {
                        let _ = self.read_node_name();
                        depth += 1;
                    } else if t == FDT_END_NODE {
                        depth -= 1;
                    } else if t == FDT_PROP {
                        let ghost co1 = self.current_offset as int;
                        let len_token = self.next_token();
                        let len = match len_token {
                            Some(l) => l,
                            None => 0,
                        };
                        let _ = self.next_token();
                        assert(len_token is Some ==> off + co1 * 4 + 4 <= data.len());
                        assert(usize::MAX >= 0xffff_ffff);
                        self.current_offset = self.current_offset + words_for(len);
                    } else if t == FDT_NOP {
                    } else {
                        assert(skip_walk(data, off, co, depth as int) == co + 1);
                        break;
                    }
                },
                None => {
                    break;
                },
            }
        }
        self.current_offset
    }
}

} // verus!

verus! {

/// The byte of the `/` path separator.
pub const SLASH: u8 = 0x2f;

/// Path segments joined by `/`.
pub open spec fn join_path(segs: Seq<Seq<u8>>) -> Seq<u8>
    decreases segs.len(),
{
    if segs.len() == 0 {
        Seq::empty()
    } else if segs.len() == 1 {
        segs[0]
    } else {
        join_path(segs.drop_last()) + seq![SLASH] + segs.last()
    }
}

/// `p` without its leading `/` bytes.
pub open spec fn strip_leading_slashes(p: Seq<u8>) -> Seq<u8>
    decreases p.len(),
{
    if p.len() > 0 && p[0] == SLASH {
        strip_leading_slashes(p.drop_first())
    } else {
        p
    }
}

/// `p` without its trailing `/` bytes.
pub open spec fn strip_trailing_slashes(p: Seq<u8>) -> Seq<u8>
    decreases p.len(),
{
    if p.len() > 0 && p.last() == SLASH {
        strip_trailing_slashes(p.drop_last())
    } else {
        p
    }
}

/// `p` without leading and trailing `/` bytes. Since `/` is ASCII and never
/// part of a multi-byte UTF-8 sequence, on the bytes of a text this is the
/// bytes of the text with its leading and trailing `/` characters removed.
pub open spec fn trim_slashes(p: Seq<u8>) -> Seq<u8> {
    strip_trailing_slashes(strip_leading_slashes(p))
}

/// Views of a list of byte vectors.
pub open spec fn views(segs: Seq<Vec<u8>>) -> Seq<Seq<u8>> {
    segs.map_values(|v: Vec<u8>| v@)
}

/// The path segments after a begin-node token whose name is `name`, seen
/// at nesting depth `depth`: the root's empty name adds no segment.
pub open spec fn segs_after_begin(segs: Seq<Seq<u8>>, depth: int, name: Seq<u8>) -> Seq<Seq<u8>> {
    if depth == 0 && name.len() == 0 {
        segs
    } else {
        segs.push(name)
    }
}

/// The path segments after an end-node token that leaves depth `depth`.
pub open spec fn segs_after_end(segs: Seq<Seq<u8>>, depth: int) -> Seq<Seq<u8>> {
    if depth > 0 {
        if segs.len() > 0 {
            segs.drop_last()
        } else {
            segs
        }
    } else if depth == 0 && segs.len() > 0 {
        Seq::empty()
    } else {
        segs
    }
}

/// Search of the structure block for the first node whose path equals
/// `target`, from word offset `co`, at nesting `depth`, with the current
/// path segments `segs`. The result is the node's begin-token offset and the
/// offset reached by skipping it; malformed input or the end of the tree
/// gives nothing.
pub open spec fn find_walk(
    data: Seq<u8>,
    off: int,
    target: Seq<u8>,
    co: int,
    depth: int,
    segs: Seq<Seq<u8>>,
) -> Option<(int, int)>
    decreases walk_measure(co),
{
    if co < 0 || co > usize::MAX {
        None
    } else {
        match token_at(data, off, co) {
            None => None,
            Some(t) => {
                let co1 = co + 1;
                if t == FDT_BEGIN_NODE {
                    let name = utf8_lossy(name_bytes_at(data, off, co1));
                    let co2 = co1 + name_words(data, off, co1);
                    let segs2 = segs_after_begin(segs, depth, name);
                    if join_path(segs2) == target {
                        Some((co, skip_walk(data, off, co2, 1)))
                    } else {
                        find_walk(data, off, target, co2, depth + 1, segs2)
                    }
                } else if t == FDT_END_NODE {
                    find_walk(data, off, target, co1, depth - 1, segs_after_end(segs, depth - 1))
                } else if t == FDT_PROP {
                    match token_at(data, off, co1) {
                        None => None,
                        Some(len) => match token_at(data, off, co1 + 1) {
                            None => None,
                            Some(_) => find_walk(
                                data,
                                off,
                                target,
                                co1 + 2 + (len + 3) / 4,
                                depth,
                                segs,
                            ),
                        },
                    }
                } else if t == FDT_NOP {
                    find_walk(data, off, target, co1, depth, segs)
                } else {
                    None
                }
            },
        }
    }
}

/// Whether two byte strings are equal.
pub fn bytes_eq(a: &[u8], b: &[u8]) -> (r: bool)
    ensures
        r == (a@ == b@),
{
    if a.len() != b.len() {
        return false;
    }
    let mut i: usize = 0;
    while i < a.len()
        invariant
            a@.len() == b@.len(),
            0 <= i <= a@.len(),
            forall|k: int| 0 <= k < i ==> a@[k] == b@[k],
        decreases a.len() - i,
    {
        if a[i] != b[i] {
            return false;
        }
        i += 1;
    }
    assert(a@ =~= b@);
    true
}

/// Appends the bytes of `src` to `dst`.
pub fn append_bytes(dst: &mut Vec<u8>, src: &[u8])
    ensures
        final(dst)@ == old(dst)@ + src@,
{
    let mut i: usize = 0;
    while i < src.len()
        invariant
            0 <= i <= src@.len(),
            dst@ == old(dst)@ + src@.subrange(0, i as int),
        decreases src.len() - i,
    {
        dst.push(src[i]);
        i += 1;
        assert(dst@ =~= old(dst)@ + src@.subrange(0, i as int));
    }
    assert(src@.subrange(0, src@.len() as int) =~= src@);
}

/// Joins path segments with `/`.
pub fn join_segments(segs: &Vec<Vec<u8>>) -> (r: Vec<u8>)
    ensures
        r@ == join_path(views(segs@)),
{
    let mut res: Vec<u8> = Vec::new();
    let mut i: usize = 0;
    while i < segs.len()
        invariant
            0 <= i <= segs@.len(),
            res@ == join_path(views(segs@).take(i as int)),
        decreases segs.len() - i,
    {
        let ghost vs = views(segs@);
        assert(vs.take(i + 1).drop_last() =~= vs.take(i as int));
        if i > 0 {
            res.push(SLASH);
        }
        append_bytes(&mut res, segs[i].as_slice());
        i += 1;
        proof {
            if i == 1 {
                assert(vs.take(1) =~= seq![vs[0]]);
            }
        }
    }
    assert(views(segs@).take(segs@.len() as int) =~= views(segs@));
    res
}

/// `p` without leading and trailing `/` bytes.
pub fn trim_slashes_exec(p: &[u8]) -> (r: Vec<u8>)
    ensures
        r@ == trim_slashes(p@),
{
    let mut lo: usize = 0;
    assert(p@.subrange(0, p@.len() as int) =~= p@);
    while lo < p.len() && p[lo] == SLASH
        invariant
            0 <= lo <= p@.len(),
            strip_leading_slashes(p@) == strip_leading_slashes(p@.subrange(lo as int, p@.len() as int)),
        decreases p.len() - lo,
    {
        assert(p@.subrange(lo as int, p@.len() as int).drop_first() =~= p@.subrange(lo + 1, p@.len() as int));
        lo += 1;
    }
    let mut hi: usize = p.len();
    let ghost lead = p@.subrange(lo as int, p@.len() as int);
    assert(strip_leading_slashes(lead) == lead);
    while hi > lo && p[hi - 1] == SLASH
        invariant
            lo <= hi <= p@.len(),
            lead == p@.subrange(lo as int, p@.len() as int),
            strip_trailing_slashes(lead) == strip_trailing_slashes(p@.subrange(lo as int, hi as int)),
        decreases hi - lo,
    {
        assert(p@.subrange(lo as int, hi as int).drop_last() =~= p@.subrange(lo as int, hi - 1));
        hi -= 1;
    }
    let mut r: Vec<u8> = Vec::new();
    append_bytes(&mut r, &p[lo..hi]);
    assert(r@ =~= p@.subrange(lo as int, hi as int));
    r
}

} // verus!

verus! {

impl DtbParser {
    /// The node search that `find_node` performs for `path`.
    pub open spec fn spec_find(self, path: Seq<u8>) -> Option<(int, int)> {
        find_walk(self.data(), self.struct_off(), trim_slashes(path), 0, 0, Seq::empty())
    }

    /// Finds a node by its full path (leading and trailing `/` ignored) and
    /// returns where it starts and ends; the parser is left as it was.
    #[verifier::rlimit(60)]
    #[verifier::spinoff_prover]
    pub fn find_node(&mut self, path: &str) -> (r: Option<NodeLocation>)
        ensures
            final(self).data() == old(self).data(),
            final(self).spec_header() == old(self).spec_header(),
            final(self).offset() == old(self).offset(),
            match old(self).spec_find(path.spec_bytes()) {
                Some((s, e)) => r is Some && r->Some_0.start_offset == s && r->Some_0.end_offset
                    == e,
                None => r is None,
            },
    {
        let target = trim_slashes_exec(path.as_bytes());
        let ghost data = self.dtb@;
        let ghost hdr = self.header;
        let ghost off = self.struct_off();
        let ghost tgt = trim_slashes(path.spec_bytes());
        let _ = self.dtb.len();
        let saved_offset = self.current_offset;
        self.current_offset = 0;
        let mut segs: Vec<Vec<u8>> = Vec::new();
        let mut depth: i64 = 0;
        assert(views(segs@) =~= Seq::<Seq<u8>>::empty());
        loop
            invariant_except_break
                find_walk(data, off, tgt, self.current_offset as int, depth as int, views(segs@))
                    == find_walk(data, off, tgt, 0, 0, Seq::empty()),
            invariant
                data.len() <= usize::MAX,
                self.dtb@ == data,
                self.header == hdr,
                old(self).dtb@ == data,
                old(self).header == hdr,
                saved_offset == old(self).current_offset,
                tgt == trim_slashes(path.spec_bytes()),
                off == be_word(hdr.off_dt_struct) as int,
                target@ == tgt,
                -(self.current_offset as int) <= depth <= self.current_offset,
            ensures
                self.dtb@ == data,
                self.header == hdr,
                find_walk(data, off, tgt, 0, 0, Seq::empty()) is None,
            decreases usize::MAX - self.current_offset,
        {
            let ghost co = self.current_offset as int;
            let token = match self.next_token() {
                Some(t) => t,
                None => break,
            };
            if token == FDT_BEGIN_NODE {
                let node_token_offset = self.current_offset - 1;
                let ghost depth_before = depth as int;
                let name = self.read_node_name();
                let ghost co2 = self.current_offset as int;
                let ghost segs_before = views(segs@);
                if depth == 0 && name.len() == 0 {
                } else {
                    segs.push(name);
                    assert(views(segs@) =~= segs_before.push(name@));
                }
                depth += 1;
                let full = join_segments(&segs);
                assert(views(segs@) == segs_after_begin(segs_before, depth_before, name@));
                if bytes_eq(full.as_slice(), target.as_slice()) {
                    let end = self.skip_node();
                    assert(find_walk(data, off, tgt, co, depth_before, segs_before) == Some((co, skip_walk(data, off, co2, 1))));
                    self.current_offset = saved_offset;
                    return Some(NodeLocation { start_offset: node_token_offset, end_offset: end });
                }
            } else if token == FDT_END_NODE {
                let ghost segs_before = views(segs@);
                depth -= 1;
                if depth > 0 {
                    if segs.len() > 0 {
                        segs.pop();
                        assert(views(segs@) =~= segs_before.drop_last());
                    }
                } else if depth == 0 && segs.len() > 0 {
                    segs.clear();
                    assert(views(segs@) =~= Seq::<Seq<u8>>::empty());
                }
            } else if token == FDT_PROP {
                let len = match self.next_token() {
                    Some(l) => l,
                    None => {
                        self.current_offset = saved_offset;
                        return None;
                    },
                };
                let ghost co_name = self.current_offset as int;
                match self.next_token() {
                    Some(_) => {},
                    None => {
                        self.current_offset = saved_offset;
                        return None;
                    },
                }
                assert(off + (co_name - 1) * 4 + 4 <= data.len());
                assert(usize::MAX >= 0xffff_ffff);
                self.current_offset = self.current_offset + words_for(len);
            } else if token == FDT_NOP {
            } else if token == FDT_END {
                assert(find_walk(data, off, tgt, co, depth as int, views(segs@)) is None);
                break;
            } else {
                self.current_offset = saved_offset;
                return None;
            }
        }
        self.current_offset = saved_offset;
        None
    }
}

} // verus!

verus! {

/// A node found by `find_walk` starts with a readable word.
pub proof fn lemma_find_walk_hit(
    data: Seq<u8>,
    off: int,
    target: Seq<u8>,
    co: int,
    depth: int,
    segs: Seq<Seq<u8>>,
)
    ensures
        find_walk(data, off, target, co, depth, segs) matches Some((s, e)) ==> token_at(data, off, s)
            is Some && co <= s <= usize::MAX,
    decreases walk_measure(co),
{
    if co < 0 || co > usize::MAX {
    } else {
        match token_at(data, off, co) {
            None => {},
            Some(t) => {
                let co1 = co + 1;
                if t == FDT_BEGIN_NODE {
                    let name = utf8_lossy(name_bytes_at(data, off, co1));
                    let co2 = co1 + name_words(data, off, co1);
                    let segs2 = segs_after_begin(segs, depth, name);
                    if join_path(segs2) != target {
                        lemma_find_walk_hit(data, off, target, co2, depth + 1, segs2);
                    }
                } else if t == FDT_END_NODE {
                    lemma_find_walk_hit(data, off, target, co1, depth - 1, segs_after_end(segs, depth - 1));
                } else if t == FDT_PROP {
                    match token_at(data, off, co1) {
                        None => {},
                        Some(len) => match token_at(data, off, co1 + 1) {
                            None => {},
                            Some(_) => lemma_find_walk_hit(
                                data,
                                off,
                                target,
                                co1 + 2 + (len + 3) / 4,
                                depth,
                                segs,
                            ),
                        },
                    }
                } else if t == FDT_NOP {
                    lemma_find_walk_hit(data, off, target, co1, depth, segs);
                }
            },
        }
    }
}

/// Search of a node's contents, from word offset `co` up to `end`, for a
/// property whose name in the strings block (at `str_off`) is `name`; nested
/// nodes are skipped. The result is the property token's offset, its value
/// length and its name offset.
pub open spec fn prop_walk(
    data: Seq<u8>,
    off: int,
    str_off: int,
    name: Seq<u8>,
    co: int,
    end: int,
) -> Option<(int, u32, u32)>
    decreases walk_measure(co),
{
    if co < 0 || co > usize::MAX || co >= end {
        None
    } else {
        match token_at(data, off, co) {
            None => None,
            Some(t) => {
                let co1 = co + 1;
                if t == FDT_PROP {
                    match token_at(data, off, co1) {
                        None => None,
                        Some(len) => match token_at(data, off, co1 + 1) {
                            None => None,
                            Some(no) => if cstr_bytes(data, str_off + no) == Some(name) {
                                Some((co, len, no))
                            } else {
                                prop_walk(data, off, str_off, name, co1 + 2 + (len + 3) / 4, end)
                            },
                        },
                    }
                } else if t == FDT_BEGIN_NODE {
                    let co2 = co1 + name_words(data, off, co1);
                    proof {
                        lemma_skip_walk_advances(data, off, co2, 1);
                    }
                    prop_walk(data, off, str_off, name, skip_walk(data, off, co2, 1), end)
                } else if t == FDT_NOP {
                    prop_walk(data, off, str_off, name, co1, end)
                } else {
                    None
                }
            },
        }
    }
}

impl DtbParser {
    /// The property that `modify_property` and `read_property_value` look
    /// for: the first property named `prop_name` directly inside the node
    /// found for `node_path`, as its token offset, value length and name
    /// offset.
    pub open spec fn spec_locate(self, node_path: Seq<u8>, prop_name: Seq<u8>) -> Option<
        (int, u32, u32),
    > {
        match self.spec_find(node_path) {
            None => None,
            Some((s, e)) => {
                let data = self.data();
                let off = self.struct_off();
                let co1 = if token_at(data, off, s) is Some {
                    s + 1
                } else {
                    s
                };
                prop_walk(data, off, self.strings_off(), prop_name, co1 + name_words(data, off, co1), e)
            },
        }
    }

    /// Searches the node at `location` for the property named `prop_name`;
    /// the walk position is left wherever the search stopped.
    fn locate_property(&mut self, location: &NodeLocation, prop_name: &[u8]) -> (r: Option<
        (usize, u32, u32),
    >)
        requires
            token_at(old(self).data(), old(self).struct_off(), location.start_offset as int) is Some,
        ensures
            final(self).data() == old(self).data(),
            final(self).spec_header() == old(self).spec_header(),
            ({
                let data = old(self).data();
                let off = old(self).struct_off();
                let s = location.start_offset as int;
                let co2 = s + 1 + name_words(data, off, s + 1);
                match prop_walk(data, off, old(self).strings_off(), prop_name@, co2, location.end_offset as int) {
                    Some((t, l, n)) => r == Some((t as usize, l, n)),
                    None => r is None,
                }
            }),
    {
        let ghost data = self.dtb@;
        let ghost hdr = self.header;
        let ghost off = self.struct_off();
        let ghost str_off = self.strings_off();
        let _ = self.dtb.len();
        self.current_offset = location.start_offset;
        let _ = self.next_token();
        let _ = self.read_node_name();
        let end = location.end_offset;
        let str_base = self.header.off_dt_strings();
        loop
            invariant_except_break
                prop_walk(data, off, str_off, prop_name@, self.current_offset as int, end as int)
                    == prop_walk(data, off, str_off, prop_name@, location.start_offset + 1 + name_words(data, off, location.start_offset + 1), end as int),
            invariant
                data.len() <= usize::MAX,
                self.dtb@ == data,
                self.header == hdr,
                old(self).dtb@ == data,
                old(self).header == hdr,
                off == be_word(hdr.off_dt_struct) as int,
                str_off == be_word(hdr.off_dt_strings) as int,
                str_base == str_off,
                end == location.end_offset,
            ensures
                self.dtb@ == data,
                self.header == hdr,
                prop_walk(data, off, str_off, prop_name@, location.start_offset + 1 + name_words(data, off, location.start_offset + 1), end as int) is None,
            decreases usize::MAX - self.current_offset,
        {
            if self.current_offset >= end {
                break;
            }
            let ghost co = self.current_offset as int;
            let token = match self.next_token() {
                Some(t) => t,
                None => break,
            };
            if token == FDT_PROP {
                let prop_token_offset = self.current_offset - 1;
                let len = match self.next_token() {
                    Some(l) => l,
                    None => break,
                };
                let nameoff = match self.next_token() {
                    Some(n) => n,
                    None => break,
                };
                let name_at = str_base as u64 + nameoff as u64;
                let matched = if name_at <= usize::MAX as u64 {
                    match self.dtb.read_cstr(name_at as usize) {
                        Some(b) => bytes_eq(b, prop_name),
                        None => false,
                    }
                } else {
                    assert(cstr_len(data, str_off + nameoff, 0) is None);
                    false
                };
                if matched {
                    return Some((prop_token_offset, len, nameoff));
                }
                assert(usize::MAX >= 0xffff_ffff);
                self.current_offset = self.current_offset + words_for(len);
            } else if token == FDT_BEGIN_NODE {
                let _ = self.read_node_name();
                proof {
                    lemma_skip_walk_advances(data, off, self.current_offset as int, 1);
                }
                let _ = self.skip_node();
            } else if token == FDT_NOP {
            } else {
                break;
            }
        }
        None
    }
}

} // verus!

verus! {

/// `buf` with `src` written at `off` when it fits inside, `buf` itself
/// otherwise.
pub open spec fn write_at(buf: Seq<u8>, off: int, src: Seq<u8>) -> Seq<u8> {
    if 0 <= off && off + src.len() <= buf.len() {
        spliced(buf, off, src)
    } else {
        buf
    }
}

/// `n` zero bytes.
pub open spec fn zero_bytes(n: int) -> Seq<u8> {
    Seq::new(n as nat, |i: int| 0u8)
}

/// Bytes a property value of `len` bytes occupies, padding included.
pub open spec fn padded_len(len: u32) -> int {
    ((len + 3) / 4) * 4
}

/// Byte offset of the value of the property whose token is at word `t`.
pub open spec fn value_pos(off: int, t: int) -> int {
    off + (t + 3) * 4
}

/// The blob after a value no longer than the old padded one is written in
/// place: the value, zeros up to the old padded length (only when the value
/// itself fitted), and the new length word.
pub open spec fn modified_in_place(data: Seq<u8>, off: int, t: int, len: u32, value: Seq<u8>) -> Seq<u8> {
    let pos = value_pos(off, t);
    let d1 = write_at(data, pos, value);
    let d2 = if pos + value.len() <= data.len() && value.len() < padded_len(len) {
        write_at(d1, pos + value.len(), zero_bytes(padded_len(len) - value.len()))
    } else {
        d1
    };
    write_at(d2, off + (t + 1) * 4, be_bytes_of(value.len() as u32))
}

/// `n` rounded up to a multiple of four: the bytes a value of `n` bytes
/// occupies with its padding.
pub open spec fn padded_size(n: int) -> int {
    ((n + 3) / 4) * 4
}

/// Growth of the blob when a longer value replaces the property of `len`
/// bytes: the difference of the two padded lengths, so that every later
/// token stays on a four-byte boundary.
pub open spec fn growth(len: u32, value: Seq<u8>) -> int {
    padded_size(value.len() as int) - padded_len(len)
}

/// The bytes of the rebuilt blob before its header is rewritten: a zeroed
/// blob of the grown size, with the old header, the reservation block, the
/// structure block up to the property, the property with its new value, the
/// rest of the structure block and the strings block copied in, in this
/// order.
pub open spec fn rebuilt_body(data: Seq<u8>, hdr: FdtHeader, t: int, len: u32, no: u32, value: Seq<u8>) -> Seq<u8> {
    let so = be_word(hdr.off_dt_struct) as int;
    let rsv = be_word(hdr.off_mem_rsvmap) as int;
    let st = be_word(hdr.off_dt_strings) as int;
    let pos = value_pos(so, t);
    let inc = growth(len, value);
    let s0 = zero_bytes(be_word(hdr.totalsize) + inc);
    let s1 = write_at(s0, 0, data.subrange(0, FDT_HEADER_SIZE as int));
    let s2 = write_at(s1, rsv, data.subrange(rsv, so));
    let s3 = write_at(s2, so, data.subrange(so, pos));
    let s4 = write_at(s3, pos - 12, be_bytes_of(FDT_PROP));
    let s5 = write_at(s4, pos - 8, be_bytes_of(value.len() as u32));
    let s6 = write_at(s5, pos - 4, be_bytes_of(no));
    let s7 = write_at(s6, pos, value);
    let s8 = write_at(
        s7,
        pos + padded_size(value.len() as int),
        data.subrange(pos + padded_len(len), so + be_word(hdr.size_dt_struct)),
    );
    write_at(s8, st + inc, data.subrange(st, st + be_word(hdr.size_dt_strings)))
}

/// Header bytes `b` with the total size, strings offset and both block
/// sizes replaced.
pub open spec fn header_bytes_with(b: Seq<u8>, total: u32, strings: u32, size_strings: u32, size_struct: u32) -> Seq<u8> {
    b.subrange(0, 4) + be_bytes_of(total) + b.subrange(8, 12) + be_bytes_of(strings) + b.subrange(16, 32)
        + be_bytes_of(size_strings) + be_bytes_of(size_struct)
}

/// Header of the rebuilt blob, as its 40 bytes.
pub open spec fn rebuilt_header_bytes(data: Seq<u8>, hdr: FdtHeader, t: int, len: u32, no: u32, value: Seq<u8>) -> Seq<u8> {
    let inc = growth(len, value);
    header_bytes_with(
        rebuilt_body(data, hdr, t, len, no, value).subrange(0, FDT_HEADER_SIZE as int),
        (be_word(hdr.totalsize) + inc) as u32,
        (be_word(hdr.off_dt_strings) + inc) as u32,
        be_word(hdr.size_dt_strings),
        (be_word(hdr.size_dt_struct) + (inc as u32)) as u32,
    )
}

/// The inputs on which rebuilding the blob for a longer value runs to the
/// end: every copied range lies inside the old blob, the grown size holds a
/// header and can be allocated, and no size or offset overflows.
pub open spec fn rebuild_fits(data: Seq<u8>, hdr: FdtHeader, t: int, len: u32, value: Seq<u8>) -> bool {
    let so = be_word(hdr.off_dt_struct) as int;
    let rsv = be_word(hdr.off_mem_rsvmap) as int;
    let st = be_word(hdr.off_dt_strings) as int;
    let pos = value_pos(so, t);
    let inc = growth(len, value);
    let total = be_word(hdr.totalsize) + inc;
    &&& FDT_HEADER_SIZE <= data.len()
    &&& rsv <= so
    &&& pos + padded_len(len) <= so + be_word(hdr.size_dt_struct) <= data.len()
    &&& st + be_word(hdr.size_dt_strings) <= data.len()
    &&& FDT_HEADER_SIZE <= total <= isize::MAX
    &&& be_word(hdr.size_dt_struct) + (inc as u32) <= u32::MAX
    &&& pos + padded_size(value.len() as int) <= usize::MAX
    &&& st + inc <= usize::MAX
}

/// `n` zero bytes.
pub fn zeros(n: usize) -> (r: Vec<u8>)
    ensures
        r@ == zero_bytes(n as int),
{
    let mut v: Vec<u8> = Vec::new();
    let mut i: usize = 0;
    while i < n
        invariant
            i <= n,
            v@ == zero_bytes(i as int),
        decreases n - i,
    {
        v.push(0u8);
        i += 1;
        assert(v@ =~= zero_bytes(i as int));
    }
    v
}

} // verus!

verus! {

impl DtbParser {
    /// Writes `value` over the property whose token is at word `t` and whose
    /// value is `len` bytes long, when it fits in the old padded length.
    fn write_in_place(&mut self, t: usize, len: u32, value: &[u8]) -> (r: bool)
        requires
            value_pos(old(self).struct_off(), t as int) <= old(self).data().len(),
            value@.len() <= padded_len(len),
        ensures
            r == (value_pos(old(self).struct_off(), t as int) + value@.len() <= old(self).data().len()),
            final(self).data() == modified_in_place(old(self).data(), old(self).struct_off(), t as int, len, value@),
            final(self).spec_header() == old(self).spec_header(),
            final(self).offset() == old(self).offset(),
    {
        let _ = self.dtb.len();
        let so = self.header.off_dt_struct() as usize;
        let pos = so + t * 4 + 12;
        let vlen = value.len();
        let old_bytes: u64 = words_for(len) as u64 * 4;
        let ghost d0 = self.dtb@;
        let success = self.dtb.write_bytes(pos, value);
        let ghost d1 = self.dtb@;
        assert(d1 == write_at(d0, pos as int, value@));
        if success && (vlen as u64) < old_bytes {
            if old_bytes <= (self.dtb.len() - pos) as u64 {
                let padding = zeros((old_bytes - vlen as u64) as usize);
                self.dtb.write_bytes(pos + vlen, padding.as_slice());
            } else {
                assert(!(pos + vlen + (padded_len(len) - vlen) <= d1.len()));
            }
        }
        let ghost d2 = self.dtb@;
        let len_pos = so + t * 4 + 4;
        let new_len: u32 = #[verifier::truncate] (vlen as u32);
        self.dtb.write_u32(len_pos, new_len);
        success
    }
}

} // verus!

verus! {

/// The header fields laid out in `bytes` sit at their fixed positions.
proof fn lemma_header_fields(h: FdtHeader)
    ensures
        h.bytes().len() == 40,
        h.bytes().subrange(0, 4) == h.magic@,
        h.bytes().subrange(8, 12) == h.off_dt_struct@,
        h.bytes().subrange(16, 32) == h.off_mem_rsvmap@ + h.version@ + h.last_comp_version@
            + h.boot_cpuid_phys@,
{
    let b = h.bytes();
    assert(b.subrange(0, 4) =~= h.magic@);
    assert(b.subrange(8, 12) =~= h.off_dt_struct@);
    assert(b.subrange(16, 32) =~= h.off_mem_rsvmap@ + h.version@ + h.last_comp_version@
        + h.boot_cpuid_phys@);
}

/// A padded size is at least the size, less than four more, and a
/// multiple of four.
pub proof fn lemma_padded_size_bounds(n: int)
    requires
        n >= 0,
    ensures
        n <= padded_size(n) < n + 4,
        padded_size(n) % 4 == 0,
{
    assert(n <= ((n + 3) / 4) * 4 < n + 4 && (((n + 3) / 4) * 4) % 4 == 0) by (nonlinear_arith)
        requires
            n >= 0,
    ;
}

/// `n` rounded up to a multiple of four (see `padded_size`).
pub fn padded_bytes(n: usize) -> (r: usize)
    requires
        padded_size(n as int) <= usize::MAX,
    ensures
        r == padded_size(n as int),
{
    let rem = n % 4;
    if rem == 0 {
        assert(((n + 3) / 4) * 4 == n) by (nonlinear_arith)
            requires
                n % 4 == 0,
        ;
        n
    } else {
        assert(((n + 3) / 4) * 4 == n + (4 - rem)) by (nonlinear_arith)
            requires
                rem == n % 4,
                rem != 0,
        ;
        n + (4 - rem)
    }
}

impl DtbParser {
    /// The rebuilt blob for a longer value, before its header is rewritten.
    #[verifier::spinoff_prover]
    #[verifier::rlimit(40)]
    fn rebuilt_copy(&self, t: usize, len: u32, no: u32, value: &[u8]) -> (r: DtbMemory)
        requires
            value_pos(self.struct_off(), t as int) <= self.data().len(),
            value@.len() > padded_len(len),
            rebuild_fits(self.data(), self.spec_header(), t as int, len, value@),
        ensures
            r@ == rebuilt_body(self.data(), self.spec_header(), t as int, len, no, value@),
    {
        let ghost data = self.dtb@;
        let ghost hdr = self.header;
        let _ = self.dtb.len();
        let so = self.header.off_dt_struct() as usize;
        let rsv = self.header.off_mem_rsvmap_val() as usize;
        let size_struct = self.header.size_dt_struct() as usize;
        let strings = self.header.off_dt_strings() as usize;
        let size_strings = self.header.size_dt_strings() as usize;
        let pos = so + t * 4 + 12;
        let vlen = value.len();
        let old_bytes = words_for(len) * 4;
        let new_bytes = padded_bytes(vlen);
        proof {
            lemma_padded_size_bounds(vlen as int);
        }
        let inc = new_bytes - old_bytes;
        let new_total = self.header.totalsize() as usize + inc;
        let mut mem = DtbMemory::new(zeros(new_total));
        let old = self.dtb.as_slice();
        let ghost s0 = mem@;
        mem.write_bytes(0, &old[0..FDT_HEADER_SIZE]);
        let ghost s1 = mem@;
        assert(s1 == write_at(s0, 0, data.subrange(0, 40)));
        mem.write_bytes(rsv, &old[rsv..so]);
        let ghost s2 = mem@;
        assert(s2 == write_at(s1, rsv as int, data.subrange(rsv as int, so as int)));
        mem.write_bytes(so, &old[so..pos]);
        let ghost s3 = mem@;
        assert(s3 == write_at(s2, so as int, data.subrange(so as int, pos as int)));
        mem.write_u32(pos - 12, FDT_PROP);
        let ghost s4 = mem@;
        assert(s4 == write_at(s3, pos - 12, be_bytes_of(FDT_PROP)));
        let new_len: u32 = #[verifier::truncate] (vlen as u32);
        mem.write_u32(pos - 8, new_len);
        let ghost s5 = mem@;
        assert(s5 == write_at(s4, pos - 8, be_bytes_of(new_len)));
        mem.write_u32(pos - 4, no);
        let ghost s6 = mem@;
        assert(s6 == write_at(s5, pos - 4, be_bytes_of(no)));
        mem.write_bytes(pos, value);
        let ghost s7 = mem@;
        assert(s7 == write_at(s6, pos as int, value@));
        mem.write_bytes(pos + new_bytes, &old[pos + old_bytes..so + size_struct]);
        let ghost s8 = mem@;
        assert(s8 == write_at(s7, pos + new_bytes, data.subrange(pos + old_bytes, so + size_struct)));
        mem.write_bytes(strings + inc, &old[strings..strings + size_strings]);
        assert(mem@ == write_at(s8, strings + inc, data.subrange(strings as int, strings + size_strings)));
        mem
    }

    /// Rebuilds the blob so that the property whose token is at word `t`
    /// holds `value`, longer than its old padded length; the blocks after it
    /// move up and the header records the new sizes and strings offset.
    fn rebuild_with_value(&mut self, t: usize, len: u32, no: u32, value: &[u8])
        requires
            value_pos(old(self).struct_off(), t as int) <= old(self).data().len(),
            value@.len() > padded_len(len),
            rebuild_fits(old(self).data(), old(self).spec_header(), t as int, len, value@),
        ensures
            final(self).data() == spliced(
                rebuilt_body(old(self).data(), old(self).spec_header(), t as int, len, no, value@),
                0,
                rebuilt_header_bytes(old(self).data(), old(self).spec_header(), t as int, len, no, value@),
            ),
            final(self).spec_header().bytes() == rebuilt_header_bytes(
                old(self).data(),
                old(self).spec_header(),
                t as int,
                len,
                no,
                value@,
            ),
            final(self).offset() == old(self).offset(),
    {
        let ghost data = self.dtb@;
        let ghost hdr = self.header;
        let mut mem = self.rebuilt_copy(t, len, no, value);
        let ghost body = mem@;
        let size_struct = self.header.size_dt_struct();
        let strings = self.header.off_dt_strings() as usize;
        let size_strings = self.header.size_dt_strings();
        let vlen = value.len();
        let inc = padded_bytes(vlen) - words_for(len) * 4;
        let new_total = self.header.totalsize() as usize + inc;
        let mut h = match FdtHeader::read(&mem) {
            Some(h) => h,
            None => {
                assert(false);
                return;
            },
        };
        let ghost h0 = h;
        let total32: u32 = #[verifier::truncate] (new_total as u32);
        let strings32: u32 = #[verifier::truncate] ((strings + inc) as u32);
        let inc32: u32 = #[verifier::truncate] (inc as u32);
        h.set_totalsize(total32);
        h.set_size_dt_struct(size_struct + inc32);
        h.set_off_dt_strings(strings32);
        h.set_size_dt_strings(size_strings);
        proof {
            lemma_header_fields(h0);
            lemma_header_fields(h);
            assert(h.bytes() =~= header_bytes_with(
                body.subrange(0, 40),
                total32,
                strings32,
                size_strings,
                (size_struct + inc32) as u32,
            ));
        }
        h.write(&mut mem);
        self.dtb = mem;
        self.header = h;
    }
}

} // verus!

verus! {

/// A property found by `prop_walk` has its token, length and name offset
/// words inside the blob.
pub proof fn lemma_prop_walk_hit(data: Seq<u8>, off: int, str_off: int, name: Seq<u8>, co: int, end: int)
    ensures
        prop_walk(data, off, str_off, name, co, end) matches Some((t, l, n)) ==> co <= t <= usize::MAX
            && token_at(data, off, t) == Some(FDT_PROP) && token_at(data, off, t + 1) == Some(l)
            && token_at(data, off, t + 2) == Some(n),
    decreases walk_measure(co),
{
    if co < 0 || co > usize::MAX || co >= end {
    } else {
        match token_at(data, off, co) {
            None => {},
            Some(t) => {
                let co1 = co + 1;
                if t == FDT_PROP {
                    match token_at(data, off, co1) {
                        None => {},
                        Some(len) => match token_at(data, off, co1 + 1) {
                            None => {},
                            Some(no) => if cstr_bytes(data, str_off + no) != Some(name) {
                                lemma_prop_walk_hit(data, off, str_off, name, co1 + 2 + (len + 3) / 4, end);
                            },
                        },
                    }
                } else if t == FDT_BEGIN_NODE {
                    let co2 = co1 + name_words(data, off, co1);
                    lemma_skip_walk_advances(data, off, co2, 1);
                    lemma_prop_walk_hit(data, off, str_off, name, skip_walk(data, off, co2, 1), end);
                } else if t == FDT_NOP {
                    lemma_prop_walk_hit(data, off, str_off, name, co1, end);
                }
            },
        }
    }
}

impl DtbParser {
    /// The inputs on which `modify_property` runs to the end: wherever the
    /// property is found and the new value is longer than its padded old
    /// one, the rebuild fits (see `rebuild_fits`).
    pub open spec fn modify_fits(self, node_path: Seq<u8>, prop_name: Seq<u8>, value: Seq<u8>) -> bool {
        match self.spec_locate(node_path, prop_name) {
            Some((t, len, no)) => value.len() > padded_len(len) ==> rebuild_fits(
                self.data(),
                self.spec_header(),
                t,
                len,
                value,
            ),
            None => true,
        }
    }

    /// What `modify_property` does, from parser `self` to parser `after`
    /// with result `r`: an unknown node or property changes nothing and
    /// fails; a value that fits the old padded length is written in place
    /// and succeeds when its bytes fit in the blob; a longer value rebuilds
    /// the blob and succeeds. The walk position is kept.
    pub open spec fn modify_outcome(
        self,
        after: DtbParser,
        r: bool,
        node_path: Seq<u8>,
        prop_name: Seq<u8>,
        value: Seq<u8>,
    ) -> bool {
        &&& after.offset() == self.offset()
        &&& match self.spec_locate(node_path, prop_name) {
            None => !r && after.data() == self.data() && after.spec_header() == self.spec_header(),
            Some((t, len, no)) => if value.len() <= padded_len(len) {
                &&& r == (value_pos(self.struct_off(), t) + value.len() <= self.data().len())
                &&& after.data() == modified_in_place(self.data(), self.struct_off(), t, len, value)
                &&& after.spec_header() == self.spec_header()
            } else {
                &&& r
                &&& after.data() == spliced(
                    rebuilt_body(self.data(), self.spec_header(), t, len, no, value),
                    0,
                    rebuilt_header_bytes(self.data(), self.spec_header(), t, len, no, value),
                )
                &&& after.spec_header().bytes() == rebuilt_header_bytes(
                    self.data(),
                    self.spec_header(),
                    t,
                    len,
                    no,
                    value,
                )
            },
        }
    }

    /// Finds the property and where it is; the walk position is restored.
    fn locate(&mut self, node_path: &str, prop_name: &str) -> (r: Option<(usize, u32, u32)>)
        ensures
            final(self).data() == old(self).data(),
            final(self).spec_header() == old(self).spec_header(),
            final(self).offset() == old(self).offset(),
            match old(self).spec_locate(node_path.spec_bytes(), prop_name.spec_bytes()) {
                Some((t, l, n)) => r == Some((t as usize, l, n)) && value_pos(old(self).struct_off(), t)
                    <= old(self).data().len() && 0 <= t <= usize::MAX,
                None => r is None,
            },
    {
        let ghost data = self.dtb@;
        let ghost off = self.struct_off();
        let location = match self.find_node(node_path) {
            Some(l) => l,
            None => return None,
        };
        proof {
            lemma_find_walk_hit(data, off, trim_slashes(node_path.spec_bytes()), 0, 0, Seq::empty());
        }
        let saved = self.current_offset;
        let found = self.locate_property(&location, prop_name.as_bytes());
        proof {
            let s = location.start_offset as int;
            lemma_prop_walk_hit(
                data,
                off,
                self.strings_off(),
                prop_name.spec_bytes(),
                s + 1 + name_words(data, off, s + 1),
                location.end_offset as int,
            );
        }
        self.current_offset = saved;
        found
    }

    /// Replaces the value of property `prop_name` of the node at `node_path`
    /// with the bytes of `new_value`: in place when it fits the old padded
    /// length (zero-padded, length word updated), else by rebuilding a larger
    /// blob. Returns whether it succeeded; see `modify_outcome`.
    pub fn modify_property(&mut self, node_path: &str, prop_name: &str, new_value: &str) -> (r: bool)
        requires
            old(self).modify_fits(node_path.spec_bytes(), prop_name.spec_bytes(), new_value.spec_bytes()),
        ensures
            old(self).modify_outcome(
                *final(self),
                r,
                node_path.spec_bytes(),
                prop_name.spec_bytes(),
                new_value.spec_bytes(),
            ),
    {
        let found = self.locate(node_path, prop_name);
        self.modify_located(found, new_value.as_bytes())
    }

    /// Writes `value` into the property found at `found`.
    fn modify_located(&mut self, found: Option<(usize, u32, u32)>, value: &[u8]) -> (r: bool)
        requires
            found matches Some((t, len, no)) ==> value_pos(old(self).struct_off(), t as int)
                <= old(self).data().len() && (value@.len() > padded_len(len) ==> rebuild_fits(
                old(self).data(),
                old(self).spec_header(),
                t as int,
                len,
                value@,
            )),
        ensures
            final(self).offset() == old(self).offset(),
            match found {
                None => !r && final(self).data() == old(self).data() && final(self).spec_header()
                    == old(self).spec_header(),
                Some((t, len, no)) => if value@.len() <= padded_len(len) {
                    &&& r == (value_pos(old(self).struct_off(), t as int) + value@.len() <= old(
                        self,
                    ).data().len())
                    &&& final(self).data() == modified_in_place(
                        old(self).data(),
                        old(self).struct_off(),
                        t as int,
                        len,
                        value@,
                    )
                    &&& final(self).spec_header() == old(self).spec_header()
                } else {
                    &&& r
                    &&& final(self).data() == spliced(
                        rebuilt_body(old(self).data(), old(self).spec_header(), t as int, len, no, value@),
                        0,
                        rebuilt_header_bytes(
                            old(self).data(),
                            old(self).spec_header(),
                            t as int,
                            len,
                            no,
                            value@,
                        ),
                    )
                    &&& final(self).spec_header().bytes() == rebuilt_header_bytes(
                        old(self).data(),
                        old(self).spec_header(),
                        t as int,
                        len,
                        no,
                        value@,
                    )
                },
            },
    {
        match found {
            None => false,
            Some((t, len, no)) => {
                let old_bytes: u64 = words_for(len) as u64 * 4;
                if value.len() as u64 <= old_bytes {
                    self.write_in_place(t, len, value)
                } else {
                    self.rebuild_with_value(t, len, no, value);
                    true
                }
            },
        }
    }
}

} // verus!

verus! {

impl DtbParser {
    /// Whether the rebuild for a longer `value` at word `t` fits (see
    /// `rebuild_fits`).
    fn rebuild_fits_exec(&self, t: usize, len: u32, value: &[u8]) -> (r: bool)
        requires
            value@.len() > padded_len(len),
        ensures
            r == rebuild_fits(self.data(), self.spec_header(), t as int, len, value@),
    {
        let n = self.dtb.len() as u128;
        let so = self.header.off_dt_struct() as u128;
        let rsv = self.header.off_mem_rsvmap_val() as u128;
        let st = self.header.off_dt_strings() as u128;
        let ss = self.header.size_dt_struct() as u128;
        let sst = self.header.size_dt_strings() as u128;
        let pos = so + (t as u128 + 3) * 4;
        let ob = words_for(len) as u128 * 4;
        let vlen = value.len() as u128;
        let nb = (vlen + 3) / 4 * 4;
        let inc = nb - ob;
        let total = self.header.totalsize() as u128 + inc;
        let inc32: u32 = #[verifier::truncate] (inc as u32);
        40 <= n && rsv <= so && pos + ob <= so + ss && so + ss <= n && st + sst <= n && 40 <= total
            && total <= isize::MAX as u128 && ss + inc32 as u128 <= u32::MAX as u128 && pos + nb
            <= usize::MAX as u128 && st + inc <= usize::MAX as u128
    }

    /// `modify_property` on the inputs where it runs to the end (see
    /// `modify_fits`); `None`, with nothing changed, on the others.
    pub fn try_modify_property(&mut self, node_path: &str, prop_name: &str, new_value: &str) -> (r: Option<bool>)
        ensures
            r is None <==> !old(self).modify_fits(
                node_path.spec_bytes(),
                prop_name.spec_bytes(),
                new_value.spec_bytes(),
            ),
            r is None ==> final(self).data() == old(self).data() && final(self).spec_header() == old(
                self,
            ).spec_header() && final(self).offset() == old(self).offset(),
            r matches Some(ok) ==> old(self).modify_outcome(
                *final(self),
                ok,
                node_path.spec_bytes(),
                prop_name.spec_bytes(),
                new_value.spec_bytes(),
            ),
    {
        let found = self.locate(node_path, prop_name);
        let value = new_value.as_bytes();
        if let Some((t, len, _)) = found {
            if value.len() as u64 > words_for(len) as u64 * 4 && !self.rebuild_fits_exec(t, len, value) {
                return None;
            }
        }
        Some(self.modify_located(found, value))
    }
}

} // verus!

verus! {

/// The value bytes of a property of `len` bytes whose token is at word `t`:
/// empty when they do not lie inside the blob.
pub open spec fn value_bytes(data: Seq<u8>, off: int, t: int, len: u32) -> Seq<u8> {
    let pos = value_pos(off, t);
    if pos + len <= data.len() {
        data.subrange(pos, pos + len)
    } else {
        Seq::empty()
    }
}

impl DtbParser {
    /// Reads the value of property `prop_name` of the node at `node_path`:
    /// `None` when the node or the property is not found. The walk position
    /// is kept.
    pub fn read_property_value(&mut self, node_path: &str, prop_name: &str) -> (r: Option<Vec<u8>>)
        ensures
            final(self).data() == old(self).data(),
            final(self).spec_header() == old(self).spec_header(),
            final(self).offset() == old(self).offset(),
            match old(self).spec_locate(node_path.spec_bytes(), prop_name.spec_bytes()) {
                Some((t, len, no)) => r is Some && r->Some_0@ == value_bytes(
                    old(self).data(),
                    old(self).struct_off(),
                    t,
                    len,
                ),
                None => r is None,
            },
    {
        let found = self.locate(node_path, prop_name);
        match found {
            None => None,
            Some((t, len, _)) => {
                let _ = self.dtb.len();
                let pos = self.header.off_dt_struct() as usize + t * 4 + 12;
                let mut out: Vec<u8> = Vec::new();
                match self.dtb.read_bytes(pos, len as usize) {
                    Some(b) => append_bytes(&mut out, b),
                    None => {},
                }
                assert(out@ =~= value_bytes(self.data(), self.struct_off(), t as int, len));
                Some(out)
            },
        }
    }
}

/// How a property value is shown: nothing, text, or raw bytes (with their
/// big-endian words when the length is a multiple of four).
pub enum PropValue {
    /// An empty value.
    Empty,
    /// Printable ASCII text (NULs allowed), trailing NULs removed.
    Text(Vec<u8>),
    /// Any other value.
    Raw {
        /// The bytes.
        bytes: Vec<u8>,
        /// The big-endian words, when the length is a multiple of four.
        words: Option<Vec<u32>>,
    },
}

/// A byte shown as text: printable ASCII, a space, or NUL.
pub open spec fn shows_as_text(b: u8) -> bool {
    b == 0 || (0x20 <= b && b <= 0x7e)
}

/// `b` without its trailing NUL bytes.
pub open spec fn trim_trailing_nuls(b: Seq<u8>) -> Seq<u8>
    decreases b.len(),
{
    if b.len() > 0 && b.last() == 0 {
        trim_trailing_nuls(b.drop_last())
    } else {
        b
    }
}

/// The big-endian words of `b`, whose length is a multiple of four.
pub open spec fn be_words(b: Seq<u8>) -> Seq<u32> {
    Seq::new(b.len() / 4, |i: int| be_u32_at(b, 4 * i))
}

/// Decides how a property value is shown: empty; text when every byte is
/// printable ASCII, a space or NUL (trailing NULs dropped); else the raw
/// bytes, with their big-endian words when the length is a multiple of four.
pub fn classify_value(data: &[u8]) -> (r: PropValue)
    ensures
        data@.len() == 0 ==> r is Empty,
        data@.len() > 0 && (forall|i: int| 0 <= i < data@.len() ==> shows_as_text(#[trigger] data@[i]))
            ==> r is Text && r->Text_0@ == trim_trailing_nuls(data@),
        data@.len() > 0 && !(forall|i: int| 0 <= i < data@.len() ==> shows_as_text(#[trigger] data@[i]))
            ==> (r matches PropValue::Raw { bytes, words } && bytes@ == data@ && (data@.len() % 4 == 0
            ==> words is Some && words->Some_0@ == be_words(data@)) && (data@.len() % 4 != 0
            ==> words is None)),
{
    let n = data.len();
    if n == 0 {
        return PropValue::Empty;
    }
    let mut text = true;
    let mut i: usize = 0;
    while i < n
        invariant
            i <= n,
            n == data@.len(),
            text == (forall|k: int| 0 <= k < i ==> shows_as_text(#[trigger] data@[k])),
        decreases n - i,
    {
        let b = data[i];
        if !(b == 0 || (0x20 <= b && b <= 0x7e)) {
            text = false;
        }
        i += 1;
    }
    if text {
        let mut end = n;
        assert(data@.subrange(0, n as int) =~= data@);
        while end > 0 && data[end - 1] == 0
            invariant
                end <= n,
                n == data@.len(),
                trim_trailing_nuls(data@) == trim_trailing_nuls(data@.subrange(0, end as int)),
            decreases end,
        {
            assert(data@.subrange(0, end as int).drop_last() =~= data@.subrange(0, end - 1));
            end -= 1;
        }
        let mut t: Vec<u8> = Vec::new();
        append_bytes(&mut t, &data[0..end]);
        assert(data@.subrange(0, n as int) =~= data@);
        return PropValue::Text(t);
    }
    let mut bytes: Vec<u8> = Vec::new();
    append_bytes(&mut bytes, data);
    let words = if n % 4 == 0 {
        let mut w: Vec<u32> = Vec::new();
        let mut j: usize = 0;
        while j < n / 4
            invariant
                j <= n / 4,
                n == data@.len(),
                n % 4 == 0,
                w@.len() == j,
                forall|k: int| 0 <= k < j ==> #[trigger] w@[k] == be_u32_at(data@, 4 * k),
            decreases n / 4 - j,
        {
            let v = u32_from_be([data[4 * j], data[4 * j + 1], data[4 * j + 2], data[4 * j + 3]]);
            w.push(v);
            j += 1;
        }
        assert(w@ =~= be_words(data@));
        Some(w)
    } else {
        None
    };
    PropValue::Raw { bytes, words }
}

} // verus!

verus! {

/// One line of a structure dump, as a value.
pub enum DumpItem {
    /// The root node.
    Root,
    /// A node, at its nesting depth, with its name and full path.
    Node { depth: int, name: Seq<u8>, path: Seq<u8> },
    /// A property, at the depth of its node, with its name (absent when it
    /// cannot be read as text) as `key` and its value bytes.
    Property { depth: int, key: Option<Seq<u8>>, value: Seq<u8> },
    /// The end of the structure block.
    End,
}

/// One line of a structure dump.
pub enum DumpLine {
    /// The root node.
    Root,
    /// A node, at its nesting depth, with its name and full path.
    Node { depth: usize, name: Vec<u8>, path: Vec<u8> },
    /// A property, at the depth of its node, with its name (absent when it
    /// cannot be read as text) as `key` and its value bytes.
    Property { depth: usize, key: Option<Vec<u8>>, value: Vec<u8> },
    /// The end of the structure block.
    End,
}

impl View for DumpLine {
    type V = DumpItem;

    open spec fn view(&self) -> DumpItem {
        match self {
            DumpLine::Root => DumpItem::Root,
            DumpLine::Node { depth, name, path } => DumpItem::Node {
                depth: *depth as int,
                name: name@,
                path: path@,
            },
            DumpLine::Property { depth, key, value } => DumpItem::Property {
                depth: *depth as int,
                key: match key {
                    Some(n) => Some(n@),
                    None => None,
                },
                value: value@,
            },
            DumpLine::End => DumpItem::End,
        }
    }
}

/// Views of dump lines.
pub open spec fn dump_views(lines: Seq<DumpLine>) -> Seq<DumpItem> {
    lines.map_values(|l: DumpLine| l@)
}

/// The name of the property whose name offset is `no`: the string found in
/// the strings block at `str_off`, when it is valid UTF-8.
pub open spec fn prop_name_at(data: Seq<u8>, str_off: int, no: u32) -> Option<Seq<u8>> {
    match cstr_bytes(data, str_off + no) {
        Some(b) => if vstd::utf8::valid_utf8(b) {
            Some(b)
        } else {
            None
        },
        None => None,
    }
}

/// Walk of the structure block that a dump makes from word offset `co`, at
/// nesting `depth`, below the path segments `segs`: the lines it produces
/// and the word offset where it stops.
pub open spec fn dump_walk(
    data: Seq<u8>,
    off: int,
    str_off: int,
    co: int,
    depth: int,
    segs: Seq<Seq<u8>>,
) -> (Seq<DumpItem>, int)
    decreases walk_measure(co),
{
    if co < 0 || co > usize::MAX {
        (Seq::empty(), co)
    } else {
        match token_at(data, off, co) {
            None => (Seq::empty(), co),
            Some(t) => {
                let co1 = co + 1;
                if t == FDT_BEGIN_NODE {
                    let name = utf8_lossy(name_bytes_at(data, off, co1));
                    let co2 = co1 + name_words(data, off, co1);
                    if depth == 0 && name.len() == 0 {
                        let rest = dump_walk(data, off, str_off, co2, depth + 1, segs);
                        (seq![DumpItem::Root] + rest.0, rest.1)
                    } else {
                        let segs2 = segs.push(name);
                        let rest = dump_walk(data, off, str_off, co2, depth + 1, segs2);
                        (
                            seq![DumpItem::Node { depth, name, path: seq![SLASH] + join_path(segs2) }]
                                + rest.0,
                            rest.1,
                        )
                    }
                } else if t == FDT_END_NODE {
                    let d = depth - 1;
                    let segs2 = if d > 0 && segs.len() > 0 {
                        segs.drop_last()
                    } else {
                        segs
                    };
                    dump_walk(data, off, str_off, co1, d, segs2)
                } else if t == FDT_PROP {
                    match token_at(data, off, co1) {
                        None => (Seq::empty(), co1),
                        Some(len) => match token_at(data, off, co1 + 1) {
                            None => (Seq::empty(), co1 + 1),
                            Some(no) => {
                                let rest = dump_walk(
                                    data,
                                    off,
                                    str_off,
                                    co1 + 2 + (len + 3) / 4,
                                    depth,
                                    segs,
                                );
                                (
                                    seq![
                                        DumpItem::Property {
                                            depth,
                                            key: prop_name_at(data, str_off, no),
                                            value: value_bytes(data, off, co, len),
                                        },
                                    ] + rest.0,
                                    rest.1,
                                )
                            },
                        },
                    }
                } else if t == FDT_END {
                    (seq![DumpItem::End], co1)
                } else if t == FDT_NOP {
                    dump_walk(data, off, str_off, co1, depth, segs)
                } else {
                    (Seq::empty(), co1)
                }
            },
        }
    }
}

/// Whether a dump from word offset `co` at nesting `depth` never meets an
/// end-node token at depth zero.
pub open spec fn dump_depth_ok(data: Seq<u8>, off: int, co: int, depth: int) -> bool
    decreases walk_measure(co),
{
    if co < 0 || co > usize::MAX {
        true
    } else {
        match token_at(data, off, co) {
            None => true,
            Some(t) => {
                let co1 = co + 1;
                if t == FDT_BEGIN_NODE {
                    dump_depth_ok(data, off, co1 + name_words(data, off, co1), depth + 1)
                } else if t == FDT_END_NODE {
                    depth > 0 && dump_depth_ok(data, off, co1, depth - 1)
                } else if t == FDT_PROP {
                    match token_at(data, off, co1) {
                        None => true,
                        Some(len) => match token_at(data, off, co1 + 1) {
                            None => true,
                            Some(_) => dump_depth_ok(data, off, co1 + 2 + (len + 3) / 4, depth),
                        },
                    }
                } else if t == FDT_NOP {
                    dump_depth_ok(data, off, co1, depth)
                } else {
                    true
                }
            },
        }
    }
}

} // verus!

verus! {

/// The dump state after a step, against the one before it: the lines so far
/// followed by what the walk still produces are unchanged, and so is where
/// it stops.
pub open spec fn dump_step_keeps(
    data: Seq<u8>,
    off: int,
    str_off: int,
    lines0: Seq<DumpItem>,
    co0: int,
    depth0: int,
    segs0: Seq<Seq<u8>>,
    lines1: Seq<DumpItem>,
    co1: int,
    depth1: int,
    segs1: Seq<Seq<u8>>,
) -> bool {
    &&& lines1 + dump_walk(data, off, str_off, co1, depth1, segs1).0 == lines0 + dump_walk(
        data,
        off,
        str_off,
        co0,
        depth0,
        segs0,
    ).0
    &&& dump_walk(data, off, str_off, co1, depth1, segs1).1 == dump_walk(
        data,
        off,
        str_off,
        co0,
        depth0,
        segs0,
    ).1
}

impl DtbParser {
    /// One step of a dump: handles the token at the walk position. Returns
    /// whether the walk goes on; when it stops, the lines are complete.
    #[verifier::rlimit(40)]
    #[verifier::spinoff_prover]
    fn dump_step(&mut self, depth: &mut usize, segs: &mut Vec<Vec<u8>>, lines: &mut Vec<DumpLine>) -> (go_on: bool)
        requires
            dump_depth_ok(old(self).data(), old(self).struct_off(), old(self).offset() as int, *old(depth) as int),
            *old(depth) <= old(self).offset(),
        ensures
            final(self).data() == old(self).data(),
            final(self).spec_header() == old(self).spec_header(),
            go_on ==> dump_step_keeps(
                old(self).data(),
                old(self).struct_off(),
                old(self).strings_off(),
                dump_views(old(lines)@),
                old(self).offset() as int,
                *old(depth) as int,
                views(old(segs)@),
                dump_views(final(lines)@),
                final(self).offset() as int,
                *final(depth) as int,
                views(final(segs)@),
            ) && dump_depth_ok(final(self).data(), final(self).struct_off(), final(self).offset() as int, *final(depth) as int)
                && *final(depth) <= final(self).offset() && final(self).offset() > old(self).offset(),
            !go_on ==> {
                let w = dump_walk(
                    old(self).data(),
                    old(self).struct_off(),
                    old(self).strings_off(),
                    old(self).offset() as int,
                    *old(depth) as int,
                    views(old(segs)@),
                );
                dump_views(final(lines)@) == dump_views(old(lines)@) + w.0 && final(self).offset() == w.1
            },
    {
        let ghost data = self.dtb@;
        let ghost off = self.struct_off();
        let ghost str_off = self.strings_off();
        let _ = self.dtb.len();
        let co_exec = self.current_offset;
        let ghost co = co_exec as int;
        let ghost before = dump_views(lines@);
        let ghost segs_before = views(segs@);
        let token = match self.next_token() {
            Some(t) => t,
            None => {
                assert(before + Seq::<DumpItem>::empty() =~= before);
                return false;
            },
        };
        if token == FDT_BEGIN_NODE {
            let name = self.read_node_name();
            if *depth == 0 && name.len() == 0 {
                lines.push(DumpLine::Root);
                assert(dump_views(lines@) =~= before.push(DumpItem::Root));
            } else {
                let line_name = name.clone();
                segs.push(name);
                assert(views(segs@) =~= segs_before.push(line_name@));
                let joined = join_segments(segs);
                let mut path: Vec<u8> = Vec::new();
                path.push(SLASH);
                append_bytes(&mut path, joined.as_slice());
                let line = DumpLine::Node { depth: *depth, name: line_name, path };
                lines.push(line);
                assert(dump_views(lines@) =~= before.push(line@));
            }
            *depth = *depth + 1;
            proof {
                let rest = dump_walk(data, off, str_off, self.current_offset as int, *depth as int, views(segs@));
                assert(dump_views(lines@) + rest.0 =~= before + dump_walk(
                    data,
                    off,
                    str_off,
                    co,
                    *old(depth) as int,
                    segs_before,
                ).0);
            }
            true
        } else if token == FDT_END_NODE {
            *depth = *depth - 1;
            if *depth > 0 && segs.len() > 0 {
                segs.pop();
                assert(views(segs@) =~= segs_before.drop_last());
            }
            true
        } else if token == FDT_PROP {
            let len = match self.next_token() {
                Some(l) => l,
                None => {
                    assert(before + Seq::<DumpItem>::empty() =~= before);
                    return false;
                },
            };
            let nameoff = match self.next_token() {
                Some(n) => n,
                None => {
                    assert(before + Seq::<DumpItem>::empty() =~= before);
                    return false;
                },
            };
            let name_at = self.header.off_dt_strings() as u64 + nameoff as u64;
            let key: Option<Vec<u8>> = if name_at <= usize::MAX as u64 {
                match self.dtb.read_str(name_at as usize) {
                    Some(s) => {
                        let mut v: Vec<u8> = Vec::new();
                        append_bytes(&mut v, s.as_bytes());
                        Some(v)
                    },
                    None => None,
                }
            } else {
                assert(cstr_len(data, str_off + nameoff, 0) is None);
                None
            };
            let pos = self.header.off_dt_struct() as usize + co_exec * 4 + 12;
            let mut value: Vec<u8> = Vec::new();
            match self.dtb.read_bytes(pos, len as usize) {
                Some(b) => append_bytes(&mut value, b),
                None => {},
            }
            assert(value@ =~= value_bytes(data, off, co, len));
            let line = DumpLine::Property { depth: *depth, key, value };
            lines.push(line);
            assert(dump_views(lines@) =~= before.push(line@));
            assert(usize::MAX >= 0xffff_ffff);
            self.current_offset = self.current_offset + words_for(len);
            proof {
                let rest = dump_walk(data, off, str_off, self.current_offset as int, *depth as int, views(segs@));
                assert(dump_views(lines@) + rest.0 =~= before + dump_walk(
                    data,
                    off,
                    str_off,
                    co,
                    *old(depth) as int,
                    segs_before,
                ).0);
            }
            true
        } else if token == FDT_END {
            lines.push(DumpLine::End);
            assert(dump_views(lines@) =~= before + seq![DumpItem::End]);
            false
        } else if token == FDT_NOP {
            true
        } else {
            assert(before + Seq::<DumpItem>::empty() =~= before);
            false
        }
    }

    /// Walks the whole structure block from its start and lists what a dump
    /// shows: the root, each node with its depth, name and path, each
    /// property with its name and value, and the end of the structure. A
    /// malformed word ends the list. The walk position is left where the
    /// walk stopped.
    pub fn dump_all(&mut self) -> (r: Vec<DumpLine>)
        requires
            dump_depth_ok(old(self).data(), old(self).struct_off(), 0, 0),
        ensures
            final(self).data() == old(self).data(),
            final(self).spec_header() == old(self).spec_header(),
            ({
                let w = dump_walk(
                    old(self).data(),
                    old(self).struct_off(),
                    old(self).strings_off(),
                    0,
                    0,
                    Seq::empty(),
                );
                dump_views(r@) == w.0 && final(self).offset() == w.1
            }),
    {
        let ghost data = self.dtb@;
        let ghost hdr = self.header;
        let ghost off = self.struct_off();
        let ghost str_off = self.strings_off();
        self.current_offset = 0;
        let mut segs: Vec<Vec<u8>> = Vec::new();
        let mut depth: usize = 0;
        let mut lines: Vec<DumpLine> = Vec::new();
        assert(views(segs@) =~= Seq::<Seq<u8>>::empty());
        assert(dump_views(lines@) =~= Seq::<DumpItem>::empty());
        assert(dump_views(lines@) + dump_walk(data, off, str_off, 0, 0, Seq::empty()).0 =~= dump_walk(
            data,
            off,
            str_off,
            0,
            0,
            Seq::empty(),
        ).0);
        loop
            invariant_except_break
                dump_views(lines@) + dump_walk(data, off, str_off, self.current_offset as int, depth as int, views(segs@)).0
                    == dump_walk(data, off, str_off, 0, 0, Seq::empty()).0,
                dump_walk(data, off, str_off, self.current_offset as int, depth as int, views(segs@)).1
                    == dump_walk(data, off, str_off, 0, 0, Seq::empty()).1,
                dump_depth_ok(data, off, self.current_offset as int, depth as int),
                depth <= self.current_offset,
            invariant
                self.dtb@ == data,
                self.header == hdr,
                off == be_word(hdr.off_dt_struct) as int,
                str_off == be_word(hdr.off_dt_strings) as int,
            ensures
                self.dtb@ == data,
                self.header == hdr,
                dump_views(lines@) == dump_walk(data, off, str_off, 0, 0, Seq::empty()).0,
                self.current_offset == dump_walk(data, off, str_off, 0, 0, Seq::empty()).1,
            decreases usize::MAX - self.current_offset,
        {
            let ghost l0 = dump_views(lines@);
            if !self.dump_step(&mut depth, &mut segs, &mut lines) {
                assert(dump_views(lines@) =~= dump_walk(data, off, str_off, 0, 0, Seq::empty()).0);
                break;
            }
        }
        lines
    }
}

} // verus!

verus! {

impl DtbParser {
    /// Takes a copy of a device tree blob: `image` holds at least the bytes
    /// of the blob. `None` when the image is shorter than a header, the magic
    /// number is wrong, the total size is smaller than a header, or the image
    /// is shorter than the total size; otherwise the parser holds the first
    /// total-size bytes, starts its walk at the beginning, and works with the
    /// header read from them.
    pub fn new(image: Vec<u8>) -> (r: Option<Self>)
        ensures
            r is Some <==> (image@.len() >= FDT_HEADER_SIZE && be_u32_at(image@, 0) == FDT_MAGIC
                && FDT_HEADER_SIZE <= be_u32_at(image@, 4) <= image@.len()),
            r matches Some(p) ==> p.data() == image@.subrange(0, be_u32_at(image@, 4) as int)
                && p.spec_header().bytes() == image@.subrange(0, FDT_HEADER_SIZE as int)
                && p.offset() == 0,
    {
        let mem = DtbMemory::new(image);
        let header = match FdtHeader::read(&mem) {
            Some(h) => h,
            None => return None,
        };
        proof {
            let b = mem@.subrange(0, 40);
            assert(header.magic@ =~= b.subrange(0, 4));
            assert(header.totalsize@ =~= b.subrange(4, 8));
        }
        if header.magic() != FDT_MAGIC {
            return None;
        }
        let total = header.totalsize() as usize;
        if total < FDT_HEADER_SIZE {
            return None;
        }
        let data = match mem.read_bytes(0, total) {
            Some(b) => b,
            None => return None,
        };
        let mut copy: Vec<u8> = Vec::new();
        append_bytes(&mut copy, data);
        assert(copy@.subrange(0, 40) =~= mem@.subrange(0, 40));
        Some(DtbParser { dtb: DtbMemory::new(copy), header, current_offset: 0 })
    }
}

} // verus!

verus! {

/// Stripping leading slashes twice strips nothing more.
proof fn lemma_strip_leading_idempotent(p: Seq<u8>)
    ensures
        strip_leading_slashes(strip_leading_slashes(p)) == strip_leading_slashes(p),
        strip_leading_slashes(p).len() == 0 || strip_leading_slashes(p)[0] != SLASH,
    decreases p.len(),
{
    if p.len() > 0 && p[0] == SLASH {
        lemma_strip_leading_idempotent(p.drop_first());
    }
}

/// Stripping trailing slashes twice strips nothing more, and keeps a first
/// byte that is no slash.
proof fn lemma_strip_trailing(p: Seq<u8>)
    ensures
        strip_trailing_slashes(strip_trailing_slashes(p)) == strip_trailing_slashes(p),
        p.len() > 0 && p[0] != SLASH ==> strip_trailing_slashes(p).len() > 0 && strip_trailing_slashes(
            p,
        )[0] == p[0],
        p.len() == 0 ==> strip_trailing_slashes(p).len() == 0,
        strip_trailing_slashes(p).len() == 0 || strip_trailing_slashes(p).last() != SLASH,
    decreases p.len(),
{
    if p.len() > 0 && p.last() == SLASH {
        lemma_strip_trailing(p.drop_last());
    }
}

/// A path finds the same node whatever slashes lead or trail it: trimming a
/// trimmed path changes nothing.
pub proof fn lemma_trim_slashes_idempotent(p: Seq<u8>)
    ensures
        trim_slashes(trim_slashes(p)) == trim_slashes(p),
{
    let q = strip_leading_slashes(p);
    lemma_strip_leading_idempotent(p);
    lemma_strip_trailing(q);
    let t = strip_trailing_slashes(q);
    assert(strip_leading_slashes(t) == t);
    lemma_strip_trailing(t);
}

/// Finding a node by a path or by the path trimmed of its slashes gives the
/// same node.
pub proof fn lemma_find_ignores_outer_slashes(parser: DtbParser, p: Seq<u8>)
    ensures
        parser.spec_find(trim_slashes(p)) == parser.spec_find(p),
{
    lemma_trim_slashes_idempotent(p);
}

} // verus!

verus! {

impl DtbParser {
    /// Whether a dump of the whole structure block never meets an end-node
    /// token at depth zero (see `dump_depth_ok`); the walk position is kept.
    pub fn dump_balanced(&mut self) -> (r: bool)
        ensures
            r == dump_depth_ok(old(self).data(), old(self).struct_off(), 0, 0),
            final(self).data() == old(self).data(),
            final(self).spec_header() == old(self).spec_header(),
            final(self).offset() == old(self).offset(),
    {
        let ghost data = self.dtb@;
        let ghost hdr = self.header;
        let ghost off = self.struct_off();
        let _ = self.dtb.len();
        let saved = self.current_offset;
        self.current_offset = 0;
        let mut depth: usize = 0;
        let mut ok = true;
        loop
            invariant_except_break
                dump_depth_ok(data, off, self.current_offset as int, depth as int) == dump_depth_ok(
                    data,
                    off,
                    0,
                    0,
                ),
                depth <= self.current_offset,
                ok,
            invariant
                data.len() <= usize::MAX,
                self.dtb@ == data,
                self.header == hdr,
                old(self).dtb@ == data,
                old(self).header == hdr,
                saved == old(self).current_offset,
                off == be_word(hdr.off_dt_struct) as int,
            ensures
                self.dtb@ == data,
                self.header == hdr,
                ok == dump_depth_ok(data, off, 0, 0),
            decreases usize::MAX - self.current_offset,
        {
            let token = match self.next_token() {
                Some(t) => t,
                None => break,
            };
            if token == FDT_BEGIN_NODE {
                let _ = self.read_node_name();
                depth += 1;
            } else if token == FDT_END_NODE {
                if depth == 0 {
                    ok = false;
                    break;
                }
                depth -= 1;
            } else if token == FDT_PROP {
                let len = match self.next_token() {
                    Some(l) => l,
                    None => break,
                };
                match self.next_token() {
                    Some(_) => {},
                    None => break,
                }
                assert(usize::MAX >= 0xffff_ffff);
                self.current_offset = self.current_offset + words_for(len);
            } else if token == FDT_NOP {
            } else {
                break;
            }
        }
        self.current_offset = saved;
        ok
    }

    /// The dump of the whole structure block (see `dump_all`), when the walk
    /// never meets an end-node token at depth zero; `None`, with the parser
    /// unchanged, otherwise.
    pub fn try_dump_all(&mut self) -> (r: Option<Vec<DumpLine>>)
        ensures
            final(self).data() == old(self).data(),
            final(self).spec_header() == old(self).spec_header(),
            r is None <==> !dump_depth_ok(old(self).data(), old(self).struct_off(), 0, 0),
            r is None ==> final(self).offset() == old(self).offset(),
            r matches Some(lines) ==> ({
                let w = dump_walk(
                    old(self).data(),
                    old(self).struct_off(),
                    old(self).strings_off(),
                    0,
                    0,
                    Seq::empty(),
                );
                dump_views(lines@) == w.0 && final(self).offset() == w.1
            }),
    {
        if !self.dump_balanced() {
            return None;
        }
        Some(self.dump_all())
    }
}

} // verus!
