//! Reading files out of a `newc` cpio archive held in memory (the ramdisk).
use crate::dtb::str_from_utf8;
use vstd::prelude::*;
use vstd::string::StringSliceAdditionalSpecFns;

verus! {

/// Size of a `newc` entry header.
pub const CPIO_HEADER_SIZE: usize = 110;

/// The magic number `070701` that starts every `newc` header.
pub open spec fn magic_bytes() -> Seq<u8> {
    seq![0x30u8, 0x37u8, 0x30u8, 0x37u8, 0x30u8, 0x31u8]
}

/// The name of the entry that ends an archive, `TRAILER!!!`.
pub open spec fn trailer_name() -> Seq<u8> {
    seq![0x54u8, 0x52u8, 0x41u8, 0x49u8, 0x4cu8, 0x45u8, 0x52u8, 0x21u8, 0x21u8, 0x21u8]
}

/// The text that stands for a name or file that is not valid UTF-8,
/// `<invalid utf8>`.
pub open spec fn invalid_utf8_text() -> Seq<u8> {
    seq![
        0x3cu8, 0x69u8, 0x6eu8, 0x76u8, 0x61u8, 0x6cu8, 0x69u8, 0x64u8, 0x20u8, 0x75u8, 0x74u8,
        0x66u8, 0x38u8, 0x3eu8,
    ]
}

/// Value of an ASCII hexadecimal digit.
pub open spec fn hex_digit(b: u8) -> Option<int> {
    if 0x30 <= b && b <= 0x39 {
        Some(b - 0x30)
    } else if 0x61 <= b && b <= 0x66 {
        Some(b - 0x61 + 10)
    } else if 0x41 <= b && b <= 0x46 {
        Some(b - 0x41 + 10)
    } else {
        None
    }
}

/// Whether every byte is a hexadecimal digit.
pub open spec fn all_hex(d: Seq<u8>) -> bool {
    forall|i: int| 0 <= i < d.len() ==> #[trigger] hex_digit(d[i]) is Some
}

/// Value of a string of hexadecimal digits.
pub open spec fn hex_value(d: Seq<u8>) -> int
    decreases d.len(),
{
    if d.len() == 0 {
        0
    } else {
        hex_value(d.drop_last()) * 16 + hex_digit(d.last())->Some_0
    }
}

/// Value of a header field read as hexadecimal text, as
/// `usize::from_str_radix(_, 16)` reads it (an optional `+`, then at least
/// one digit, the value fitting in `usize`), and zero when it does not read.
pub open spec fn hex_field(f: Seq<u8>) -> usize {
    let d = if f.len() > 0 && f[0] == 0x2b {
        f.drop_first()
    } else {
        f
    };
    if d.len() > 0 && all_hex(d) && hex_value(d) <= usize::MAX {
        hex_value(d) as usize
    } else {
        0
    }
}

/// `x` rounded up to a multiple of four.
pub open spec fn align4(x: int) -> int {
    (x + 3) / 4 * 4
}

/// How a name or file is shown: its bytes when they are valid UTF-8, the
/// text `<invalid utf8>` otherwise.
pub open spec fn shown_text(b: Seq<u8>) -> Seq<u8> {
    if vstd::utf8::valid_utf8(b) {
        b
    } else {
        invalid_utf8_text()
    }
}

/// The entries of the archive from the header at `pos` on, each as its name
/// (see `shown_text`), file size and data offset. The list ends at a header
/// that does not fit or lacks the magic number, at a name size of zero or a
/// name that does not fit, at the trailer entry, and after an entry whose
/// data reaches past the end.
pub open spec fn cpio_walk(a: Seq<u8>, pos: int) -> Seq<(Seq<u8>, int, int)>
    decreases a.len() - pos,
{
    if pos < 0 || pos + CPIO_HEADER_SIZE > a.len() || a.subrange(pos, pos + 6) != magic_bytes() {
        Seq::empty()
    } else {
        let ns = hex_field(a.subrange(pos + 94, pos + 102)) as int;
        let fs = hex_field(a.subrange(pos + 54, pos + 62)) as int;
        let np = pos + CPIO_HEADER_SIZE;
        if ns == 0 || np + ns - 1 > a.len() {
            Seq::empty()
        } else {
            let name = shown_text(a.subrange(np, np + ns - 1));
            if name == trailer_name() {
                Seq::empty()
            } else {
                let start = align4(np + ns);
                let next = align4(start + fs);
                if next > a.len() {
                    seq![(name, fs, start)]
                } else {
                    seq![(name, fs, start)] + cpio_walk(a, next)
                }
            }
        }
    }
}

/// The first entry named `key`.
pub open spec fn first_named(es: Seq<(Seq<u8>, int, int)>, key: Seq<u8>) -> Option<(Seq<u8>, int, int)>
    decreases es.len(),
{
    if es.len() == 0 {
        None
    } else if es[0].0 == key {
        Some(es[0])
    } else {
        first_named(es.drop_first(), key)
    }
}

/// The name a path looks up: the path without one leading `/`.
pub open spec fn lookup_key(path: Seq<u8>) -> Seq<u8> {
    if path.len() > 0 && path[0] == 0x2f {
        path.drop_first()
    } else {
        path
    }
}

/// Reads a header field as hexadecimal text (see `hex_field`).
pub fn parse_hex_field(field: &[u8]) -> (r: usize)
    ensures
        r == hex_field(field@),
{
    let n = field.len();
    let mut first: usize = 0;
    if n > 0 && field[0] == 0x2b {
        first = 1;
    }
    let ghost d = if field@.len() > 0 && field@[0] == 0x2b {
        field@.drop_first()
    } else {
        field@
    };
    assert(d =~= field@.subrange(first as int, n as int));
    if first == n {
        return 0;
    }
    let mut acc: usize = 0;
    let mut valid = true;
    let mut overflow = false;
    let mut i = first;
    assert(d.subrange(0, 0) =~= Seq::<u8>::empty());
    while i < n
        invariant
            first <= i <= n,
            n == field@.len(),
            d == field@.subrange(first as int, n as int),
            valid == all_hex(d.subrange(0, i - first)),
            valid && !overflow ==> acc == hex_value(d.subrange(0, i - first)),
            valid && overflow ==> hex_value(d.subrange(0, i - first)) > usize::MAX,
        decreases n - i,
    {
        let b = field[i];
        let ghost pre = d.subrange(0, i - first);
        let ghost next = d.subrange(0, i + 1 - first);
        assert(next.drop_last() =~= pre);
        assert(next.last() == b);
        let dv: usize = if 0x30 <= b && b <= 0x39 {
            (b - 0x30) as usize
        } else if 0x61 <= b && b <= 0x66 {
            (b - 0x61 + 10) as usize
        } else if 0x41 <= b && b <= 0x46 {
            (b - 0x41 + 10) as usize
        } else {
            16
        };
        if dv == 16 {
            assert(!all_hex(next)) by {
                assert(hex_digit(next[i - first]) is None);
            }
            valid = false;
        } else if valid {
            assert(all_hex(next)) by {
                assert forall|k: int| 0 <= k < next.len() implies #[trigger] hex_digit(next[k]) is Some by {
                    if k < pre.len() {
                        assert(next[k] == pre[k]);
                    }
                }
            }
            if !overflow {
                if acc > (usize::MAX - dv) / 16 {
                    assert(acc * 16 + dv > usize::MAX) by (nonlinear_arith)
                        requires
                            acc > (usize::MAX - dv) / 16,
                            dv < 16,
                    ;
                    overflow = true;
                } else {
                    assert(acc * 16 + dv <= usize::MAX) by (nonlinear_arith)
                        requires
                            acc <= (usize::MAX - dv) / 16,
                            dv < 16,
                    ;
                    acc = acc * 16 + dv;
                }
            }
        } else {
            assert(!all_hex(next)) by {
                let k = choose|k: int| 0 <= k < pre.len() && !(#[trigger] hex_digit(pre[k]) is Some);
                assert(next[k] == pre[k]);
            }
        }
        i += 1;
    }
    assert(d.subrange(0, n - first) =~= d);
    if valid && !overflow {
        acc
    } else {
        0
    }
}

} // verus!

verus! {

/// Rounds `addr` up to a multiple of `align`, a power of two.
pub fn align_up(addr: usize, align: usize) -> (r: usize)
    requires
        align == 4,
        addr + 3 <= usize::MAX,
    ensures
        r == align4(addr as int),
{
    let s = addr + 3;
    let r = s & !3usize;
    assert(s & !3usize == s / 4 * 4) by (bit_vector);
    r
}

/// An entry of an archive.
pub struct CpioEntry {
    /// The entry's name, or `<invalid utf8>` when it is not valid UTF-8.
    pub name: Vec<u8>,
    /// Size of the file's data.
    pub size: usize,
    /// Offset of the file's data in the archive.
    pub start: usize,
}

/// Views of archive entries.
pub open spec fn entry_views(es: Seq<CpioEntry>) -> Seq<(Seq<u8>, int, int)> {
    es.map_values(|e: CpioEntry| (e.name@, e.size as int, e.start as int))
}

/// Bytes of the text `<invalid utf8>`.
fn invalid_utf8_bytes() -> (r: Vec<u8>)
    ensures
        r@ == invalid_utf8_text(),
{
    let r: Vec<u8> = vec![
        0x3cu8, 0x69u8, 0x6eu8, 0x76u8, 0x61u8, 0x6cu8, 0x69u8, 0x64u8, 0x20u8, 0x75u8, 0x74u8,
        0x66u8, 0x38u8, 0x3eu8,
    ];
    assert(r@ =~= invalid_utf8_text());
    r
}

/// How bytes are shown (see `shown_text`).
fn show(bytes: &[u8]) -> (r: Vec<u8>)
    ensures
        r@ == shown_text(bytes@),
{
    match str_from_utf8(bytes) {
        Some(_) => {
            let mut v: Vec<u8> = Vec::new();
            crate::dtb::append_bytes(&mut v, bytes);
            assert(v@ =~= bytes@);
            v
        },
        None => invalid_utf8_bytes(),
    }
}

/// Whether `a` equals the trailer name.
fn is_trailer(a: &[u8]) -> (r: bool)
    ensures
        r == (a@ == trailer_name()),
{
    let t: [u8; 10] = [0x54u8, 0x52u8, 0x41u8, 0x49u8, 0x4cu8, 0x45u8, 0x52u8, 0x21u8, 0x21u8, 0x21u8];
    assert(t@ =~= trailer_name());
    crate::dtb::bytes_eq(a, t.as_slice())
}

/// Whether the six bytes at `pos` are the magic number.
fn magic_at(a: &[u8], pos: usize) -> (r: bool)
    requires
        pos + 6 <= a@.len(),
    ensures
        r == (a@.subrange(pos as int, pos + 6) == magic_bytes()),
{
    let _ = a.len();
    let m: [u8; 6] = [0x30u8, 0x37u8, 0x30u8, 0x37u8, 0x30u8, 0x31u8];
    assert(m@ =~= magic_bytes());
    crate::dtb::bytes_eq(&a[pos..pos + 6], m.as_slice())
}

/// Lists the entries of the archive (see `cpio_walk`).
pub fn entries(archive: &[u8]) -> (r: Vec<CpioEntry>)
    requires
        archive@.len() <= isize::MAX,
    ensures
        entry_views(r@) == cpio_walk(archive@, 0),
{
    let a = archive;
    let len = a.len();
    let mut out: Vec<CpioEntry> = Vec::new();
    let mut pos: usize = 0;
    assert(entry_views(out@) =~= Seq::<(Seq<u8>, int, int)>::empty());
    loop
        invariant_except_break
            pos <= len,
            entry_views(out@) + cpio_walk(a@, pos as int) == cpio_walk(a@, 0),
        invariant
            len == a@.len(),
            len <= isize::MAX,
        ensures
            entry_views(out@) == cpio_walk(a@, 0),
        decreases len - pos,
    {
        let ghost before = entry_views(out@);
        if len - pos < CPIO_HEADER_SIZE || !magic_at(a, pos) {
            assert(before + Seq::<(Seq<u8>, int, int)>::empty() =~= before);
            break;
        }
        let ns = parse_hex_field(&a[pos + 94..pos + 102]);
        let fs = parse_hex_field(&a[pos + 54..pos + 62]);
        let np = pos + CPIO_HEADER_SIZE;
        if ns == 0 || ns - 1 > len - np {
            assert(before + Seq::<(Seq<u8>, int, int)>::empty() =~= before);
            break;
        }
        let name = show(&a[np..np + ns - 1]);
        if is_trailer(name.as_slice()) {
            assert(before + Seq::<(Seq<u8>, int, int)>::empty() =~= before);
            break;
        }
        let start = align_up(np + ns, 4);
        let entry = CpioEntry { name, size: fs, start };
        let ghost ev = (entry.name@, fs as int, start as int);
        out.push(entry);
        assert(entry_views(out@) =~= before.push(ev));
        if start > len || fs > len - start {
            assert(entry_views(out@) =~= before + seq![ev]);
            break;
        }
        let next = align_up(start + fs, 4);
        if next > len {
            assert(entry_views(out@) =~= before + seq![ev]);
            break;
        }
        assert(entry_views(out@) + cpio_walk(a@, next as int) =~= before + (seq![ev] + cpio_walk(
            a@,
            next as int,
        )));
        pos = next;
    }
    out
}

} // verus!

verus! {

/// Why a file could not be read from the ramdisk.
#[derive(Clone, Copy, Debug, PartialEq, Eq, Structural)]
pub enum CpioError {
    /// No ramdisk is enabled.
    Unsupported,
    /// No entry has the name.
    NotFound,
    /// The entry's data reaches past the end of the archive.
    Truncated,
}

/// The data of the file that `path` names in the archive: the first entry
/// whose name is the path without one leading `/`.
pub open spec fn spec_read(archive: Option<Seq<u8>>, path: Seq<u8>) -> Result<Seq<u8>, CpioError> {
    match archive {
        None => Err(CpioError::Unsupported),
        Some(a) => match first_named(cpio_walk(a, 0), lookup_key(path)) {
            None => Err(CpioError::NotFound),
            Some((_, size, start)) => if start + size <= a.len() {
                Ok(a.subrange(start, start + size))
            } else {
                Err(CpioError::Truncated)
            },
        },
    }
}

/// The archive bytes, when a ramdisk is enabled.
pub open spec fn archive_view(archive: Option<&[u8]>) -> Option<Seq<u8>> {
    match archive {
        Some(a) => Some(a@),
        None => None,
    }
}

/// Finds the first entry named `key`.
fn find_entry(es: &Vec<CpioEntry>, key: &[u8]) -> (r: Option<usize>)
    ensures
        match first_named(entry_views(es@), key@) {
            None => r is None,
            Some(e) => r matches Some(i) && i < es@.len() && entry_views(es@)[i as int] == e,
        },
{
    let mut i: usize = 0;
    assert(entry_views(es@).skip(0) =~= entry_views(es@));
    while i < es.len()
        invariant
            i <= es@.len(),
            first_named(entry_views(es@), key@) == first_named(entry_views(es@).skip(i as int), key@),
        decreases es.len() - i,
    {
        let ghost rest = entry_views(es@).skip(i as int);
        assert(rest[0] == entry_views(es@)[i as int]);
        assert(rest.drop_first() =~= entry_views(es@).skip(i + 1));
        if crate::dtb::bytes_eq(es[i].name.as_slice(), key) {
            return Some(i);
        }
        i += 1;
    }
    None
}

/// The name `path` looks up (see `lookup_key`).
fn key_of(path: &str) -> (r: &[u8])
    ensures
        r@ == lookup_key(path.spec_bytes()),
{
    let p = path.as_bytes();
    if p.len() > 0 && p[0] == 0x2f {
        assert(p@.subrange(1, p@.len() as int) =~= p@.drop_first());
        &p[1..p.len()]
    } else {
        p
    }
}

/// Read the entire contents of a file into a bytes vector (see
/// `spec_read`); `archive` is the ramdisk, `None` when none is enabled.
pub fn read(archive: Option<&[u8]>, path: &str) -> (r: Result<Vec<u8>, CpioError>)
    requires
        archive matches Some(a) ==> a@.len() <= isize::MAX,
    ensures
        match spec_read(archive_view(archive), path.spec_bytes()) {
            Ok(d) => r matches Ok(v) && v@ == d,
            Err(e) => r == Err::<Vec<u8>, CpioError>(e),
        },
{
    let a = match archive {
        Some(a) => a,
        None => return Err(CpioError::Unsupported),
    };
    let es = entries(a);
    match find_entry(&es, key_of(path)) {
        None => Err(CpioError::NotFound),
        Some(i) => {
            let start = es[i].start;
            let size = es[i].size;
            if start > a.len() || size > a.len() - start {
                return Err(CpioError::Truncated);
            }
            let mut v: Vec<u8> = Vec::new();
            crate::dtb::append_bytes(&mut v, &a[start..start + size]);
            Ok(v)
        },
    }
}

/// Read the entire contents of a file into a string: the file's text when
/// it is valid UTF-8, `<invalid utf8>` otherwise (see `read`).
pub fn read_to_string(archive: Option<&[u8]>, path: &str) -> (r: Result<String, CpioError>)
    requires
        archive matches Some(a) ==> a@.len() <= isize::MAX,
    ensures
        match spec_read(archive_view(archive), path.spec_bytes()) {
            Ok(d) => r matches Ok(s) && vstd::utf8::encode_utf8(s@) == shown_text(d),
            Err(e) => r matches Err(x) && x == e,
        },
{
    let data = match read(archive, path) {
        Ok(d) => d,
        Err(e) => return Err(e),
    };
    match str_from_utf8(data.as_slice()) {
        Some(s) => Ok(String::from_str(s)),
        None => {
            let t = "<invalid utf8>";
            proof {
                reveal_strlit("<invalid utf8>");
                assert(t@ =~= seq!['<', 'i', 'n', 'v', 'a', 'l', 'i', 'd', ' ', 'u', 't', 'f', '8', '>']);
            }
            let s = String::from_str(t);
            proof {
                vstd::string::is_ascii_spec_bytes(t);
                assert(vstd::string::is_ascii(t));
                assert(t.spec_bytes() =~= invalid_utf8_text());
            }
            Ok(s)
        },
    }
}

} // verus!

verus! {

/// A path reads the same file with or without one leading `/`.
pub proof fn lemma_leading_slash_optional(archive: Option<Seq<u8>>, p: Seq<u8>)
    requires
        p.len() == 0 || p[0] != 0x2f,
    ensures
        spec_read(archive, seq![0x2fu8] + p) == spec_read(archive, p),
{
    assert((seq![0x2fu8] + p).drop_first() =~= p);
}

} // verus!

verus! {

/// The smallest multiple of four not below `x`.
pub proof fn lemma_align4_bounds(x: int)
    requires
        x >= 0,
    ensures
        align4(x) % 4 == 0,
        x <= align4(x) < x + 4,
{
    assert(((x + 3) / 4 * 4) % 4 == 0 && x <= (x + 3) / 4 * 4 < x + 4) by (nonlinear_arith)
        requires
            x >= 0,
    ;
}

/// The first entry listed from the header at `pos`: its name is the
/// header's name field (without its NUL) right after the 110-byte header,
/// its size is the header's file size field, and its data starts at the
/// first four-byte boundary at or after the end of the name (its NUL
/// included).
pub proof fn lemma_cpio_entry_layout(a: Seq<u8>, pos: int)
    requires
        cpio_walk(a, pos).len() > 0,
    ensures
        ({
            let e = cpio_walk(a, pos)[0];
            let ns = hex_field(a.subrange(pos + 94, pos + 102)) as int;
            let np = pos + CPIO_HEADER_SIZE;
            &&& pos >= 0
            &&& ns >= 1
            &&& e.0 == shown_text(a.subrange(np, np + ns - 1))
            &&& e.1 == hex_field(a.subrange(pos + 54, pos + 62)) as int
            &&& e.2 % 4 == 0
            &&& np + ns <= e.2 < np + ns + 4
        }),
{
    let ns = hex_field(a.subrange(pos + 94, pos + 102)) as int;
    lemma_align4_bounds(pos + CPIO_HEADER_SIZE + ns);
}

/// Every entry listed from the header at `pos` has its data at a four-byte
/// boundary past its header, and a size of zero or more.
pub proof fn lemma_cpio_starts_aligned(a: Seq<u8>, pos: int)
    ensures
        forall|i: int|
            0 <= i < cpio_walk(a, pos).len() ==> #[trigger] cpio_walk(a, pos)[i].2 % 4 == 0
                && cpio_walk(a, pos)[i].2 >= pos + CPIO_HEADER_SIZE && cpio_walk(a, pos)[i].1 >= 0,
    decreases a.len() - pos,
{
    let w = cpio_walk(a, pos);
    if w.len() > 0 {
        lemma_cpio_entry_layout(a, pos);
        let ns = hex_field(a.subrange(pos + 94, pos + 102)) as int;
        let fs = hex_field(a.subrange(pos + 54, pos + 62)) as int;
        let start = align4(pos + CPIO_HEADER_SIZE + ns);
        let next = align4(start + fs);
        lemma_align4_bounds(start + fs);
        if next <= a.len() {
            lemma_cpio_starts_aligned(a, next);
            let rest = cpio_walk(a, next);
            assert(w == seq![w[0]] + rest);
            assert forall|i: int| 0 <= i < w.len() implies #[trigger] w[i].2 % 4 == 0 && w[i].2 >= pos
                + CPIO_HEADER_SIZE && w[i].1 >= 0 by {
                if i > 0 {
                    assert(w[i] == rest[i - 1]);
                }
            }
        }
    }
}

/// The first entry named `key` is one of the entries, with that name.
pub proof fn lemma_first_named_member(es: Seq<(Seq<u8>, int, int)>, key: Seq<u8>)
    ensures
        first_named(es, key) matches Some(e) ==> exists|i: int| 0 <= i < es.len() && #[trigger] es[i] == e
            && e.0 == key,
    decreases es.len(),
{
    if es.len() > 0 && es[0].0 != key {
        lemma_first_named_member(es.drop_first(), key);
        if let Some(e) = first_named(es.drop_first(), key) {
            let i = choose|i: int| 0 <= i < es.drop_first().len() && #[trigger] es.drop_first()[i] == e
                && e.0 == key;
            assert(es[i + 1] == e);
        }
    } else if es.len() > 0 {
        assert(es[0] == es[0]);
    }
}

/// A file read from the archive is the bytes of one of its entries named
/// by the path (one leading `/` dropped): exactly the entry's size of bytes,
/// from its data offset, which lies on a four-byte boundary after its
/// header.
pub proof fn lemma_read_gives_entry_data(a: Seq<u8>, path: Seq<u8>)
    ensures
        spec_read(Some(a), path) matches Ok(d) ==> exists|i: int|
            0 <= i < cpio_walk(a, 0).len() && {
                let e = #[trigger] cpio_walk(a, 0)[i];
                &&& e.0 == lookup_key(path)
                &&& e.2 % 4 == 0
                &&& e.2 >= CPIO_HEADER_SIZE
                &&& d == a.subrange(e.2, e.2 + e.1)
                &&& d.len() == e.1
            },
{
    lemma_cpio_starts_aligned(a, 0);
    lemma_first_named_member(cpio_walk(a, 0), lookup_key(path));
    if let Ok(d) = spec_read(Some(a), path) {
        let e = first_named(cpio_walk(a, 0), lookup_key(path))->Some_0;
        let i = choose|i: int| 0 <= i < cpio_walk(a, 0).len() && #[trigger] cpio_walk(a, 0)[i] == e
            && e.0 == lookup_key(path);
        assert(cpio_walk(a, 0)[i].2 % 4 == 0);
        assert(e.1 >= 0 && e.2 >= 0 && e.2 + e.1 <= a.len());
        assert(d == a.subrange(e.2, e.2 + e.1));
        assert(d.len() == e.1);
    }
}

} // verus!
