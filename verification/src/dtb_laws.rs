//! What a device tree walk reads, and why a rewritten property reads back as
//! written, whether its new value was written in place or the blob was
//! rebuilt around a longer one.
use crate::dtb::{
    DtbParser, FdtHeader, padded_len, value_bytes, value_pos, prop_walk, find_walk, be_word,
    be_bytes_of, be_u32_at, be_value, name_bytes_at, name_len, name_words, skip_walk, token_at,
    walk_measure, growth, rebuild_fits, rebuilt_body, rebuilt_header_bytes, spliced, write_at,
    zero_bytes, join_path, FDT_BEGIN_NODE, FDT_END_NODE, FDT_NOP, FDT_PROP,
};
use vstd::prelude::*;

verus! {

/// Two blobs that both reach `limit` and agree on every byte from `lo` up
/// to it.
pub open spec fn agree_window(d: Seq<u8>, e: Seq<u8>, lo: int, limit: int) -> bool {
    &&& 0 <= lo
    &&& limit <= d.len()
    &&& limit <= e.len()
    &&& forall|i: int| lo <= i < limit ==> #[trigger] d[i] == e[i]
}

/// A big-endian word reads back as written.
pub proof fn lemma_be_roundtrip(v: u32)
    ensures
        be_value(be_bytes_of(v)[0], be_bytes_of(v)[1], be_bytes_of(v)[2], be_bytes_of(v)[3]) == v,
{
    let b0 = (v >> 24u32) as u8;
    let b1 = ((v >> 16u32) & 0xff) as u8;
    let b2 = ((v >> 8u32) & 0xff) as u8;
    let b3 = (v & 0xff) as u8;
    assert(b0 == (v / 0x1000000) as u8 && b1 == ((v / 0x10000) % 0x100) as u8 && b2 == ((v / 0x100)
        % 0x100) as u8 && b3 == (v % 0x100) as u8) by (bit_vector)
        requires
            b0 == (v >> 24u32) as u8,
            b1 == ((v >> 16u32) & 0xff) as u8,
            b2 == ((v >> 8u32) & 0xff) as u8,
            b3 == (v & 0xff) as u8,
    ;
    assert((b0 as int * 0x1000000 + b1 as int * 0x10000 + b2 as int * 0x100 + b3 as int) == v) by (bit_vector)
        requires
            b0 == (v >> 24u32) as u8,
            b1 == ((v >> 16u32) & 0xff) as u8,
            b2 == ((v >> 8u32) & 0xff) as u8,
            b3 == (v & 0xff) as u8,
    ;
}

/// A word whose four bytes lie in the window reads the same in both blobs.
pub proof fn lemma_token_agree(d: Seq<u8>, e: Seq<u8>, limit: int, off: int, co: int)
    requires
        agree_window(d, e, off, limit),
        co >= 0,
        off + co * 4 + 4 <= limit,
    ensures
        token_at(d, off, co) == token_at(e, off, co),
        token_at(d, off, co) is Some,
{
    let i = off + co * 4;
    assert(d[i] == e[i] && d[i + 1] == e[i + 1] && d[i + 2] == e[i + 2] && d[i + 3] == e[i + 3]);
}

/// A node name whose bytes and padding lie in the window reads the same in
/// both blobs.
pub proof fn lemma_name_agree(d: Seq<u8>, e: Seq<u8>, lo: int, limit: int, start: int, len: nat)
    requires
        agree_window(d, e, lo, limit),
        start >= lo,
        start + 4 * ((name_len(d, start, 0) + 4) / 4) <= limit,
        len <= name_len(d, start, 0),
        name_len(d, start, len) == name_len(d, start, 0),
    ensures
        name_len(e, start, len) == name_len(d, start, 0),
    decreases 256 - len,
{
    let n = name_len(d, start, 0);
    if len >= 256 {
    } else if start + len >= d.len() || start + len < 0 {
    } else {
        assert(start + len < limit);
        assert(d[start + len] == e[start + len]);
        if d[start + len] == 0 {
        } else {
            lemma_name_len_within(d, start, len + 1);
            lemma_name_agree(d, e, lo, limit, start, len + 1);
        }
    }
}

/// The name at word `co` reads the same in both blobs, with its length and
/// its words, when its words lie below the limit.
pub proof fn lemma_node_name_agree(d: Seq<u8>, e: Seq<u8>, limit: int, off: int, co: int)
    requires
        agree_window(d, e, off, limit),
        off >= 0,
        co >= 0,
        off + (co + name_words(d, off, co)) * 4 <= limit,
    ensures
        name_len(e, off + co * 4, 0) == name_len(d, off + co * 4, 0),
        name_words(e, off, co) == name_words(d, off, co),
        name_bytes_at(e, off, co) == name_bytes_at(d, off, co),
{
    let start = off + co * 4;
    lemma_name_agree(d, e, off, limit, start, 0);
    let n = name_len(d, start, 0);
    if n > 0 {
        lemma_name_len_within(d, start, 0);
        assert(name_bytes_at(e, off, co) =~= name_bytes_at(d, off, co));
    }
}

/// A name of positive length lies inside the blob.
pub proof fn lemma_name_len_within(d: Seq<u8>, start: int, len: nat)
    requires
        start >= 0,
    ensures
        name_len(d, start, len) >= len,
        name_len(d, start, len) > len ==> start + name_len(d, start, len) <= d.len(),
    decreases 256 - len,
{
    if len >= 256 {
    } else if start + len >= d.len() || start + len < 0 {
    } else if d[start + len] == 0 {
    } else {
        lemma_name_len_within(d, start, len + 1);
    }
}

} // verus!

verus! {

/// Whether skipping from word `co` at nesting `depth` ends by closing the
/// node (reaching depth zero) rather than at a malformed or missing word.
pub open spec fn skip_ends_normally(data: Seq<u8>, off: int, co: int, depth: int) -> bool
    decreases walk_measure(co),
{
    if depth <= 0 {
        true
    } else if co < 0 || co > usize::MAX {
        false
    } else {
        match token_at(data, off, co) {
            None => false,
            Some(t) => {
                let co1 = co + 1;
                if t == FDT_BEGIN_NODE {
                    skip_ends_normally(data, off, co1 + name_words(data, off, co1), depth + 1)
                } else if t == FDT_END_NODE {
                    skip_ends_normally(data, off, co1, depth - 1)
                } else if t == FDT_PROP {
                    let len: int = match token_at(data, off, co1) {
                        Some(l) => l as int,
                        None => 0,
                    };
                    let co2 = if token_at(data, off, co1) is Some {
                        co1 + 1
                    } else {
                        co1
                    };
                    let co3 = if token_at(data, off, co2) is Some {
                        co2 + 1
                    } else {
                        co2
                    };
                    skip_ends_normally(data, off, co3 + (len + 3) / 4, depth)
                } else if t == FDT_NOP {
                    skip_ends_normally(data, off, co1, depth)
                } else {
                    false
                }
            },
        }
    }
}

/// Skipping `depth + k` levels is skipping `depth` levels and then `k` more,
/// when the first skip closes its node; otherwise it stops where the first
/// skip stopped.
pub proof fn lemma_skip_compose(data: Seq<u8>, off: int, co: int, depth: int, k: int)
    requires
        depth >= 1,
        k >= 0,
    ensures
        skip_walk(data, off, co, depth + k) == if skip_ends_normally(data, off, co, depth) {
            skip_walk(data, off, skip_walk(data, off, co, depth), k)
        } else {
            skip_walk(data, off, co, depth)
        },
    decreases walk_measure(co),
{
    if co < 0 || co > usize::MAX {
    } else {
        match token_at(data, off, co) {
            None => {},
            Some(t) => {
                let co1 = co + 1;
                if t == FDT_BEGIN_NODE {
                    lemma_skip_compose(data, off, co1 + name_words(data, off, co1), depth + 1, k);
                } else if t == FDT_END_NODE {
                    if depth > 1 {
                        lemma_skip_compose(data, off, co1, depth - 1, k);
                    } else {
                        assert(skip_walk(data, off, co1, 0) == co1);
                        assert(skip_ends_normally(data, off, co1, 0));
                        assert(skip_walk(data, off, co, depth) == co1);
                        assert(skip_ends_normally(data, off, co, depth));
                        assert(skip_walk(data, off, co, depth + k) == skip_walk(data, off, co1, k));
                    }
                } else if t == FDT_PROP {
                    let len: int = match token_at(data, off, co1) {
                        Some(l) => l as int,
                        None => 0,
                    };
                    let co2 = if token_at(data, off, co1) is Some {
                        co1 + 1
                    } else {
                        co1
                    };
                    let co3 = if token_at(data, off, co2) is Some {
                        co2 + 1
                    } else {
                        co2
                    };
                    lemma_skip_compose(data, off, co3 + (len + 3) / 4, depth, k);
                } else if t == FDT_NOP {
                    lemma_skip_compose(data, off, co1, depth, k);
                }
            },
        }
    }
}

/// A skip that reads only inside the window goes the same way in both
/// blobs.
pub proof fn lemma_skip_prefix(d: Seq<u8>, e: Seq<u8>, limit: int, off: int, co: int, depth: int)
    requires
        agree_window(d, e, off, limit),
        off + skip_walk(d, off, co, depth) * 4 + 4 <= limit,
    ensures
        skip_walk(e, off, co, depth) == skip_walk(d, off, co, depth),
        skip_ends_normally(e, off, co, depth) == skip_ends_normally(d, off, co, depth),
    decreases walk_measure(co),
{
    if depth <= 0 || co < 0 || co > usize::MAX {
    } else {
        crate::dtb::lemma_skip_walk_advances(d, off, co, depth);
        lemma_token_agree(d, e, limit, off, co);
        match token_at(d, off, co) {
            None => {},
            Some(t) => {
                let co1 = co + 1;
                if t == FDT_BEGIN_NODE {
                    let c2 = co1 + name_words(d, off, co1);
                    crate::dtb::lemma_skip_walk_advances(d, off, c2, depth + 1);
                    lemma_node_name_agree(d, e, limit, off, co1);
                    lemma_skip_prefix(d, e, limit, off, c2, depth + 1);
                } else if t == FDT_END_NODE {
                    crate::dtb::lemma_skip_walk_advances(d, off, co1, depth - 1);
                    lemma_skip_prefix(d, e, limit, off, co1, depth - 1);
                } else if t == FDT_PROP {
                    let len: int = match token_at(d, off, co1) {
                        Some(l) => l as int,
                        None => 0,
                    };
                    let co2 = if token_at(d, off, co1) is Some {
                        co1 + 1
                    } else {
                        co1
                    };
                    let co3 = if token_at(d, off, co2) is Some {
                        co2 + 1
                    } else {
                        co2
                    };
                    crate::dtb::lemma_skip_walk_advances(d, off, co3 + (len + 3) / 4, depth);
                    lemma_token_agree(d, e, limit, off, co1);
                    lemma_token_agree(d, e, limit, off, co2);
                    lemma_skip_prefix(d, e, limit, off, co3 + (len + 3) / 4, depth);
                } else if t == FDT_NOP {
                    crate::dtb::lemma_skip_walk_advances(d, off, co1, depth);
                    lemma_skip_prefix(d, e, limit, off, co1, depth);
                }
            },
        }
    }
}

} // verus!

verus! {

/// A node search that reads only below the limit up to the node it finds
/// finds the same node in both blobs; the node's end is where skipping it
/// in the second blob leads.
pub proof fn lemma_find_prefix(
    d: Seq<u8>,
    e: Seq<u8>,
    limit: int,
    off: int,
    target: Seq<u8>,
    co: int,
    depth: int,
    segs: Seq<Seq<u8>>,
    s: int,
)
    requires
        agree_window(d, e, off, limit),
        off >= 0,
        find_walk(d, off, target, co, depth, segs) matches Some((s0, _)) && s0 == s,
        off + (s + 1 + name_words(d, off, s + 1)) * 4 <= limit,
    ensures
        find_walk(e, off, target, co, depth, segs) == Some(
            (s, skip_walk(e, off, s + 1 + name_words(d, off, s + 1), 1)),
        ),
        name_words(e, off, s + 1) == name_words(d, off, s + 1),
    decreases walk_measure(co),
{
    crate::dtb::lemma_find_walk_hit(d, off, target, co, depth, segs);
    if co < 0 || co > usize::MAX {
    } else {
        match token_at(d, off, co) {
            None => {},
            Some(t) => {
                lemma_token_agree(d, e, limit, off, co);
                let co1 = co + 1;
                if t == FDT_BEGIN_NODE {
                    let name = crate::dtb::utf8_lossy(name_bytes_at(d, off, co1));
                    let co2 = co1 + name_words(d, off, co1);
                    let segs2 = crate::dtb::segs_after_begin(segs, depth, name);
                    if crate::dtb::join_path(segs2) == target {
                        lemma_node_name_agree(d, e, limit, off, co1);
                    } else {
                        crate::dtb::lemma_find_walk_hit(d, off, target, co2, depth + 1, segs2);
                        lemma_node_name_agree(d, e, limit, off, co1);
                        lemma_find_prefix(d, e, limit, off, target, co2, depth + 1, segs2, s);
                    }
                } else if t == FDT_END_NODE {
                    lemma_find_prefix(
                        d,
                        e,
                        limit,
                        off,
                        target,
                        co1,
                        depth - 1,
                        crate::dtb::segs_after_end(segs, depth - 1),
                        s,
                    );
                } else if t == FDT_PROP {
                    match token_at(d, off, co1) {
                        None => {},
                        Some(len) => match token_at(d, off, co1 + 1) {
                            None => {},
                            Some(_) => {
                                let next = co1 + 2 + (len + 3) / 4;
                                crate::dtb::lemma_find_walk_hit(d, off, target, next, depth, segs);
                                lemma_token_agree(d, e, limit, off, co1);
                                lemma_token_agree(d, e, limit, off, co1 + 1);
                                lemma_find_prefix(d, e, limit, off, target, next, depth, segs, s);
                            },
                        },
                    }
                } else if t == FDT_NOP {
                    lemma_find_prefix(d, e, limit, off, target, co1, depth, segs, s);
                }
            },
        }
    }
}

} // verus!

verus! {

/// Two blobs of the same length that agree on every byte from `start` on.
pub open spec fn agree_from(d: Seq<u8>, e: Seq<u8>, start: int) -> bool {
    &&& d.len() == e.len()
    &&& forall|i: int| start <= i < d.len() ==> #[trigger] d[i] == e[i]
}

/// Two blobs whose tails agree: the bytes of `d` from `st_d` on are the
/// bytes of `e` from `st_e` on.
pub open spec fn agree_shifted(d: Seq<u8>, st_d: int, e: Seq<u8>, st_e: int) -> bool {
    &&& 0 <= st_d
    &&& 0 <= st_e
    &&& d.len() - st_d == e.len() - st_e
    &&& forall|i: int| st_d <= i < d.len() ==> #[trigger] d[i] == e[i - st_d + st_e]
}

/// A string read `k` bytes into the agreeing tails reads the same in both
/// blobs.
pub proof fn lemma_cstr_shift(d: Seq<u8>, st_d: int, e: Seq<u8>, st_e: int, k: int, len: int)
    requires
        agree_shifted(d, st_d, e, st_e),
        k >= 0,
        len >= 0,
    ensures
        crate::dtb::cstr_len(d, st_d + k, len) == crate::dtb::cstr_len(e, st_e + k, len),
        len == 0 ==> crate::dtb::cstr_bytes(d, st_d + k) == crate::dtb::cstr_bytes(e, st_e + k),
    decreases 256 - len,
{
    if len >= 256 {
    } else if st_d + k + len >= d.len() {
    } else {
        assert(d[st_d + k + len] == e[st_e + k + len]);
        lemma_cstr_shift(d, st_d, e, st_e, k, len + 1);
    }
    if len == 0 {
        match crate::dtb::cstr_len(d, st_d + k, 0) {
            Some(n) => {
                lemma_cstr_within(d, st_d + k, 0);
                assert forall|j: int| 0 <= j < n implies #[trigger] d.subrange(st_d + k, st_d + k + n)[j]
                    == e.subrange(st_e + k, st_e + k + n)[j] by {
                    assert(d[st_d + k + j] == e[st_e + k + j]);
                }
                assert(d.subrange(st_d + k, st_d + k + n) =~= e.subrange(st_e + k, st_e + k + n));
            },
            None => {},
        }
    }
}

/// A string that is found lies inside the blob.
pub proof fn lemma_cstr_within(d: Seq<u8>, at: int, len: int)
    requires
        len >= 0,
        at >= 0,
        len == 0 || at + len <= d.len(),
    ensures
        crate::dtb::cstr_len(d, at, len) matches Some(n) ==> len <= n && at + n <= d.len(),
    decreases 256 - len,
{
    if len >= 256 {
    } else if at + len >= d.len() || at + len < 0 {
    } else if d[at + len] == 0 {
    } else {
        lemma_cstr_within(d, at, len + 1);
    }
}

} // verus!

verus! {

/// When a property search inside a node finds the property at word `t`,
/// skipping the node in a blob that agrees up to that property's token, and
/// still has a property token there, gets past `t`.
pub proof fn lemma_skip_passes_property(
    d: Seq<u8>,
    e: Seq<u8>,
    limit: int,
    off: int,
    st: int,
    name: Seq<u8>,
    co: int,
    end: int,
    t: int,
)
    requires
        agree_window(d, e, off, limit),
        off >= 0,
        off + (t + 1) * 4 <= limit,
        prop_walk(d, off, st, name, co, end) matches Some((t0, _, _)) && t0 == t,
        end == skip_walk(d, off, co, 1),
    ensures
        skip_walk(e, off, co, 1) > t,
    decreases walk_measure(co),
{
    crate::dtb::lemma_prop_walk_hit(d, off, st, name, co, end);
    if co < 0 || co > usize::MAX || co >= end {
    } else {
        lemma_token_agree(d, e, limit, off, co);
        match token_at(d, off, co) {
            None => {},
            Some(tok) => {
                let co1 = co + 1;
                if tok == FDT_PROP {
                    match token_at(d, off, co1) {
                        None => {},
                        Some(len) => match token_at(d, off, co1 + 1) {
                            None => {},
                            Some(no) => {
                                let next = co1 + 2 + (len + 3) / 4;
                                if crate::dtb::cstr_bytes(d, st + no) == Some(name) {
                                    let l2: int = match token_at(e, off, co1) {
                                        Some(l) => l as int,
                                        None => 0,
                                    };
                                    let c2 = if token_at(e, off, co1) is Some {
                                        co1 + 1
                                    } else {
                                        co1
                                    };
                                    let c3 = if token_at(e, off, c2) is Some {
                                        c2 + 1
                                    } else {
                                        c2
                                    };
                                    crate::dtb::lemma_skip_walk_advances(e, off, c3 + (l2 + 3) / 4, 1);
                                } else {
                                    crate::dtb::lemma_prop_walk_hit(d, off, st, name, next, end);
                                    lemma_token_agree(d, e, limit, off, co1);
                                    lemma_token_agree(d, e, limit, off, co1 + 1);
                                    lemma_skip_passes_property(d, e, limit, off, st, name, next, end, t);
                                }
                            },
                        },
                    }
                } else if tok == FDT_BEGIN_NODE {
                    let co2 = co1 + name_words(d, off, co1);
                    crate::dtb::lemma_skip_walk_advances(d, off, co2, 1);
                    let x = skip_walk(d, off, co2, 1);
                    crate::dtb::lemma_prop_walk_hit(d, off, st, name, x, end);
                    lemma_skip_compose(d, off, co2, 1, 1);
                    lemma_node_name_agree(d, e, limit, off, co1);
                    lemma_skip_prefix(d, e, limit, off, co2, 1);
                    lemma_skip_compose(e, off, co2, 1, 1);
                    lemma_skip_passes_property(d, e, limit, off, st, name, x, end, t);
                } else if tok == FDT_NOP {
                    lemma_skip_passes_property(d, e, limit, off, st, name, co1, end, t);
                }
            },
        }
    }
}

/// A property search that finds the property at word `t` finds it there in
/// a blob that agrees up to that property's token and on every string, has
/// a property token, a length and the same name offset there, and whose
/// node end lies past `t`; the length found is the second blob's.
pub proof fn lemma_prop_prefix(
    d: Seq<u8>,
    e: Seq<u8>,
    limit: int,
    off: int,
    st_d: int,
    st_e: int,
    name: Seq<u8>,
    co: int,
    end_d: int,
    end_e: int,
    t: int,
    no: u32,
    len_e: u32,
)
    requires
        agree_window(d, e, off, limit),
        agree_shifted(d, st_d, e, st_e),
        off >= 0,
        off + (t + 1) * 4 <= limit,
        prop_walk(d, off, st_d, name, co, end_d) matches Some((t0, _, n0)) && t0 == t && n0 == no,
        t < end_e,
        token_at(e, off, t + 1) == Some(len_e),
        token_at(e, off, t + 2) == Some(no),
    ensures
        prop_walk(e, off, st_e, name, co, end_e) == Some((t, len_e, no)),
    decreases walk_measure(co),
{
    crate::dtb::lemma_prop_walk_hit(d, off, st_d, name, co, end_d);
    if co < 0 || co > usize::MAX || co >= end_d {
    } else {
        lemma_token_agree(d, e, limit, off, co);
        match token_at(d, off, co) {
            None => {},
            Some(tok) => {
                let co1 = co + 1;
                if tok == FDT_PROP {
                    match token_at(d, off, co1) {
                        None => {},
                        Some(len) => match token_at(d, off, co1 + 1) {
                            None => {},
                            Some(nc) => {
                                let next = co1 + 2 + (len + 3) / 4;
                                lemma_cstr_shift(d, st_d, e, st_e, nc as int, 0);
                                if crate::dtb::cstr_bytes(d, st_d + nc) == Some(name) {
                                } else {
                                    crate::dtb::lemma_prop_walk_hit(d, off, st_d, name, next, end_d);
                                    lemma_token_agree(d, e, limit, off, co1);
                                    lemma_token_agree(d, e, limit, off, co1 + 1);
                                    lemma_prop_prefix(d, e, limit, off, st_d, st_e, name, next, end_d, end_e, t, no, len_e);
                                }
                            },
                        },
                    }
                } else if tok == FDT_BEGIN_NODE {
                    let co2 = co1 + name_words(d, off, co1);
                    crate::dtb::lemma_skip_walk_advances(d, off, co2, 1);
                    let x = skip_walk(d, off, co2, 1);
                    crate::dtb::lemma_prop_walk_hit(d, off, st_d, name, x, end_d);
                    lemma_node_name_agree(d, e, limit, off, co1);
                    lemma_skip_prefix(d, e, limit, off, co2, 1);
                    lemma_prop_prefix(d, e, limit, off, st_d, st_e, name, x, end_d, end_e, t, no, len_e);
                } else if tok == FDT_NOP {
                    lemma_prop_prefix(d, e, limit, off, st_d, st_e, name, co1, end_d, end_e, t, no, len_e);
                }
            },
        }
    }
}

} // verus!

verus! {

/// What writing a value in place leaves: every byte before the length word
/// and every byte from the end of the old padded value on is unchanged, the
/// length word holds the new length, the name offset word is unchanged,
/// and the value's bytes are the new value.
pub proof fn lemma_in_place_agrees(d: Seq<u8>, off: int, t: int, len: u32, value: Seq<u8>)
    requires
        off >= 0,
        t >= 0,
        token_at(d, off, t + 2) is Some,
        value.len() <= crate::dtb::padded_len(len),
        value.len() <= u32::MAX,
        crate::dtb::value_pos(off, t) + value.len() <= d.len(),
    ensures
        ({
            let e = crate::dtb::modified_in_place(d, off, t, len, value);
            let pos = crate::dtb::value_pos(off, t);
            &&& agree_window(d, e, off, off + (t + 1) * 4)
            &&& agree_from(d, e, pos + crate::dtb::padded_len(len))
            &&& token_at(e, off, t + 1) == Some(value.len() as u32)
            &&& token_at(e, off, t + 2) == token_at(d, off, t + 2)
            &&& e.subrange(pos, pos + value.len()) == value
        }),
{
    let pos = crate::dtb::value_pos(off, t);
    let pl = crate::dtb::padded_len(len);
    let lw = off + (t + 1) * 4;
    let d1 = crate::dtb::write_at(d, pos, value);
    let d2 = if pos + value.len() <= d.len() && value.len() < pl {
        crate::dtb::write_at(d1, pos + value.len(), crate::dtb::zero_bytes(pl - value.len()))
    } else {
        d1
    };
    let v32 = value.len() as u32;
    let e = crate::dtb::write_at(d2, lw, be_bytes_of(v32));
    assert(e == crate::dtb::modified_in_place(d, off, t, len, value));
    assert(d1.len() == d.len() && d2.len() == d.len() && e.len() == d.len());
    assert forall|i: int| 0 <= i < d.len() && (i < lw || (lw + 4 <= i < pos) || i >= pos + pl) implies #[trigger] e[i] == d[i] by {
        assert(d1[i] == d[i]);
        assert(d2[i] == d1[i]);
    }
    assert forall|i: int| 0 <= i < value.len() implies #[trigger] e[pos + i] == value[i] by {
        assert(d1[pos + i] == value[i]);
        assert(d2[pos + i] == d1[pos + i]);
    }
    assert(e.subrange(pos, pos + value.len()) =~= value);
    assert(e[lw] == be_bytes_of(v32)[0] && e[lw + 1] == be_bytes_of(v32)[1] && e[lw + 2] == be_bytes_of(
        v32,
    )[2] && e[lw + 3] == be_bytes_of(v32)[3]);
    lemma_be_roundtrip(v32);
    let nw = off + (t + 2) * 4;
    assert(e[nw] == d[nw] && e[nw + 1] == d[nw + 1] && e[nw + 2] == d[nw + 2] && e[nw + 3] == d[nw + 3]);
}

} // verus!

verus! {

/// A property rewritten in place reads back as written: after
/// `modify_property` succeeds with a value that fits the old padded length,
/// the same node and property are found again, at the same place and with
/// the same name, the length is the new value's, and the value bytes are the
/// new value. This holds when the strings block lies after the property's
/// old value, as in a blob laid out in the usual order.
pub proof fn lemma_modify_in_place_reads_back(
    p: DtbParser,
    after: DtbParser,
    node_path: Seq<u8>,
    prop_name: Seq<u8>,
    value: Seq<u8>,
)
    requires
        p.modify_outcome(after, true, node_path, prop_name, value),
        p.spec_locate(node_path, prop_name) matches Some((t, len, no)) && value.len() <= padded_len(
            len,
        ) && value.len() <= u32::MAX && p.strings_off() >= value_pos(p.struct_off(), t)
            + padded_len(len),
    ensures
        p.spec_locate(node_path, prop_name) matches Some((t, len, no)) && after.spec_locate(
            node_path,
            prop_name,
        ) == Some((t, value.len() as u32, no)) && value_bytes(
            after.data(),
            after.struct_off(),
            t,
            value.len() as u32,
        ) == value,
{
    let d = p.data();
    let e = after.data();
    let off = p.struct_off();
    let st = p.strings_off();
    let tgt = crate::dtb::trim_slashes(node_path);
    let (t, len, no) = p.spec_locate(node_path, prop_name)->Some_0;
    let (s, end_d) = p.spec_find(node_path)->Some_0;
    crate::dtb::lemma_find_walk_hit(d, off, tgt, 0, 0, Seq::empty());
    let co2 = s + 1 + name_words(d, off, s + 1);
    crate::dtb::lemma_prop_walk_hit(d, off, st, prop_name, co2, end_d);
    let limit = off + (t + 1) * 4;
    lemma_in_place_agrees(d, off, t, len, value);
    assert(after.struct_off() == off && after.strings_off() == st);
    // the node's end in the first blob is where skipping it leads
    lemma_find_prefix(d, d, limit, off, tgt, 0, 0, Seq::empty(), s);
    lemma_find_prefix(d, e, limit, off, tgt, 0, 0, Seq::empty(), s);
    let end_e = skip_walk(e, off, co2, 1);
    lemma_skip_passes_property(d, e, limit, off, st, prop_name, co2, end_d, t);
    assert(agree_shifted(d, st, e, st));
    lemma_prop_prefix(d, e, limit, off, st, st, prop_name, co2, end_d, end_e, t, no, value.len() as u32);
    lemma_token_agree(d, e, limit, off, s);
    assert(value_bytes(e, off, t, value.len() as u32) =~= value);
}

} // verus!

verus! {

/// Four bytes are the big-endian bytes of the word they spell.
pub proof fn lemma_be_bytes_unique(b0: u8, b1: u8, b2: u8, b3: u8)
    ensures
        be_bytes_of(be_value(b0, b1, b2, b3)) == seq![b0, b1, b2, b3],
{
    let v = be_value(b0, b1, b2, b3);
    assert(v == (b0 as int * 0x1000000 + b1 as int * 0x10000 + b2 as int * 0x100 + b3 as int)) by (bit_vector)
        requires
            v == be_value(b0, b1, b2, b3),
    ;
    assert((v / 0x1000000) as u8 == b0 && ((v / 0x10000) % 0x100) as u8 == b1 && ((v / 0x100) % 0x100) as u8
        == b2 && (v % 0x100) as u8 == b3) by (bit_vector)
        requires
            v == (b0 as int * 0x1000000 + b1 as int * 0x10000 + b2 as int * 0x100 + b3 as int),
    ;
    assert(be_bytes_of(v) =~= seq![b0, b1, b2, b3]);
}

/// What `write_at` keeps and what it writes.
pub proof fn lemma_write_at(buf: Seq<u8>, off: int, src: Seq<u8>)
    ensures
        crate::dtb::write_at(buf, off, src).len() == buf.len(),
        forall|i: int|
            0 <= i < buf.len() && !(off <= i < off + src.len()) ==> #[trigger] crate::dtb::write_at(
                buf,
                off,
                src,
            )[i] == buf[i],
        0 <= off && off + src.len() <= buf.len() ==> forall|i: int|
            off <= i < off + src.len() ==> #[trigger] crate::dtb::write_at(buf, off, src)[i] == src[i
                - off],
{
}

/// The header's structure and strings offsets are its bytes 8 to 16.
pub proof fn lemma_header_offsets(h: FdtHeader)
    ensures
        h.off_dt_struct@ == h.bytes().subrange(8, 12),
        h.off_dt_strings@ == h.bytes().subrange(12, 16),
{
    assert(h.off_dt_struct@ =~= h.bytes().subrange(8, 12));
    assert(h.off_dt_strings@ =~= h.bytes().subrange(12, 16));
}

/// The conditions under which a rebuild for a longer value keeps what the
/// read-back needs: the rebuild fits, the blob starts with its own header,
/// its total size is its length, and it is laid out in the usual order
/// (header, structure block, strings block at the very end) with the
/// property's token at word `t`, a value longer than the old padded one
/// whose length and moved strings offset fit a header word.
pub open spec fn rebuild_keeps(d: Seq<u8>, h: FdtHeader, t: int, len: u32, value: Seq<u8>) -> bool {
    &&& rebuild_fits(d, h, t, len, value)
    &&& h.bytes() == d.subrange(0, 40)
    &&& be_word(h.totalsize) == d.len()
    &&& t >= 0
    &&& 40 <= be_word(h.off_dt_struct)
    &&& be_word(h.off_dt_struct) + be_word(h.size_dt_struct) <= be_word(h.off_dt_strings)
    &&& be_word(h.off_dt_strings) + be_word(h.size_dt_strings) == d.len()
    &&& token_at(d, be_word(h.off_dt_struct) as int, t) == Some(FDT_PROP)
    &&& value.len() > padded_len(len)
    &&& value.len() <= u32::MAX
    &&& be_word(h.off_dt_strings) + growth(len, value) <= u32::MAX
}

/// Byte by byte, what a rebuilt blob `body` holds before its header is
/// rewritten: the header's structure offset, the structure block up to the
/// property's token, the token, length and name offset words, the value,
/// and the strings block moved by the growth.
pub open spec fn body_holds(d: Seq<u8>, h: FdtHeader, t: int, len: u32, no: u32, value: Seq<u8>, body: Seq<u8>) -> bool {
    let so = be_word(h.off_dt_struct) as int;
    let st = be_word(h.off_dt_strings) as int;
    let inc = growth(len, value);
    let pt = so + t * 4;
    &&& body.len() == d.len() + inc
    &&& forall|i: int| 8 <= i < 12 ==> #[trigger] body[i] == d[i]
    &&& forall|i: int| so <= i < pt ==> #[trigger] body[i] == d[i]
    &&& forall|i: int| pt <= i < pt + 4 ==> #[trigger] body[i] == be_bytes_of(FDT_PROP)[i - pt]
    &&& forall|i: int| pt + 4 <= i < pt + 8 ==> #[trigger] body[i] == be_bytes_of(value.len() as u32)[i - pt - 4]
    &&& forall|i: int| pt + 8 <= i < pt + 12 ==> #[trigger] body[i] == be_bytes_of(no)[i - pt - 8]
    &&& forall|i: int| pt + 12 <= i < pt + 12 + value.len() ==> #[trigger] body[i] == value[i - pt - 12]
    &&& forall|i: int| st + inc <= i < d.len() + inc ==> #[trigger] body[i] == d[i - inc]
    &&& forall|i: int| pt + 12 + padded_len(len) + inc <= i < so + be_word(h.size_dt_struct) + inc
        ==> #[trigger] body[i] == d[i - inc]
}

/// Byte by byte, what the rebuilt blob holds before its header is
/// rewritten (see `body_holds`).
#[verifier::spinoff_prover]
#[verifier::rlimit(60)]
pub proof fn lemma_rebuilt_body(d: Seq<u8>, h: FdtHeader, t: int, len: u32, no: u32, value: Seq<u8>)
    requires
        rebuild_keeps(d, h, t, len, value),
    ensures
        body_holds(d, h, t, len, no, value, rebuilt_body(d, h, t, len, no, value)),
{
    let so = be_word(h.off_dt_struct) as int;
    let rsv = be_word(h.off_mem_rsvmap) as int;
    let st = be_word(h.off_dt_strings) as int;
    let ss = be_word(h.size_dt_struct) as int;
    let sst = be_word(h.size_dt_strings) as int;
    let pos = value_pos(so, t);
    let pl = padded_len(len);
    let inc = growth(len, value);
    let s0 = zero_bytes(be_word(h.totalsize) + inc);
    let src1 = d.subrange(0, 40);
    let s1 = write_at(s0, 0, src1);
    let src2 = d.subrange(rsv, so);
    let s2 = write_at(s1, rsv, src2);
    let src3 = d.subrange(so, pos);
    let s3 = write_at(s2, so, src3);
    let s4 = write_at(s3, pos - 12, be_bytes_of(FDT_PROP));
    let s5 = write_at(s4, pos - 8, be_bytes_of(value.len() as u32));
    let s6 = write_at(s5, pos - 4, be_bytes_of(no));
    let s7 = write_at(s6, pos, value);
    let src8 = d.subrange(pos + pl, so + ss);
    let s8 = write_at(s7, pos + crate::dtb::padded_size(value.len() as int), src8);
    let src9 = d.subrange(st, st + sst);
    let body = write_at(s8, st + inc, src9);
    assert(body == rebuilt_body(d, h, t, len, no, value));
    lemma_write_at(s0, 0, src1);
    lemma_write_at(s1, rsv, src2);
    lemma_write_at(s2, so, src3);
    lemma_write_at(s3, pos - 12, be_bytes_of(FDT_PROP));
    lemma_write_at(s4, pos - 8, be_bytes_of(value.len() as u32));
    lemma_write_at(s5, pos - 4, be_bytes_of(no));
    lemma_write_at(s6, pos, value);
    lemma_write_at(s7, pos + crate::dtb::padded_size(value.len() as int), src8);
    lemma_write_at(s8, st + inc, src9);
    assert(s0.len() == d.len() + inc);
    assert forall|i: int| so <= i < pos - 12 implies #[trigger] body[i] == d[i] by {
        assert(s3[i] == src3[i - so]);
        assert(s4[i] == s3[i]);
        assert(s5[i] == s4[i]);
        assert(s6[i] == s5[i]);
        assert(s7[i] == s6[i]);
        assert(s8[i] == s7[i]);
    }
    assert forall|i: int| pos - 12 <= i < pos implies #[trigger] body[i] == (if i < pos - 8 {
        be_bytes_of(FDT_PROP)[i - (pos - 12)]
    } else if i < pos - 4 {
        be_bytes_of(value.len() as u32)[i - (pos - 8)]
    } else {
        be_bytes_of(no)[i - (pos - 4)]
    }) by {
        if i < pos - 8 {
            assert(s4[i] == be_bytes_of(FDT_PROP)[i - (pos - 12)]);
        } else if i < pos - 4 {
            assert(s5[i] == be_bytes_of(value.len() as u32)[i - (pos - 8)]);
        } else {
            assert(s6[i] == be_bytes_of(no)[i - (pos - 4)]);
        }
        assert(s5[i] == s4[i] || pos - 8 <= i);
        assert(s6[i] == s5[i] || pos - 4 <= i);
        assert(s7[i] == s6[i]);
        assert(s8[i] == s7[i]);
    }
    assert forall|i: int| pos <= i < pos + value.len() implies #[trigger] body[i] == value[i - pos] by {
        assert(s7[i] == value[i - pos]);
        assert(s8[i] == s7[i]);
    }
    assert forall|i: int| st + inc <= i < d.len() + inc implies #[trigger] body[i] == d[i - inc] by {
        assert(body[i] == src9[i - (st + inc)]);
    }
    assert forall|i: int| pos + pl + inc <= i < so + ss + inc implies #[trigger] body[i] == d[i - inc] by {
        assert(s8[i] == src8[i - (pos + crate::dtb::padded_size(value.len() as int))]);
    }
    assert forall|i: int| 8 <= i < 12 implies #[trigger] body[i] == d[i] by {
        assert(s1[i] == src1[i]);
        if rsv <= i < so {
            assert(s2[i] == src2[i - rsv]);
        } else {
            assert(s2[i] == s1[i]);
        }
        assert(s3[i] == s2[i]);
        assert(s4[i] == s3[i]);
        assert(s5[i] == s4[i]);
        assert(s6[i] == s5[i]);
        assert(s7[i] == s6[i]);
        assert(s8[i] == s7[i]);
    }
}

/// What rebuilding the blob for a longer value leaves, under
/// `rebuild_keeps`: the structure block up to and with the property's
/// token is unchanged, the length word holds the new length, the name
/// offset word is kept, the value bytes are the new value, the strings
/// block has moved by the growth, the header's structure offset is kept and
/// its strings offset has moved by the growth.
#[verifier::spinoff_prover]
#[verifier::rlimit(60)]
pub proof fn lemma_rebuild_agrees(
    d: Seq<u8>,
    h: FdtHeader,
    t: int,
    len: u32,
    no: u32,
    value: Seq<u8>,
    body: Seq<u8>,
    hb: Seq<u8>,
)
    requires
        rebuild_keeps(d, h, t, len, value),
        body_holds(d, h, t, len, no, value, body),
        hb == crate::dtb::header_bytes_with(
            body.subrange(0, 40),
            (be_word(h.totalsize) + growth(len, value)) as u32,
            (be_word(h.off_dt_strings) + growth(len, value)) as u32,
            be_word(h.size_dt_strings),
            (be_word(h.size_dt_struct) + (growth(len, value) as u32)) as u32,
        ),
    ensures
        ({
            let so = be_word(h.off_dt_struct) as int;
            let st = be_word(h.off_dt_strings) as int;
            let inc = growth(len, value);
            let e = spliced(body, 0, hb);
            let pos = value_pos(so, t);
            &&& agree_window(d, e, so, so + (t + 1) * 4)
            &&& token_at(e, so, t + 1) == Some(value.len() as u32)
            &&& token_at(e, so, t + 2) == Some(no)
            &&& e.subrange(pos, pos + value.len()) == value
            &&& agree_shifted(d, st, e, st + inc)
            &&& hb.subrange(8, 12) == h.off_dt_struct@
            &&& hb.subrange(12, 16) == be_bytes_of((st + inc) as u32)
        }),
{
    let so = be_word(h.off_dt_struct) as int;
    let st = be_word(h.off_dt_strings) as int;
    let pos = value_pos(so, t);
    let inc = growth(len, value);
    let vl = value.len() as int;
    assert(hb.len() == 40);
    let e = spliced(body, 0, hb);
    assert(e.len() == body.len());
    assert forall|i: int| 40 <= i < body.len() implies #[trigger] e[i] == body[i] by {
    }
    let pt = pos - 12;
    assert forall|i: int| so <= i < pt implies #[trigger] d[i] == e[i] by {
        assert(e[i] == body[i]);
    }
    lemma_be_bytes_unique(d[pt], d[pt + 1], d[pt + 2], d[pt + 3]);
    assert forall|i: int| pt <= i < pt + 4 implies #[trigger] d[i] == e[i] by {
        assert(body[i] == be_bytes_of(FDT_PROP)[i - pt]);
        assert(e[i] == body[i]);
        assert(seq![d[pt], d[pt + 1], d[pt + 2], d[pt + 3]][i - pt] == d[i]);
    }
    assert forall|i: int| so <= i < so + (t + 1) * 4 implies #[trigger] d[i] == e[i] by {
        if i < pt {
        } else {
        }
    }
    lemma_be_roundtrip(value.len() as u32);
    assert forall|i: int| pt + 4 <= i < pt + 8 implies #[trigger] e[i] == be_bytes_of(value.len() as u32)[i - pt - 4] by {
        assert(e[i] == body[i]);
    }
    assert(token_at(e, so, t + 1) == Some(value.len() as u32)) by {
        assert(e[pt + 4] == be_bytes_of(value.len() as u32)[0]);
        assert(e[pt + 5] == be_bytes_of(value.len() as u32)[1]);
        assert(e[pt + 6] == be_bytes_of(value.len() as u32)[2]);
        assert(e[pt + 7] == be_bytes_of(value.len() as u32)[3]);
    }
    lemma_be_roundtrip(no);
    assert forall|i: int| pt + 8 <= i < pt + 12 implies #[trigger] e[i] == be_bytes_of(no)[i - pt - 8] by {
        assert(e[i] == body[i]);
    }
    assert(token_at(e, so, t + 2) == Some(no)) by {
        assert(e[pt + 8] == be_bytes_of(no)[0]);
        assert(e[pt + 9] == be_bytes_of(no)[1]);
        assert(e[pt + 10] == be_bytes_of(no)[2]);
        assert(e[pt + 11] == be_bytes_of(no)[3]);
    }
    assert forall|j: int| 0 <= j < vl implies #[trigger] e.subrange(pos, pos + vl)[j] == value[j] by {
        assert(body[pos + j] == value[pos + j - pt - 12]);
        assert(e[pos + j] == body[pos + j]);
    }
    assert(e.subrange(pos, pos + vl) =~= value);
    assert forall|i: int| st <= i < d.len() implies #[trigger] d[i] == e[i - st + (st + inc)] by {
        assert(body[i + inc] == d[i + inc - inc]);
        assert(e[i + inc] == body[i + inc]);
    }
    lemma_header_offsets(h);
    assert(hb.subrange(8, 12) =~= h.off_dt_struct@) by {
        assert forall|j: int| 0 <= j < 4 implies #[trigger] hb.subrange(8, 12)[j] == h.off_dt_struct@[j] by {
            assert(body[8 + j] == d[8 + j]);
            assert(body.subrange(0, 40)[8 + j] == body[8 + j]);
            assert(h.bytes()[8 + j] == d[8 + j]);
        }
    }
    assert(hb.subrange(12, 16) =~= be_bytes_of((st + inc) as u32));
}

/// A property given a longer value reads back as written: after
/// `modify_property` rebuilds the blob around the longer value, the same
/// node and property are found again, at the same place and with the same
/// name, the length is the new value's, and the value bytes are the new
/// value. This holds for a blob laid out in the usual order (header,
/// structure block, strings block at the very end) that starts with the
/// header the parser works with and whose total size is its length, when
/// the moved strings offset still fits a header word.
pub proof fn lemma_modify_rebuild_reads_back(
    p: DtbParser,
    after: DtbParser,
    node_path: Seq<u8>,
    prop_name: Seq<u8>,
    value: Seq<u8>,
)
    requires
        p.modify_fits(node_path, prop_name, value),
        p.modify_outcome(after, true, node_path, prop_name, value),
        p.spec_header().bytes() == p.data().subrange(0, 40),
        be_word(p.spec_header().totalsize) == p.data().len(),
        40 <= p.struct_off(),
        p.struct_off() + be_word(p.spec_header().size_dt_struct) <= p.strings_off(),
        p.strings_off() + be_word(p.spec_header().size_dt_strings) == p.data().len(),
        value.len() <= u32::MAX,
        p.spec_locate(node_path, prop_name) matches Some((t, len, no)) && value.len() > padded_len(
            len,
        ) && p.strings_off() + growth(len, value) <= u32::MAX,
    ensures
        p.spec_locate(node_path, prop_name) matches Some((t, len, no)) && after.spec_locate(
            node_path,
            prop_name,
        ) == Some((t, value.len() as u32, no)) && after.struct_off() == p.struct_off()
            && value_bytes(after.data(), after.struct_off(), t, value.len() as u32) == value,
{
    let d = p.data();
    let e = after.data();
    let h = p.spec_header();
    let off = p.struct_off();
    let st = p.strings_off();
    let tgt = crate::dtb::trim_slashes(node_path);
    let (t, len, no) = p.spec_locate(node_path, prop_name)->Some_0;
    let (s, end_d) = p.spec_find(node_path)->Some_0;
    crate::dtb::lemma_find_walk_hit(d, off, tgt, 0, 0, Seq::empty());
    let co2 = s + 1 + name_words(d, off, s + 1);
    crate::dtb::lemma_prop_walk_hit(d, off, st, prop_name, co2, end_d);
    let inc = growth(len, value);
    let limit = off + (t + 1) * 4;
    let body = rebuilt_body(d, h, t, len, no, value);
    let hb = rebuilt_header_bytes(d, h, t, len, no, value);
    lemma_rebuilt_body(d, h, t, len, no, value);
    lemma_rebuild_agrees(d, h, t, len, no, value, body, hb);
    lemma_header_offsets(after.spec_header());
    assert(after.spec_header().off_dt_struct@ == h.off_dt_struct@);
    assert(after.struct_off() == off);
    lemma_be_roundtrip((st + inc) as u32);
    assert(after.strings_off() == st + inc);
    lemma_find_prefix(d, d, limit, off, tgt, 0, 0, Seq::empty(), s);
    lemma_find_prefix(d, e, limit, off, tgt, 0, 0, Seq::empty(), s);
    let end_e = skip_walk(e, off, co2, 1);
    lemma_skip_passes_property(d, e, limit, off, st, prop_name, co2, end_d, t);
    lemma_prop_prefix(d, e, limit, off, st, st + inc, prop_name, co2, end_d, end_e, t, no, value.len() as u32);
    lemma_token_agree(d, e, limit, off, s);
    assert(value_bytes(e, off, t, value.len() as u32) =~= value);
}

/// In the rebuilt blob, the bytes between the end of the new value and the
/// next four-byte boundary are zero.
#[verifier::spinoff_prover]
#[verifier::rlimit(60)]
pub proof fn lemma_rebuilt_padding(d: Seq<u8>, h: FdtHeader, t: int, len: u32, no: u32, value: Seq<u8>)
    requires
        rebuild_keeps(d, h, t, len, value),
    ensures
        ({
            let pos = value_pos(be_word(h.off_dt_struct) as int, t);
            let body = rebuilt_body(d, h, t, len, no, value);
            forall|i: int| pos + value.len() <= i < pos + crate::dtb::padded_size(value.len() as int)
                ==> #[trigger] body[i] == 0
        }),
{
    let so = be_word(h.off_dt_struct) as int;
    let rsv = be_word(h.off_mem_rsvmap) as int;
    let st = be_word(h.off_dt_strings) as int;
    let ss = be_word(h.size_dt_struct) as int;
    let sst = be_word(h.size_dt_strings) as int;
    let pos = value_pos(so, t);
    let pl = padded_len(len);
    let ps = crate::dtb::padded_size(value.len() as int);
    let inc = growth(len, value);
    let s0 = zero_bytes(be_word(h.totalsize) + inc);
    let src1 = d.subrange(0, 40);
    let s1 = write_at(s0, 0, src1);
    let src2 = d.subrange(rsv, so);
    let s2 = write_at(s1, rsv, src2);
    let src3 = d.subrange(so, pos);
    let s3 = write_at(s2, so, src3);
    let s4 = write_at(s3, pos - 12, be_bytes_of(FDT_PROP));
    let s5 = write_at(s4, pos - 8, be_bytes_of(value.len() as u32));
    let s6 = write_at(s5, pos - 4, be_bytes_of(no));
    let s7 = write_at(s6, pos, value);
    let src8 = d.subrange(pos + pl, so + ss);
    let s8 = write_at(s7, pos + ps, src8);
    let src9 = d.subrange(st, st + sst);
    let body = write_at(s8, st + inc, src9);
    assert(body == rebuilt_body(d, h, t, len, no, value));
    crate::dtb::lemma_padded_size_bounds(value.len() as int);
    lemma_write_at(s0, 0, src1);
    lemma_write_at(s1, rsv, src2);
    lemma_write_at(s2, so, src3);
    lemma_write_at(s3, pos - 12, be_bytes_of(FDT_PROP));
    lemma_write_at(s4, pos - 8, be_bytes_of(value.len() as u32));
    lemma_write_at(s5, pos - 4, be_bytes_of(no));
    lemma_write_at(s6, pos, value);
    lemma_write_at(s7, pos + ps, src8);
    lemma_write_at(s8, st + inc, src9);
    assert forall|i: int| pos + value.len() <= i < pos + ps implies #[trigger] body[i] == 0 by {
        assert(s0[i] == 0);
        assert(s1[i] == s0[i]);
        assert(s2[i] == s1[i]);
        assert(s3[i] == s2[i]);
        assert(s4[i] == s3[i]);
        assert(s5[i] == s4[i]);
        assert(s6[i] == s5[i]);
        assert(s7[i] == s6[i]);
        assert(s8[i] == s7[i]);
    }
}

/// A rebuild for a longer value keeps the structure block aligned: the
/// blob grows by a multiple of four (the padded new length less the padded
/// old one), the new value is padded with zeros to a four-byte boundary, and
/// every byte of the structure block after the old value moves by the
/// growth, so every later token stays on a word boundary. This holds for a
/// blob laid out as `lemma_modify_rebuild_reads_back` asks.
pub proof fn lemma_modify_rebuild_keeps_alignment(
    p: DtbParser,
    after: DtbParser,
    node_path: Seq<u8>,
    prop_name: Seq<u8>,
    value: Seq<u8>,
)
    requires
        p.modify_fits(node_path, prop_name, value),
        p.modify_outcome(after, true, node_path, prop_name, value),
        p.spec_header().bytes() == p.data().subrange(0, 40),
        be_word(p.spec_header().totalsize) == p.data().len(),
        40 <= p.struct_off(),
        p.struct_off() + be_word(p.spec_header().size_dt_struct) <= p.strings_off(),
        p.strings_off() + be_word(p.spec_header().size_dt_strings) == p.data().len(),
        value.len() <= u32::MAX,
        p.spec_locate(node_path, prop_name) matches Some((t, len, no)) && value.len() > padded_len(
            len,
        ) && p.strings_off() + growth(len, value) <= u32::MAX,
    ensures
        p.spec_locate(node_path, prop_name) matches Some((t, len, no)) && ({
            let inc = growth(len, value);
            let pos = value_pos(p.struct_off(), t);
            let d = p.data();
            let e = after.data();
            &&& inc > 0 && inc % 4 == 0
            &&& e.len() == d.len() + inc
            &&& forall|i: int| pos + value.len() <= i < pos + padded_len(len) + inc ==> #[trigger] e[i] == 0
            &&& forall|i: int|
                pos + padded_len(len) <= i < p.struct_off() + be_word(p.spec_header().size_dt_struct)
                    ==> #[trigger] d[i] == e[i + inc]
        }),
{
    let d = p.data();
    let e = after.data();
    let h = p.spec_header();
    let off = p.struct_off();
    let st = p.strings_off();
    let (t, len, no) = p.spec_locate(node_path, prop_name)->Some_0;
    let (s, end_d) = p.spec_find(node_path)->Some_0;
    let tgt = crate::dtb::trim_slashes(node_path);
    crate::dtb::lemma_find_walk_hit(d, off, tgt, 0, 0, Seq::empty());
    let co2 = s + 1 + name_words(d, off, s + 1);
    crate::dtb::lemma_prop_walk_hit(d, off, st, prop_name, co2, end_d);
    let body = rebuilt_body(d, h, t, len, no, value);
    let hb = rebuilt_header_bytes(d, h, t, len, no, value);
    lemma_rebuilt_body(d, h, t, len, no, value);
    lemma_rebuilt_padding(d, h, t, len, no, value);
    assert(hb.len() == 40);
    lemma_rebuild_tail(d, h, t, len, no, value, body, hb);
}

/// The tail of a rebuilt blob `body` whose header is then rewritten with the
/// 40 bytes `hb`: the growth is a positive multiple of four, the value's
/// padding is zero, and the structure block after the old value has moved
/// by the growth.
#[verifier::spinoff_prover]
pub proof fn lemma_rebuild_tail(
    d: Seq<u8>,
    h: FdtHeader,
    t: int,
    len: u32,
    no: u32,
    value: Seq<u8>,
    body: Seq<u8>,
    hb: Seq<u8>,
)
    requires
        rebuild_keeps(d, h, t, len, value),
        body_holds(d, h, t, len, no, value, body),
        forall|i: int|
            value_pos(be_word(h.off_dt_struct) as int, t) + value.len() <= i < value_pos(
                be_word(h.off_dt_struct) as int,
                t,
            ) + crate::dtb::padded_size(value.len() as int) ==> #[trigger] body[i] == 0,
        hb.len() == 40,
    ensures
        ({
            let inc = growth(len, value);
            let pos = value_pos(be_word(h.off_dt_struct) as int, t);
            let e = spliced(body, 0, hb);
            &&& inc > 0 && inc % 4 == 0
            &&& e.len() == d.len() + inc
            &&& forall|i: int| pos + value.len() <= i < pos + padded_len(len) + inc ==> #[trigger] e[i] == 0
            &&& forall|i: int|
                pos + padded_len(len) <= i < be_word(h.off_dt_struct) + be_word(h.size_dt_struct)
                    ==> #[trigger] d[i] == e[i + inc]
        }),
{
    let so = be_word(h.off_dt_struct) as int;
    let inc = growth(len, value);
    let pos = value_pos(so, t);
    let e = spliced(body, 0, hb);
    crate::dtb::lemma_padded_size_bounds(value.len() as int);
    assert(e.len() == body.len());
    assert forall|i: int| 40 <= i < body.len() implies #[trigger] e[i] == body[i] by {
    }
    assert(inc % 4 == 0) by (nonlinear_arith)
        requires
            inc == crate::dtb::padded_size(value.len() as int) - ((len + 3) / 4) * 4,
            crate::dtb::padded_size(value.len() as int) % 4 == 0,
    ;
    assert forall|i: int| pos + value.len() <= i < pos + padded_len(len) + inc implies #[trigger] e[i] == 0 by {
        assert(e[i] == body[i]);
    }
    assert forall|i: int|
        pos + padded_len(len) <= i < so + be_word(h.size_dt_struct) implies #[trigger] d[i] == e[i + inc] by {
        assert(body[i + inc] == d[i + inc - inc]);
        assert(e[i + inc] == body[i + inc]);
    }
}

} // verus!
