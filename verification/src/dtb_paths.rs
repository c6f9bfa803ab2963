//! How the node search and the dump keep track of a node's path: closing
//! a node drops only its own segment, so later siblings keep their parent's
//! path.
use crate::dtb::{join_path, name_bytes_at, name_words, skip_walk, token_at, walk_measure, FDT_BEGIN_NODE, FDT_END_NODE, FDT_NOP, FDT_PROP};
use vstd::prelude::*;

verus! {

/// The name of the node whose begin token is at word `co`, as the walks
/// read it.
pub open spec fn node_name_at(data: Seq<u8>, off: int, co: int) -> Seq<u8> {
    crate::dtb::utf8_lossy(name_bytes_at(data, off, co + 1))
}

/// Word offset just after the name of the node whose begin token is at
/// word `co`.
pub open spec fn after_name(data: Seq<u8>, off: int, co: int) -> int {
    co + 1 + name_words(data, off, co + 1)
}

/// Whether the node whose begin token is at word `co` has no content: its
/// name is directly followed by its end token.
pub open spec fn empty_node_at(data: Seq<u8>, off: int, co: int) -> bool {
    &&& token_at(data, off, co) == Some(FDT_BEGIN_NODE)
    &&& token_at(data, off, after_name(data, off, co)) == Some(FDT_END_NODE)
}

/// A node search that meets, below the root, a node without content that
/// is not the target goes on after it exactly as it was before it: at the
/// same depth, with the same path segments. Closing a node drops only its
/// own segment, so a later sibling's path keeps its parent's segments.
pub proof fn lemma_find_passes_empty_node(
    data: Seq<u8>,
    off: int,
    target: Seq<u8>,
    co: int,
    depth: int,
    segs: Seq<Seq<u8>>,
)
    requires
        0 <= co,
        after_name(data, off, co) + 1 <= usize::MAX,
        depth >= 1,
        empty_node_at(data, off, co),
        join_path(segs.push(node_name_at(data, off, co))) != target,
    ensures
        crate::dtb::find_walk(data, off, target, co, depth, segs) == crate::dtb::find_walk(
            data,
            off,
            target,
            after_name(data, off, co) + 1,
            depth,
            segs,
        ),
{
    let name = node_name_at(data, off, co);
    let co2 = after_name(data, off, co);
    let segs2 = segs.push(name);
    assert(crate::dtb::segs_after_begin(segs, depth, name) == segs2);
    assert(segs2.drop_last() =~= segs);
    assert(crate::dtb::segs_after_end(segs2, depth) == segs);
    assert(crate::dtb::find_walk(data, off, target, co, depth, segs) == crate::dtb::find_walk(
        data,
        off,
        target,
        co2,
        depth + 1,
        segs2,
    ));
}

/// A node search finds, below the root, the node at word `co` exactly when
/// the target is the path of its parent's segments followed by its name.
pub proof fn lemma_find_hits_named_node(
    data: Seq<u8>,
    off: int,
    target: Seq<u8>,
    co: int,
    depth: int,
    segs: Seq<Seq<u8>>,
)
    requires
        0 <= co <= usize::MAX,
        depth >= 1,
        token_at(data, off, co) == Some(FDT_BEGIN_NODE),
        join_path(segs.push(node_name_at(data, off, co))) == target,
    ensures
        crate::dtb::find_walk(data, off, target, co, depth, segs) == Some(
            (co, skip_walk(data, off, after_name(data, off, co), 1)),
        ),
{
    let name = node_name_at(data, off, co);
    assert(crate::dtb::segs_after_begin(segs, depth, name) == segs.push(name));
}

/// Of two sibling nodes below the root, the first without content, the
/// second is found by the path of the parent's segments followed by the
/// second's name (when the first has another name): e.g. after
/// `cpu@0 { }` closes, `cpus/cpu@1` is still found.
pub proof fn lemma_find_later_sibling(
    data: Seq<u8>,
    off: int,
    co: int,
    depth: int,
    segs: Seq<Seq<u8>>,
)
    requires
        0 <= co,
        after_name(data, off, co) + 1 <= usize::MAX,
        depth >= 1,
        empty_node_at(data, off, co),
        token_at(data, off, after_name(data, off, co) + 1) == Some(FDT_BEGIN_NODE),
        join_path(segs.push(node_name_at(data, off, co))) != join_path(
            segs.push(node_name_at(data, off, after_name(data, off, co) + 1)),
        ),
    ensures
        ({
            let c2 = after_name(data, off, co) + 1;
            crate::dtb::find_walk(
                data,
                off,
                join_path(segs.push(node_name_at(data, off, c2))),
                co,
                depth,
                segs,
            ) == Some((c2, skip_walk(data, off, after_name(data, off, c2), 1)))
        }),
{
    let c2 = after_name(data, off, co) + 1;
    let target = join_path(segs.push(node_name_at(data, off, c2)));
    lemma_find_passes_empty_node(data, off, target, co, depth, segs);
    lemma_find_hits_named_node(data, off, target, c2, depth, segs);
}

/// A dump that meets, below the root, a node without content lists the
/// node with its depth, its name and the path `/` followed by its parent's
/// segments and its name, then goes on after it exactly as it was before
/// it: at the same depth, with the same path segments.
pub proof fn lemma_dump_passes_empty_node(
    data: Seq<u8>,
    off: int,
    str_off: int,
    co: int,
    depth: int,
    segs: Seq<Seq<u8>>,
)
    requires
        0 <= co,
        after_name(data, off, co) + 1 <= usize::MAX,
        depth >= 1,
        empty_node_at(data, off, co),
    ensures
        ({
            let name = node_name_at(data, off, co);
            let rest = crate::dtb::dump_walk(data, off, str_off, after_name(data, off, co) + 1, depth, segs);
            crate::dtb::dump_walk(data, off, str_off, co, depth, segs) == (
                seq![crate::dtb::DumpItem::Node { depth, name, path: seq![crate::dtb::SLASH] + join_path(segs.push(name)) }]
                    + rest.0,
                rest.1,
            )
        }),
{
    let name = node_name_at(data, off, co);
    let co2 = after_name(data, off, co);
    let segs2 = segs.push(name);
    assert(segs2.drop_last() =~= segs);
    let inner = crate::dtb::dump_walk(data, off, str_off, co2, depth + 1, segs2);
    assert(inner == crate::dtb::dump_walk(data, off, str_off, co2 + 1, depth, segs));
}

} // verus!

verus! {

/// Word offset reached by stepping over the properties and no-op words that
/// start at word `c`: the first word that is neither.
pub open spec fn after_props(data: Seq<u8>, off: int, c: int) -> int
    decreases walk_measure(c),
{
    if c < 0 || c > usize::MAX {
        c
    } else {
        match token_at(data, off, c) {
            Some(t) => if t == FDT_NOP {
                after_props(data, off, c + 1)
            } else if t == FDT_PROP {
                match token_at(data, off, c + 1) {
                    Some(len) => match token_at(data, off, c + 2) {
                        Some(_) => after_props(data, off, c + 3 + (len + 3) / 4),
                        None => c,
                    },
                    None => c,
                }
            } else {
                c
            },
            None => c,
        }
    }
}

/// A node search steps over properties and no-op words without changing
/// its depth or path segments.
pub proof fn lemma_find_steps_over_props(
    data: Seq<u8>,
    off: int,
    target: Seq<u8>,
    c: int,
    depth: int,
    segs: Seq<Seq<u8>>,
)
    requires
        0 <= c,
        after_props(data, off, c) <= usize::MAX,
    ensures
        crate::dtb::find_walk(data, off, target, c, depth, segs) == crate::dtb::find_walk(
            data,
            off,
            target,
            after_props(data, off, c),
            depth,
            segs,
        ),
    decreases walk_measure(c),
{
    if c > usize::MAX {
    } else {
        match token_at(data, off, c) {
            Some(t) => if t == FDT_NOP {
                lemma_after_props_advances(data, off, c + 1);
                lemma_find_steps_over_props(data, off, target, c + 1, depth, segs);
            } else if t == FDT_PROP {
                match token_at(data, off, c + 1) {
                    Some(len) => match token_at(data, off, c + 2) {
                        Some(_) => {
                            let n = c + 3 + (len + 3) / 4;
                            lemma_after_props_advances(data, off, n);
                            lemma_find_steps_over_props(data, off, target, n, depth, segs);
                        },
                        None => {},
                    },
                    None => {},
                }
            } else {
            },
            None => {},
        }
    }
}

/// Stepping over properties never goes back.
pub proof fn lemma_after_props_advances(data: Seq<u8>, off: int, c: int)
    ensures
        after_props(data, off, c) >= c,
    decreases walk_measure(c),
{
    if c < 0 || c > usize::MAX {
    } else {
        match token_at(data, off, c) {
            Some(t) => if t == FDT_NOP {
                lemma_after_props_advances(data, off, c + 1);
            } else if t == FDT_PROP {
                match token_at(data, off, c + 1) {
                    Some(len) => match token_at(data, off, c + 2) {
                        Some(_) => lemma_after_props_advances(data, off, c + 3 + (len + 3) / 4),
                        None => {},
                    },
                    None => {},
                }
            } else {
            },
            None => {},
        }
    }
}

/// A node search that meets, below the root, a node holding only
/// properties (no child node) that is not the target goes on after the
/// node's end exactly as it was before the node: at the same depth, with
/// the same path segments. So in `cpus { cpu@0 { reg = <0>; }; cpu@1 { ..
/// }; }` the search for `cpus/cpu@1` still has `cpus` in its path when it
/// reaches `cpu@1`.
pub proof fn lemma_find_passes_leaf_node(
    data: Seq<u8>,
    off: int,
    target: Seq<u8>,
    co: int,
    depth: int,
    segs: Seq<Seq<u8>>,
)
    requires
        0 <= co,
        after_props(data, off, after_name(data, off, co)) + 1 <= usize::MAX,
        depth >= 1,
        token_at(data, off, co) == Some(FDT_BEGIN_NODE),
        token_at(data, off, after_props(data, off, after_name(data, off, co))) == Some(FDT_END_NODE),
        join_path(segs.push(node_name_at(data, off, co))) != target,
    ensures
        crate::dtb::find_walk(data, off, target, co, depth, segs) == crate::dtb::find_walk(
            data,
            off,
            target,
            after_props(data, off, after_name(data, off, co)) + 1,
            depth,
            segs,
        ),
{
    let name = node_name_at(data, off, co);
    let co2 = after_name(data, off, co);
    let e = after_props(data, off, co2);
    let segs2 = segs.push(name);
    lemma_after_props_advances(data, off, co2);
    assert(crate::dtb::segs_after_begin(segs, depth, name) == segs2);
    assert(segs2.drop_last() =~= segs);
    assert(crate::dtb::segs_after_end(segs2, depth) == segs);
    assert(crate::dtb::find_walk(data, off, target, co, depth, segs) == crate::dtb::find_walk(
        data,
        off,
        target,
        co2,
        depth + 1,
        segs2,
    ));
    lemma_find_steps_over_props(data, off, target, co2, depth + 1, segs2);
    assert(crate::dtb::find_walk(data, off, target, e, depth + 1, segs2) == crate::dtb::find_walk(
        data,
        off,
        target,
        e + 1,
        depth,
        segs,
    ));
}

} // verus!
