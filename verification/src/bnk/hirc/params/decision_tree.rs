//! Decision tree types for DialogueEvent and MusicSwitch.
//!
//! On disk a tree is a flat array of 12-byte nodes: the root level first,
//! then, for each node in order, the levels below it. Each node holds a key,
//! then either an audio node ID or a packed (children index, children count),
//! then a weight and a probability.

use vstd::prelude::*;

use crate::bytes::{group_bytes, spec_u16_from_le_bytes, spec_u16_to_le_bytes, spec_u32_from_le_bytes, spec_u32_to_le_bytes};
use crate::error::{Error, Result};
use super::super::reader::BinaryReader;
use super::super::writer::BinaryWriter;

verus! {

broadcast use group_bytes, BinaryReader::lemma_pos_nonneg;

/// A node in a decision tree (AkDecisionTree).
#[derive(Debug)]
pub struct DecisionTreeNode {
    pub key: u32,
    pub is_audio_node: bool,
    pub audio_node_id: u32,
    pub children_idx: u16,
    pub children_count: u16,
    pub weight: u16,
    pub probability: u16,
    pub children: Vec<DecisionTreeNode>,
}

/// Decision tree used in MusicSwitch and DialogueEvent.
#[derive(Debug)]
pub struct DecisionTree {
    pub mode: u8,
    pub root_nodes: Vec<DecisionTreeNode>,
    pub raw_tree_data: Option<Vec<u8>>,
}

/// The size of one node on disk.
pub const TREE_ITEM_SIZE: u32 = 0x0c;

// ── The node array on disk ──

/// The little-endian `u32` at `p`.
pub open spec fn le32(d: Seq<u8>, p: int) -> u32 {
    spec_u32_from_le_bytes(d.subrange(p, p + 4))
}

/// The little-endian `u16` at `p`.
pub open spec fn le16(d: Seq<u8>, p: int) -> u16 {
    spec_u16_from_le_bytes(d.subrange(p, p + 2))
}

/// A node whose packed word is `next` is an audio node: its children index
/// or count exceeds the node count, or the tree is at its maximum depth.
pub open spec fn node_is_audio(next: u32, count_max: u32, cur: u32, max: u32) -> bool {
    next % 0x10000 > count_max || next / 0x10000 > count_max || cur >= max
}

/// The number of children read below the node at `q`.
pub open spec fn node_children(d: Seq<u8>, q: int, count_max: u32, cur: u32, max: u32) -> int {
    let next = le32(d, q + 4);
    if node_is_audio(next, count_max, cur, max) {
        0
    } else {
        (next / 0x10000) as int
    }
}

/// Where reading `count` node headers from `p` stops when they do not all
/// fit: at the first field of the first node that does not fit.
pub open spec fn header_fail_pos(d: Seq<u8>, p: int) -> int {
    let i = (d.len() - p) / 12;
    let q = p + 12 * i;
    if d.len() - q < 4 {
        q
    } else if d.len() - q < 8 {
        q + 4
    } else if d.len() - q < 10 {
        q + 8
    } else {
        q + 10
    }
}

/// Reading a level of `count` nodes at `p`: whether it succeeds, and where
/// the reader stands afterwards (past the level and all levels below it, or
/// where a read failed).
pub open spec fn level_parse(d: Seq<u8>, p: int, count: int, count_max: u32, cur: u32, max: u32) -> (bool, int)
    decreases max - cur, count + 1,
{
    if count < 0 {
        (true, p)
    } else if p + 12 * count > d.len() {
        (false, header_fail_pos(d, p))
    } else {
        children_parse(d, p, count, count_max, cur, max, 0, p + 12 * count)
    }
}

/// Reading the levels below nodes `i..count` of the level at `p`, starting
/// at `c`.
pub open spec fn children_parse(
    d: Seq<u8>,
    p: int,
    count: int,
    count_max: u32,
    cur: u32,
    max: u32,
    i: int,
    c: int,
) -> (bool, int)
    decreases max - cur, count - i,
{
    if i >= count || i < 0 {
        (true, c)
    } else {
        let k = node_children(d, p + 12 * i, count_max, cur, max);
        if k == 0 || cur >= max {
            children_parse(d, p, count, count_max, cur, max, i + 1, c)
        } else {
            let r = level_parse(d, c, k, count_max, (cur + 1) as u32, max);
            if !r.0 {
                (false, r.1)
            } else {
                children_parse(d, p, count, count_max, cur, max, i + 1, r.1)
            }
        }
    }
}

/// Where the level below node `i` of the level at `p` starts.
pub open spec fn cursor_before(d: Seq<u8>, p: int, count: int, count_max: u32, cur: u32, max: u32, i: int) -> int
    decreases i,
{
    if i <= 0 {
        p + 12 * count
    } else {
        let c = cursor_before(d, p, count, count_max, cur, max, i - 1);
        let k = node_children(d, p + 12 * (i - 1), count_max, cur, max);
        if k == 0 || cur >= max {
            c
        } else {
            level_parse(d, c, k, count_max, (cur + 1) as u32, max).1
        }
    }
}

/// `n` holds the header of the node at `q`.
pub open spec fn node_header_is(n: DecisionTreeNode, d: Seq<u8>, q: int, count_max: u32, cur: u32, max: u32) -> bool {
    let next = le32(d, q + 4);
    &&& n.key == le32(d, q)
    &&& n.weight == le16(d, q + 8)
    &&& n.probability == le16(d, q + 10)
    &&& if node_is_audio(next, count_max, cur, max) {
        &&& n.is_audio_node
        &&& n.audio_node_id == next
        &&& n.children_idx == 0
        &&& n.children_count == 0
    } else {
        &&& !n.is_audio_node
        &&& n.audio_node_id == 0
        &&& n.children_idx == next % 0x10000
        &&& n.children_count == next / 0x10000
    }
}

/// `nodes` is the level of `count` nodes read at `p`, with the levels below.
pub open spec fn nodes_read(d: Seq<u8>, p: int, count: int, count_max: u32, cur: u32, max: u32, nodes: Seq<DecisionTreeNode>) -> bool
    decreases max - cur,
{
    &&& nodes.len() == count
    &&& forall|i: int|
        0 <= i < count ==> {
            let k = node_children(d, p + 12 * i, count_max, cur, max);
            &&& node_header_is(#[trigger] nodes[i], d, p + 12 * i, count_max, cur, max)
            &&& if k == 0 || cur >= max {
                nodes[i].children@.len() == 0
            } else {
                nodes_read(
                    d,
                    cursor_before(d, p, count, count_max, cur, max, i),
                    k,
                    count_max,
                    (cur + 1) as u32,
                    max,
                    nodes[i].children@,
                )
            }
        }
}

/// Node `i` of the level at `p` holds its header, and the level read below
/// it when it has children.
pub open spec fn node_read_at(d: Seq<u8>, p: int, count: int, count_max: u32, cur: u32, max: u32, i: int, n: DecisionTreeNode) -> bool {
    let k = node_children(d, p + 12 * i, count_max, cur, max);
    &&& node_header_is(n, d, p + 12 * i, count_max, cur, max)
    &&& if k == 0 || cur >= max {
        n.children@.len() == 0
    } else {
        nodes_read(d, cursor_before(d, p, count, count_max, cur, max, i), k, count_max, (cur + 1) as u32, max, n.children@)
    }
}

proof fn lemma_split_next(next: u32)
    ensures
        next & 0xFFFF == next % 0x10000,
        (next >> 16) & 0xFFFF == next / 0x10000,
        (next & 0xFFFF) as u16 as u32 == next % 0x10000,
        ((next >> 16) & 0xFFFF) as u16 as u32 == next / 0x10000,
{
    assert(next & 0xFFFF == next % 0x10000) by (bit_vector);
    assert((next >> 16) & 0xFFFF == next / 0x10000) by (bit_vector);
}

impl DecisionTree {
    /// Read a level of `count` nodes and, for each node in turn, the level
    /// below it.
    fn parse_nodes(
        r: &mut BinaryReader,
        count: u32,
        count_max: u32,
        cur_depth: u32,
        max_depth: u32,
    ) -> (res: Result<Vec<DecisionTreeNode>>)
        requires
            cur_depth <= max_depth,
        ensures
            final(r).data() == old(r).data(),
            ({
                let lp = level_parse(old(r).data(), old(r).pos(), count as int, count_max, cur_depth, max_depth);
                &&& final(r).pos() == lp.1
                &&& match res {
                    Ok(nodes) => lp.0 && nodes_read(old(r).data(), old(r).pos(), count as int, count_max, cur_depth, max_depth, nodes@),
                    Err(_) => !lp.0,
                }
            }),
        decreases max_depth - cur_depth,
    {
        let ghost d = r.data();
        let ghost p = r.pos();
        let _ = r.position();
        let mut infos: Vec<(u32, u32, u16, u16, u16)> = Vec::new();
        let mut i: u32 = 0;
        while i < count
            invariant
                r.data() == d,
                d == old(r).data(),
                p == old(r).pos(),
                p >= 0,
                cur_depth <= max_depth,
                i <= count,
                r.pos() == p + 12 * i,
                r.pos() <= d.len(),
                infos@.len() == i,
                forall|j: int|
                    0 <= j < i ==> (#[trigger] infos@[j]).0 == le32(d, p + 12 * j) && infos@[j].1
                        == le32(d, p + 12 * j + 4) && infos@[j].2 == le16(d, p + 12 * j + 8)
                        && infos@[j].3 == le16(d, p + 12 * j + 10) && infos@[j].4 == node_children(
                        d,
                        p + 12 * j,
                        count_max,
                        cur_depth,
                        max_depth,
                    ),
            decreases count - i,
        {
            let ghost q = p + 12 * i;
            proof {
                assert((d.len() - p) / 12 == i ==> true);
            }
            let key = match r.read_u32() {
                Ok(v) => v,
                Err(e) => {
                    proof { lemma_header_fail(d, p, i as int, count as int, 0); }
                    return Err(e);
                },
            };
            let next_val = match r.read_u32() {
                Ok(v) => v,
                Err(e) => {
                    proof { lemma_header_fail(d, p, i as int, count as int, 4); }
                    return Err(e);
                },
            };
            let weight = match r.read_u16() {
                Ok(v) => v,
                Err(e) => {
                    proof { lemma_header_fail(d, p, i as int, count as int, 8); }
                    return Err(e);
                },
            };
            let probability = match r.read_u16() {
                Ok(v) => v,
                Err(e) => {
                    proof { lemma_header_fail(d, p, i as int, count as int, 10); }
                    return Err(e);
                },
            };
            proof {
                lemma_split_next(next_val);
            }
            let uidx = (next_val & 0xFFFF) as u16;
            let ucnt = ((next_val >> 16) & 0xFFFF) as u16;
            let is_audio = uidx as u32 > count_max || ucnt as u32 > count_max || cur_depth == max_depth;
            let child_count: u16 = if is_audio { 0 } else { ucnt };
            infos.push((key, next_val, weight, probability, child_count));
            i = i + 1;
        }
        let ghost c0 = p + 12 * count;
        assert(level_parse(d, p, count as int, count_max, cur_depth, max_depth) == children_parse(d, p, count as int, count_max, cur_depth, max_depth, 0, c0));
        let mut nodes: Vec<DecisionTreeNode> = Vec::new();
        let mut i: u32 = 0;
        while i < count
            invariant
                r.data() == d,
                d == old(r).data(),
                p == old(r).pos(),
                p >= 0,
                cur_depth <= max_depth,
                p + 12 * count <= d.len(),
                i <= count,
                infos@.len() == count,
                forall|j: int|
                    0 <= j < count ==> (#[trigger] infos@[j]).0 == le32(d, p + 12 * j) && infos@[j].1
                        == le32(d, p + 12 * j + 4) && infos@[j].2 == le16(d, p + 12 * j + 8)
                        && infos@[j].3 == le16(d, p + 12 * j + 10) && infos@[j].4 == node_children(
                        d,
                        p + 12 * j,
                        count_max,
                        cur_depth,
                        max_depth,
                    ),
                c0 == p + 12 * count,
                level_parse(d, p, count as int, count_max, cur_depth, max_depth) == children_parse(d, p, count as int, count_max, cur_depth, max_depth, 0, c0),
                r.pos() == cursor_before(d, p, count as int, count_max, cur_depth, max_depth, i as int),
                children_parse(d, p, count as int, count_max, cur_depth, max_depth, 0, c0)
                    == children_parse(d, p, count as int, count_max, cur_depth, max_depth, i as int, r.pos()),
                nodes@.len() == i,
                forall|j: int|
                    0 <= j < i ==> node_read_at(d, p, count as int, count_max, cur_depth, max_depth, j, #[trigger] nodes@[j]),
            decreases count - i,
        {
            let (key, next_val, weight, probability, child_count) = infos[i as usize];
            let ghost c = r.pos();
            proof {
                lemma_split_next(next_val);
            }
            let children = if child_count > 0 {
                match Self::parse_nodes(r, child_count as u32, count_max, cur_depth + 1, max_depth) {
                    Ok(v) => v,
                    Err(e) => {
                        proof {
                            let k = node_children(d, p + 12 * i, count_max, cur_depth, max_depth);
                            assert(k == child_count);
                            assert(cur_depth < max_depth);
                            let lp = level_parse(d, c, k, count_max, (cur_depth + 1) as u32, max_depth);
                            assert(!lp.0);
                            assert(children_parse(d, p, count as int, count_max, cur_depth, max_depth, i as int, c) == (false, lp.1));
                        }
                        return Err(e);
                    },
                }
            } else {
                Vec::new()
            };
            let is_audio = !(child_count > 0) && ((next_val & 0xFFFF) as u32 > count_max
                || ((next_val >> 16) & 0xFFFF) as u32 > count_max || cur_depth == max_depth);
            let node = if is_audio {
                DecisionTreeNode {
                    key,
                    is_audio_node: true,
                    audio_node_id: next_val,
                    children_idx: 0,
                    children_count: 0,
                    weight,
                    probability,
                    children,
                }
            } else {
                DecisionTreeNode {
                    key,
                    is_audio_node: false,
                    audio_node_id: 0,
                    children_idx: (next_val & 0xFFFF) as u16,
                    children_count: ((next_val >> 16) & 0xFFFF) as u16,
                    weight,
                    probability,
                    children,
                }
            };
            nodes.push(node);
            assert(node_read_at(d, p, count as int, count_max, cur_depth, max_depth, i as int, nodes@[i as int]));
            i = i + 1;
        }
        proof {
            assert(nodes_read(d, p, count as int, count_max, cur_depth, max_depth, nodes@));
        }
        Ok(nodes)
    }
}

proof fn lemma_level_parse_bounds(d: Seq<u8>, p: int, count: int, count_max: u32, cur: u32, max: u32)
    requires
        0 <= p <= d.len(),
    ensures
        p <= level_parse(d, p, count, count_max, cur, max).1 <= d.len(),
    decreases max - cur, count + 1,
{
    if count < 0 {
    } else if p + 12 * count > d.len() {
        assert(0 <= (d.len() - p) / 12) by (nonlinear_arith)
            requires d.len() - p >= 0;
        assert(12 * ((d.len() - p) / 12) <= d.len() - p) by (nonlinear_arith)
            requires d.len() - p >= 0;
    } else {
        lemma_children_parse_bounds(d, p, count, count_max, cur, max, 0, p + 12 * count);
    }
}

proof fn lemma_children_parse_bounds(d: Seq<u8>, p: int, count: int, count_max: u32, cur: u32, max: u32, i: int, c: int)
    requires
        0 <= c <= d.len(),
    ensures
        c <= children_parse(d, p, count, count_max, cur, max, i, c).1 <= d.len(),
    decreases max - cur, count - i,
{
    if i >= count || i < 0 {
    } else {
        let k = node_children(d, p + 12 * i, count_max, cur, max);
        if k == 0 || cur >= max {
            lemma_children_parse_bounds(d, p, count, count_max, cur, max, i + 1, c);
        } else {
            lemma_level_parse_bounds(d, c, k, count_max, (cur + 1) as u32, max);
            let r = level_parse(d, c, k, count_max, (cur + 1) as u32, max);
            if r.0 {
                lemma_children_parse_bounds(d, p, count, count_max, cur, max, i + 1, r.1);
            }
        }
    }
}

/// What reading a tree of `size` bytes at `p` with maximum depth `depth`
/// gives: nothing when the size holds no whole node; else the nodes when
/// they can all be read; else the `size` bytes less those already consumed,
/// taken raw from where reading failed (the count wrapping around as a
/// `u64` when more than `size` bytes were consumed).
pub open spec fn tree_read(d: Seq<u8>, p: int, depth: u32, size: u32, res: Result<DecisionTree>, end: int) -> bool {
    let count_max = size / 12;
    if count_max == 0 {
        &&& res matches Ok(t) && t.mode == 0 && t.root_nodes@.len() == 0 && t.raw_tree_data is None
        &&& end == p
    } else {
        let lp = level_parse(d, p, 1, count_max, 0, depth);
        if lp.0 {
            &&& res matches Ok(t) && t.mode == 0 && nodes_read(d, p, 1, count_max, 0, depth, t.root_nodes@)
                && t.raw_tree_data is None
            &&& end == lp.1
        } else {
            let fp = lp.1;
            let remaining = vstd::wrapping::u64_specs::wrapping_sub(size as u64, (fp - p) as u64);
            if fp + remaining <= d.len() {
                &&& res matches Ok(t) && t.mode == 0 && t.root_nodes@.len() == 0
                    && (t.raw_tree_data matches Some(raw) && raw@ == d.subrange(fp, fp + remaining))
                &&& end == fp + remaining
            } else {
                &&& res == Err::<DecisionTree, Error>(
                    Error::UnexpectedEof {
                        offset: fp as u64,
                        needed: remaining,
                        available: (d.len() - fp) as u64,
                    },
                )
                &&& end == fp
            }
        }
    }
}

/// Reading a tree of `size` bytes at `p` with maximum depth `depth`
/// succeeds.
pub open spec fn tree_read_ok(d: Seq<u8>, p: int, depth: u32, size: u32) -> bool {
    let count_max = size / 12;
    let lp = level_parse(d, p, 1, count_max, 0, depth);
    let fp = lp.1;
    ||| count_max == 0
    ||| lp.0
    ||| fp + vstd::wrapping::u64_specs::wrapping_sub(size as u64, (fp - p) as u64) <= d.len()
}

/// Where reading a tree of `size` bytes at `p` that succeeds ends.
pub open spec fn tree_read_end(d: Seq<u8>, p: int, depth: u32, size: u32) -> int {
    let count_max = size / 12;
    let lp = level_parse(d, p, 1, count_max, 0, depth);
    let fp = lp.1;
    if count_max == 0 {
        p
    } else if lp.0 {
        lp.1
    } else {
        fp + vstd::wrapping::u64_specs::wrapping_sub(size as u64, (fp - p) as u64)
    }
}

impl DecisionTree {
    /// Read a tree of `tree_data_size` bytes whose levels go at most `depth`
    /// deep. When the nodes cannot all be read, the rest of the tree's bytes
    /// are kept raw, counted from where reading failed.
    pub fn read(r: &mut BinaryReader, depth: u32, tree_data_size: u32) -> (res: Result<Self>)
        ensures
            final(r).data() == old(r).data(),
            tree_read(old(r).data(), old(r).pos(), depth, tree_data_size, res, final(r).pos()),
            res is Ok <==> tree_read_ok(old(r).data(), old(r).pos(), depth, tree_data_size),
            res is Ok ==> final(r).pos() == tree_read_end(old(r).data(), old(r).pos(), depth, tree_data_size),
    {
        let count_max = tree_data_size / TREE_ITEM_SIZE;
        if count_max == 0 {
            return Ok(DecisionTree { mode: 0, root_nodes: Vec::new(), raw_tree_data: None });
        }
        let start_pos = r.position();
        match Self::parse_nodes(r, 1, count_max, 0, depth) {
            Ok(nodes) => Ok(DecisionTree { mode: 0, root_nodes: nodes, raw_tree_data: None }),
            Err(_) => {
                let pos = r.position();
                proof {
                    lemma_level_parse_bounds(r.data(), start_pos as int, 1, count_max, 0, depth);
                }
                let consumed = pos - start_pos;
                let remaining = (tree_data_size as u64).wrapping_sub(consumed as u64);
                let available = r.remaining();
                if remaining > available as u64 {
                    return Err(
                        Error::UnexpectedEof { offset: pos as u64, needed: remaining, available: available as u64 },
                    );
                }
                let raw = match r.read_bytes(remaining as usize) {
                    Ok(b) => b,
                    Err(e) => {
                        return Err(e);
                    },
                };
                Ok(
                    DecisionTree {
                        mode: 0,
                        root_nodes: Vec::new(),
                        raw_tree_data: Some(vstd::slice::slice_to_vec(raw)),
                    },
                )
            },
        }
    }
}

// ── Writing ──

/// The 12 bytes of a node with the given packed word.
pub open spec fn node_bytes(key: u32, word: u32, weight: u16, probability: u16) -> Seq<u8> {
    spec_u32_to_le_bytes(key) + spec_u32_to_le_bytes(word) + spec_u16_to_le_bytes(weight)
        + spec_u16_to_le_bytes(probability)
}

/// The word a node writes as it stands: its audio node ID, or its children
/// index and count packed.
pub open spec fn node_word(n: DecisionTreeNode) -> u32 {
    if n.is_audio_node {
        n.audio_node_id
    } else {
        (n.children_idx + n.children_count * 0x10000) as u32
    }
}

/// The nodes of a tree level by level as the writer lays them out: the
/// level itself, then for each node in turn the nodes below it.
pub open spec fn flatten(nodes: Seq<DecisionTreeNode>) -> Seq<DecisionTreeNode>
    decreases nodes, nodes.len() + 1,
{
    nodes + flatten_below(nodes, 0)
}

/// The nodes below nodes `i..` of a level, each subtree in turn.
pub open spec fn flatten_below(nodes: Seq<DecisionTreeNode>, i: int) -> Seq<DecisionTreeNode>
    decreases nodes, nodes.len() - i,
{
    if i >= nodes.len() || i < 0 {
        Seq::empty()
    } else {
        let below = if nodes[i].children@.len() > 0 {
            proof {
                assert(decreases_to!(nodes => nodes[i]));
            }
            flatten(nodes[i].children@)
        } else {
            Seq::empty()
        };
        below + flatten_below(nodes, i + 1)
    }
}

/// A node whose children index and count are rewritten on write.
pub open spec fn reindexed(n: DecisionTreeNode) -> bool {
    !n.is_audio_node && n.children@.len() > 0
}

/// The children index after the flattened nodes `i..` are numbered from
/// `next`: each rewritten node takes the next indices for its children.
pub open spec fn index_after(flat: Seq<DecisionTreeNode>, i: int, next: int) -> int
    decreases flat.len() - i,
{
    if i >= flat.len() || i < 0 {
        next
    } else if reindexed(flat[i]) {
        index_after(flat, i + 1, next + flat[i].children@.len() as u16)
    } else {
        index_after(flat, i + 1, next)
    }
}

/// The bytes of the flattened nodes `i..`, numbering children from `next`.
pub open spec fn flat_bytes(flat: Seq<DecisionTreeNode>, i: int, next: int) -> Seq<u8>
    decreases flat.len() - i,
{
    if i >= flat.len() || i < 0 {
        Seq::empty()
    } else {
        let n = flat[i];
        if reindexed(n) {
            let cnt = n.children@.len() as u16;
            node_bytes(n.key, (next + cnt * 0x10000) as u32, n.weight, n.probability) + flat_bytes(
                flat,
                i + 1,
                next + cnt,
            )
        } else {
            node_bytes(n.key, node_word(n), n.weight, n.probability) + flat_bytes(flat, i + 1, next)
        }
    }
}

/// The bytes the writer produces for a tree: its raw data when it has any,
/// else its nodes flattened with children numbered from 1.
pub open spec fn tree_bytes(t: DecisionTree) -> Seq<u8> {
    match t.raw_tree_data {
        Some(raw) => raw@,
        None => {
            let flat = flatten(t.root_nodes@);
            flat_bytes(flat, 0, 1)
        },
    }
}

/// The children numbering of a tree fits in 16 bits.
pub open spec fn tree_writable(t: DecisionTree) -> bool {
    t.raw_tree_data is None ==> index_after(flatten(t.root_nodes@), 0, 1) <= u16::MAX
}

proof fn lemma_index_after_monotone(flat: Seq<DecisionTreeNode>, i: int, next: int)
    ensures
        next <= index_after(flat, i, next),
    decreases flat.len() - i,
{
    if i < flat.len() && i >= 0 {
        if reindexed(flat[i]) {
            lemma_index_after_monotone(flat, i + 1, next + flat[i].children@.len() as u16);
        } else {
            lemma_index_after_monotone(flat, i + 1, next);
        }
    }
}

impl DecisionTreeNode {
    /// Write the node as it stands.
    pub fn write(&self, w: &mut BinaryWriter)
        ensures
            final(w)@ == old(w)@ + node_bytes(self.key, node_word(*self), self.weight, self.probability),
    {
        w.write_u32(self.key);
        if self.is_audio_node {
            w.write_u32(self.audio_node_id);
        } else {
            let idx = self.children_idx as u32;
            let cnt = self.children_count as u32;
            assert(idx | (cnt << 16) == idx + cnt * 0x10000) by (bit_vector)
                requires idx < 0x10000, cnt < 0x10000;
            w.write_u32(idx | (cnt << 16));
        }
        w.write_u16(self.weight);
        w.write_u16(self.probability);
    }
}

impl DecisionTree {
    /// Write the tree: its raw data when it has any, else its nodes level by
    /// level (each level, then the nodes below each of its nodes), children
    /// numbered from 1 in that order.
    pub fn write(&self, w: &mut BinaryWriter, _depth: u32)
        requires
            tree_writable(*self),
        ensures
            final(w)@ == old(w)@ + tree_bytes(*self),
    {
        if let Some(raw) = &self.raw_tree_data {
            w.write_bytes(raw.as_slice());
            return;
        }
        let mut all_nodes: Vec<&DecisionTreeNode> = Vec::new();
        Self::collect_nodes(self.root_nodes.as_slice(), &mut all_nodes);
        let ghost flat = flatten(self.root_nodes@);
        assert(derefs(all_nodes@) =~= flat);
        let mut current_index: u16 = 1;
        let mut i: usize = 0;
        proof {
            lemma_index_after_monotone(flat, 0, 1);
        }
        while i < all_nodes.len()
            invariant
                derefs(all_nodes@) == flat,
                i <= all_nodes@.len(),
                index_after(flat, i as int, current_index as int) == index_after(flat, 0, 1),
                index_after(flat, 0, 1) <= u16::MAX,
                old(w)@ + flat_bytes(flat, 0, 1) == w@ + flat_bytes(flat, i as int, current_index as int),
            decreases all_nodes@.len() - i,
        {
            let node = all_nodes[i];
            assert(*node == flat[i as int]);
            let ghost prev = w@;
            if !node.is_audio_node && node.children.len() > 0 {
                proof {
                    lemma_index_after_monotone(flat, i + 1, current_index + flat[i as int].children@.len() as u16);
                }
                let cnt = node.children.len() as u16;
                let idx = current_index as u32;
                let c = cnt as u32;
                assert(idx | (c << 16) == idx + c * 0x10000) by (bit_vector)
                    requires idx < 0x10000, c < 0x10000;
                w.write_u32(node.key);
                w.write_u32(idx | (c << 16));
                w.write_u16(node.weight);
                w.write_u16(node.probability);
                current_index = current_index + cnt;
            } else {
                node.write(w);
            }
            assert(old(w)@ + flat_bytes(flat, 0, 1) =~= w@ + flat_bytes(flat, i + 1, current_index as int));
            i = i + 1;
        }
        assert(flat_bytes(flat, all_nodes@.len() as int, current_index as int) =~= Seq::<u8>::empty());
        assert(w@ + Seq::<u8>::empty() =~= w@);
    }

    /// Appends the nodes of each level followed by the nodes below them.
    fn collect_nodes<'b>(nodes: &'b [DecisionTreeNode], out: &mut Vec<&'b DecisionTreeNode>)
        ensures
            derefs(final(out)@) == derefs(old(out)@) + flatten(nodes@),
        decreases nodes@,
    {
        let ghost start = derefs(out@);
        let mut i: usize = 0;
        while i < nodes.len()
            invariant
                i <= nodes@.len(),
                derefs(out@) == start + nodes@.subrange(0, i as int),
            decreases nodes@.len() - i,
        {
            let ghost prev = out@;
            let item = &nodes[i];
            out.push(item);
            assert(out@ == prev.push(item));
            assert(*item == nodes@[i as int]);
            assert(derefs(out@) =~= derefs(prev).push(nodes@[i as int]));
            assert(derefs(out@) =~= start + nodes@.subrange(0, i + 1));
            i = i + 1;
        }
        assert(nodes@.subrange(0, nodes@.len() as int) =~= nodes@);
        let mut i: usize = 0;
        while i < nodes.len()
            invariant
                i <= nodes@.len(),
                derefs(out@) == start + nodes@ + below_upto(nodes@, i as int),
            decreases nodes@.len() - i,
        {
            let node = &nodes[i];
            if node.children.len() > 0 {
                proof {
                    assert(decreases_to!(nodes@ => nodes@[i as int]));
                }
                Self::collect_nodes(node.children.as_slice(), out);
            }
            assert(derefs(out@) =~= start + nodes@ + below_upto(nodes@, i + 1));
            i = i + 1;
        }
        proof {
            lemma_below_upto(nodes@, nodes@.len() as int);
            assert(flatten_below(nodes@, nodes@.len() as int) =~= Seq::<DecisionTreeNode>::empty());
            assert(below_upto(nodes@, nodes@.len() as int) + Seq::<DecisionTreeNode>::empty() =~= below_upto(nodes@, nodes@.len() as int));
        }
    }
}

/// The nodes that references point to.
pub open spec fn derefs(s: Seq<&DecisionTreeNode>) -> Seq<DecisionTreeNode> {
    s.map_values(|x: &DecisionTreeNode| *x)
}

/// The nodes below node `j` of a level.
pub open spec fn below(nodes: Seq<DecisionTreeNode>, j: int) -> Seq<DecisionTreeNode> {
    if nodes[j].children@.len() > 0 {
        flatten(nodes[j].children@)
    } else {
        Seq::empty()
    }
}

/// The nodes below the first `i` nodes of a level, each subtree in turn.
pub open spec fn below_upto(nodes: Seq<DecisionTreeNode>, i: int) -> Seq<DecisionTreeNode>
    decreases i,
{
    if i <= 0 {
        Seq::empty()
    } else {
        below_upto(nodes, i - 1) + below(nodes, i - 1)
    }
}

proof fn lemma_below_upto(nodes: Seq<DecisionTreeNode>, i: int)
    requires
        0 <= i <= nodes.len(),
    ensures
        below_upto(nodes, i) + flatten_below(nodes, i) == flatten_below(nodes, 0),
    decreases i,
{
    if i > 0 {
        lemma_below_upto(nodes, i - 1);
        assert(flatten_below(nodes, i - 1) == below(nodes, i - 1) + flatten_below(nodes, i));
        assert(below_upto(nodes, i) + flatten_below(nodes, i) =~= below_upto(nodes, i - 1) + flatten_below(nodes, i - 1));
    } else {
        assert(below_upto(nodes, 0) + flatten_below(nodes, 0) =~= flatten_below(nodes, 0));
    }
}

proof fn lemma_header_fail(d: Seq<u8>, p: int, i: int, count: int, field: int)
    requires
        0 <= p,
        0 <= i < count,
        p + 12 * i <= d.len(),
        field == 0 ==> d.len() - (p + 12 * i) < 4,
        field == 4 ==> 4 <= d.len() - (p + 12 * i) < 8,
        field == 8 ==> 8 <= d.len() - (p + 12 * i) < 10,
        field == 10 ==> 10 <= d.len() - (p + 12 * i) < 12,
        field == 0 || field == 4 || field == 8 || field == 10,
    ensures
        p + 12 * count > d.len(),
        header_fail_pos(d, p) == p + 12 * i + field,
{
    assert((d.len() - p) / 12 == i) by (nonlinear_arith)
        requires
            12 * i <= d.len() - p < 12 * i + 12,
    ;
}

} // verus!
