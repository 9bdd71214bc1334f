//! Handles into a circuit's wires, and the byte layout of a list of them.
use vstd::prelude::*;

use crate::bytes::{le_at, lemma_le_round_trip, push_u64_le, read_u64_le, u64_le};

verus! {

/// A handle to one wire value: a cell of the witness grid, or a virtual
/// value allocated by the builder.
#[derive(Clone, Copy, Debug, PartialEq, Eq, Hash, Structural)]
pub enum Target {
    Wire { row: usize, column: usize },
    VirtualTarget { index: usize },
}

/// Bytes of one target: a tag byte (1 for a wire, 0 for a virtual target),
/// then its coordinates as little-endian 64-bit words.
pub open spec fn target_bytes(t: Target) -> Seq<u8> {
    match t {
        Target::Wire { row, column } => seq![1u8] + u64_le(row as u64) + u64_le(column as u64),
        Target::VirtualTarget { index } => seq![0u8] + u64_le(index as u64),
    }
}

/// The bytes of the targets of `ts`, one after the other.
pub open spec fn items_bytes(ts: Seq<Target>) -> Seq<u8>
    decreases ts.len(),
{
    if ts.len() == 0 {
        Seq::empty()
    } else {
        items_bytes(ts.drop_last()) + target_bytes(ts.last())
    }
}

/// A list of targets: its length as a little-endian 64-bit word, then the
/// targets.
pub open spec fn targets_bytes(ts: Seq<Target>) -> Seq<u8> {
    u64_le(ts.len() as u64) + items_bytes(ts)
}

/// The target whose bytes start at `p`, and the position after them.
pub open spec fn parse_target(b: Seq<u8>, p: int) -> Option<(Target, int)> {
    if p < 0 || p >= b.len() {
        None
    } else if b[p] == 0 && p + 9 <= b.len() {
        Some((Target::VirtualTarget { index: le_at(b, p + 1) as usize }, p + 9))
    } else if b[p] == 1 && p + 17 <= b.len() {
        Some((Target::Wire { row: le_at(b, p + 1) as usize, column: le_at(b, p + 9) as usize }, p + 17))
    } else {
        None
    }
}

/// The `n` targets whose bytes start at `p`, and the position after them.
#[verifier::opaque]
pub open spec fn parse_items(b: Seq<u8>, p: int, n: nat) -> Option<(Seq<Target>, int)>
    decreases n,
{
    if n == 0 {
        Some((Seq::empty(), p))
    } else {
        match parse_items(b, p, (n - 1) as nat) {
            Some((ts, q)) => match parse_target(b, q) {
                Some((t, q2)) => Some((ts.push(t), q2)),
                None => None,
            },
            None => None,
        }
    }
}

/// The list of targets whose bytes start at `p`, and the position after it.
pub open spec fn parse_targets(b: Seq<u8>, p: int) -> Option<(Seq<Target>, int)> {
    if 0 <= p && p + 8 <= b.len() {
        parse_items(b, p + 8, le_at(b, p) as nat)
    } else {
        None
    }
}

proof fn lemma_window(b: Seq<u8>, p: int, e: Seq<u8>, i: int, j: int)
    requires
        0 <= p,
        p + e.len() <= b.len(),
        b.subrange(p, p + e.len()) == e,
        0 <= i <= j <= e.len(),
    ensures
        b.subrange(p + i, p + j) == e.subrange(i, j),
{
    assert forall|k: int| 0 <= k < j - i implies #[trigger] b.subrange(p + i, p + j)[k]
        == e.subrange(i, j)[k] by {
        assert(b.subrange(p, p + e.len())[i + k] == b[p + i + k]);
    }
    assert(b.subrange(p + i, p + j) =~= e.subrange(i, j));
}

proof fn lemma_parse_target(t: Target, b: Seq<u8>, p: int)
    requires
        0 <= p,
        p + target_bytes(t).len() <= b.len(),
        b.subrange(p, p + target_bytes(t).len()) == target_bytes(t),
    ensures
        parse_target(b, p) == Some((t, p + target_bytes(t).len())),
{
    let e = target_bytes(t);
    assert(b[p] == b.subrange(p, p + e.len())[0]);
    match t {
        Target::Wire { row, column } => {
            lemma_window(b, p, e, 1, 9);
            lemma_window(b, p, e, 9, 17);
            assert(e.subrange(1, 9) =~= u64_le(row as u64));
            assert(e.subrange(9, 17) =~= u64_le(column as u64));
            lemma_le_round_trip(row as u64, b, p + 1);
            lemma_le_round_trip(column as u64, b, p + 9);
        },
        Target::VirtualTarget { index } => {
            lemma_window(b, p, e, 1, 9);
            assert(e.subrange(1, 9) =~= u64_le(index as u64));
            lemma_le_round_trip(index as u64, b, p + 1);
        },
    }
}

proof fn lemma_parse_items(ts: Seq<Target>, b: Seq<u8>, p: int)
    requires
        0 <= p,
        p + items_bytes(ts).len() <= b.len(),
        b.subrange(p, p + items_bytes(ts).len()) == items_bytes(ts),
    ensures
        parse_items(b, p, ts.len()) == Some((ts, p + items_bytes(ts).len())),
    decreases ts.len(),
{
    reveal(parse_items);
    if ts.len() > 0 {
        let init = ts.drop_last();
        let all = items_bytes(ts);
        let m = items_bytes(init).len() as int;
        let e = target_bytes(ts.last());
        lemma_window(b, p, all, 0, m);
        assert(all.subrange(0, m) =~= items_bytes(init));
        lemma_parse_items(init, b, p);
        lemma_window(b, p, all, m, all.len() as int);
        assert(all.subrange(m, all.len() as int) =~= e);
        lemma_parse_target(ts.last(), b, p + m);
        assert(init.push(ts.last()) =~= ts);
    }
}

/// Bytes of a list of targets, followed by anything, parse back to the list.
pub proof fn lemma_targets_round_trip(ts: Seq<Target>, b: Seq<u8>, p: int)
    requires
        0 <= p,
        p + targets_bytes(ts).len() <= b.len(),
        b.subrange(p, p + targets_bytes(ts).len()) == targets_bytes(ts),
        ts.len() <= u64::MAX,
    ensures
        parse_targets(b, p) == Some((ts, p + targets_bytes(ts).len())),
{
    let all = targets_bytes(ts);
    let n = all.len() as int;
    lemma_window(b, p, all, 0, 8);
    assert(all.subrange(0, 8) =~= u64_le(ts.len() as u64));
    lemma_le_round_trip(ts.len() as u64, b, p);
    lemma_window(b, p, all, 8, n);
    assert(all.subrange(8, n) =~= items_bytes(ts));
    assert(b.subrange(p + 8, p + 8 + items_bytes(ts).len()) == items_bytes(ts));
    lemma_parse_items(ts, b, p + 8);
}

/// Appends the bytes of the target list `v` to `dst`.
pub fn write_target_vec(dst: &mut Vec<u8>, v: &Vec<Target>)
    ensures
        final(dst)@ == old(dst)@ + targets_bytes(v@),
{
    let ghost start = dst@;
    push_u64_le(dst, v.len() as u64);
    let mut i: usize = 0;
    while i < v.len()
        invariant
            i <= v@.len(),
            dst@ == start + u64_le(v@.len() as u64) + items_bytes(v@.subrange(0, i as int)),
        decreases v@.len() - i,
    {
        let ghost before = dst@;
        match v[i] {
            Target::Wire { row, column } => {
                dst.push(1u8);
                push_u64_le(dst, row as u64);
                push_u64_le(dst, column as u64);
            },
            Target::VirtualTarget { index } => {
                dst.push(0u8);
                push_u64_le(dst, index as u64);
            },
        }
        assert(v@.subrange(0, i + 1).drop_last() =~= v@.subrange(0, i as int));
        assert(dst@ =~= before + target_bytes(v@[i as int]));
        i = i + 1;
    }
    assert(v@.subrange(0, v@.len() as int) =~= v@);
}

/// Parses one target at `pos`.
fn read_target(src: &[u8], pos: usize) -> (r: Option<(Target, usize)>)
    ensures
        r matches Some((t, q)) ==> parse_target(src@, pos as int) == Some((t, q as int)),
        r is None ==> parse_target(src@, pos as int) is None,
{
    if pos >= src.len() {
        return None;
    }
    let tag = src[pos];
    if tag == 0 {
        if src.len() - pos < 9 {
            return None;
        }
        match read_u64_le(src, pos + 1) {
            Some(index) => Some(
                (Target::VirtualTarget { index: #[verifier::truncate] (index as usize) }, pos + 9),
            ),
            None => None,
        }
    } else if tag == 1 {
        if src.len() - pos < 17 {
            return None;
        }
        match (read_u64_le(src, pos + 1), read_u64_le(src, pos + 9)) {
            (Some(row), Some(column)) => Some(
                (
                    Target::Wire {
                        row: #[verifier::truncate] (row as usize),
                        column: #[verifier::truncate] (column as usize),
                    },
                    pos + 17,
                ),
            ),
            _ => None,
        }
    } else {
        None
    }
}

/// Parses a list of targets at `pos`: the list and the position after it,
/// or `None` where the bytes there are not such a list.
pub fn read_target_vec(src: &[u8], pos: usize) -> (r: Option<(Vec<Target>, usize)>)
    ensures
        r matches Some((v, q)) ==> parse_targets(src@, pos as int) == Some((v@, q as int)),
        r is None ==> parse_targets(src@, pos as int) is None,
{
    let len = src.len();
    let n = match read_u64_le(src, pos) {
        Some(n) => n,
        None => return None,
    };
    let mut v: Vec<Target> = Vec::new();
    let mut p: usize = pos + 8;
    let mut i: u64 = 0;
    proof {
        reveal(parse_items);
    }
    while i < n
        invariant
            len == src@.len(),
            pos + 8 <= src@.len(),
            n == le_at(src@, pos as int),
            i <= n,
            parse_items(src@, pos + 8, i as nat) == Some((v@, p as int)),
        decreases n - i,
    {
        proof {
            reveal(parse_items);
        }
        match read_target(src, p) {
            Some((t, q)) => {
                v.push(t);
                p = q;
            },
            None => {
                assert(parse_items(src@, pos + 8, (i + 1) as nat) is None);
                proof {
                    lemma_parse_items_stuck(src@, pos + 8, (i + 1) as nat, n as nat);
                }
                return None;
            },
        }
        i = i + 1;
    }
    Some((v, p))
}

proof fn lemma_parse_items_stuck(b: Seq<u8>, p: int, i: nat, n: nat)
    requires
        i <= n,
        parse_items(b, p, i) is None,
    ensures
        parse_items(b, p, n) is None,
    decreases n - i,
{
    reveal(parse_items);
    if i < n {
        lemma_parse_items_stuck(b, p, i + 1, n);
    }
}

} // verus!
