//! Integer chunk coordinates and the enumeration of axis-aligned boxes of chunks.

use vstd::prelude::*;

verus! {

/// Position of a terrain chunk on the integer chunk grid.
#[derive(Clone, Copy, Debug, PartialEq, Eq, Structural, Hash)]
pub struct ChunkPos {
    pub x: i32,
    pub y: i32,
    pub z: i32,
}

/// Whether `q` comes strictly before the grid point `(cx, cy, cz)` in the order
/// in which boxes are walked: z is the slowest coordinate, x the fastest.
pub open spec fn precedes(q: ChunkPos, cx: int, cy: int, cz: int) -> bool {
    ||| q.z < cz
    ||| (q.z == cz && q.y < cy)
    ||| (q.z == cz && q.y == cy && q.x < cx)
}

/// Strict walk order between two chunk positions (z, then y, then x).
pub open spec fn walk_lt(a: ChunkPos, b: ChunkPos) -> bool {
    precedes(a, b.x as int, b.y as int, b.z as int)
}

/// Whether `p` lies in the closed box spanned by `lo` and `hi`.
pub open spec fn in_box(p: ChunkPos, lo: ChunkPos, hi: ChunkPos) -> bool {
    &&& lo.x <= p.x <= hi.x
    &&& lo.y <= p.y <= hi.y
    &&& lo.z <= p.z <= hi.z
}

/// The positions of a box, each once, in walk order: this pins the sequence down.
pub open spec fn is_box_walk(s: Seq<ChunkPos>, lo: ChunkPos, hi: ChunkPos) -> bool {
    &&& forall|i: int| 0 <= i < s.len() ==> in_box(#[trigger] s[i], lo, hi)
    &&& forall|p: ChunkPos| in_box(p, lo, hi) ==> s.contains(p)
    &&& forall|i: int, j: int| 0 <= i < j < s.len() ==> walk_lt(#[trigger] s[i], #[trigger] s[j])
}

/// Absolute value of an integer.
pub open spec fn abs(v: int) -> int {
    if v < 0 { -v } else { v }
}

/// Chebyshev (chessboard) distance between two chunk positions.
pub open spec fn chebyshev(a: ChunkPos, b: ChunkPos) -> int {
    let dx = abs(a.x - b.x);
    let dy = abs(a.y - b.y);
    let dz = abs(a.z - b.z);
    if dx >= dy && dx >= dz { dx } else if dy >= dz { dy } else { dz }
}

/// Whether every component of `a - b` is an `i32` whose absolute value is an `i32` too.
pub open spec fn difference_fits(a: ChunkPos, b: ChunkPos) -> bool {
    &&& i32::MIN < a.x - b.x <= i32::MAX
    &&& i32::MIN < a.y - b.y <= i32::MAX
    &&& i32::MIN < a.z - b.z <= i32::MAX
}

/// Every chunk position in the closed box `[lo, hi]`, z outermost and x innermost.
/// A box with `lo > hi` on some axis is empty.
pub fn chunk_box(lo: ChunkPos, hi: ChunkPos) -> (res: Vec<ChunkPos>)
    ensures
        is_box_walk(res@, lo, hi),
{
    let mut res: Vec<ChunkPos> = Vec::new();
    let mut z: i64 = lo.z as i64;
    while z <= hi.z as i64
        invariant
            lo.z <= z <= hi.z as int + 1 || (z == lo.z && lo.z > hi.z),
            forall|i: int| 0 <= i < res@.len() ==> in_box(#[trigger] res@[i], lo, hi),
            forall|i: int| 0 <= i < res@.len() ==> precedes(#[trigger] res@[i], lo.x as int, lo.y as int, z as int),
            forall|q: ChunkPos| in_box(q, lo, hi) && precedes(q, lo.x as int, lo.y as int, z as int) ==> res@.contains(q),
            forall|i: int, j: int| 0 <= i < j < res@.len() ==> walk_lt(#[trigger] res@[i], #[trigger] res@[j]),
        decreases hi.z as int + 1 - z,
    {
        let mut y: i64 = lo.y as i64;
        while y <= hi.y as i64
            invariant
                lo.z <= z <= hi.z,
                lo.y <= y <= hi.y as int + 1 || (y == lo.y && lo.y > hi.y),
                forall|i: int| 0 <= i < res@.len() ==> in_box(#[trigger] res@[i], lo, hi),
                forall|i: int| 0 <= i < res@.len() ==> precedes(#[trigger] res@[i], lo.x as int, y as int, z as int),
                forall|q: ChunkPos| in_box(q, lo, hi) && precedes(q, lo.x as int, y as int, z as int) ==> res@.contains(q),
                forall|i: int, j: int| 0 <= i < j < res@.len() ==> walk_lt(#[trigger] res@[i], #[trigger] res@[j]),
            decreases hi.y as int + 1 - y,
        {
            let mut x: i64 = lo.x as i64;
            while x <= hi.x as i64
                invariant
                    lo.z <= z <= hi.z,
                    lo.y <= y <= hi.y,
                    lo.x <= x <= hi.x as int + 1 || (x == lo.x && lo.x > hi.x),
                    forall|i: int| 0 <= i < res@.len() ==> in_box(#[trigger] res@[i], lo, hi),
                    forall|i: int| 0 <= i < res@.len() ==> precedes(#[trigger] res@[i], x as int, y as int, z as int),
                    forall|q: ChunkPos| in_box(q, lo, hi) && precedes(q, x as int, y as int, z as int) ==> res@.contains(q),
                    forall|i: int, j: int| 0 <= i < j < res@.len() ==> walk_lt(#[trigger] res@[i], #[trigger] res@[j]),
                decreases hi.x as int + 1 - x,
            {
                let p = ChunkPos { x: x as i32, y: y as i32, z: z as i32 };
                let ghost old_res = res@;
                res.push(p);
                proof {
                    assert(res@[old_res.len() as int] == p);
                    assert forall|q: ChunkPos| in_box(q, lo, hi) && precedes(q, x + 1, y as int, z as int) implies res@.contains(q) by {
                        if precedes(q, x as int, y as int, z as int) {
                            assert(old_res.contains(q));
                            let k = choose|k: int| 0 <= k < old_res.len() && old_res[k] == q;
                            assert(res@[k] == q);
                        } else {
                            assert(q == p);
                        }
                    }
                }
                x = x + 1;
            }
            y = y + 1;
        }
        z = z + 1;
    }
    proof {
        assert forall|q: ChunkPos| in_box(q, lo, hi) implies res@.contains(q) by {
            assert(precedes(q, lo.x as int, lo.y as int, z as int));
        }
    }
    res
}


/// The walk order is the lexicographic order on (z, y, x): a strict total order in which a
/// smaller z comes first, then a smaller y, then a smaller x.
pub proof fn lemma_walk_order(a: ChunkPos, b: ChunkPos, c: ChunkPos)
    ensures
        !walk_lt(a, a),
        walk_lt(a, b) ==> !walk_lt(b, a),
        walk_lt(a, b) && walk_lt(b, c) ==> walk_lt(a, c),
        a != b ==> walk_lt(a, b) || walk_lt(b, a),
        a.z < b.z ==> walk_lt(a, b),
        a.z == b.z && a.y < b.y ==> walk_lt(a, b),
        a.z == b.z && a.y == b.y && a.x < b.x ==> walk_lt(a, b),
{
}

/// A box holds exactly the positions between its corners on every axis.
pub proof fn lemma_in_box(p: ChunkPos, lo: ChunkPos, hi: ChunkPos)
    ensures
        in_box(p, lo, hi) <==> (lo.x <= p.x && p.x <= hi.x && lo.y <= p.y && p.y <= hi.y && lo.z <= p.z && p.z <= hi.z),
        in_box(lo, lo, lo),
{
}

/// Chebyshev distance: zero exactly between equal positions, symmetric, and at most `d` exactly
/// when every axis differs by at most `d`.
pub proof fn lemma_chebyshev(a: ChunkPos, b: ChunkPos, d: int)
    ensures
        chebyshev(a, b) >= 0,
        chebyshev(a, b) == 0 <==> a == b,
        chebyshev(a, b) == chebyshev(b, a),
        chebyshev(a, b) <= d <==> (-d <= a.x - b.x <= d && -d <= a.y - b.y <= d && -d <= a.z - b.z <= d),
{
}

/// A box walk lists every position of the box, nothing else, and nothing twice.
pub proof fn lemma_box_walk_exact(s: Seq<ChunkPos>, lo: ChunkPos, hi: ChunkPos, p: ChunkPos)
    requires
        is_box_walk(s, lo, hi),
    ensures
        s.contains(p) <==> (lo.x <= p.x <= hi.x && lo.y <= p.y <= hi.y && lo.z <= p.z <= hi.z),
        s.no_duplicates(),
        forall|i: int, j: int| 0 <= i < j < s.len() ==> walk_lt(s[i], s[j]),
{
    lemma_in_box(p, lo, hi);
    assert forall|i: int, j: int| 0 <= i < s.len() && 0 <= j < s.len() && i != j implies s[i] != s[j] by {
        if i < j {
            assert(walk_lt(s[i], s[j]));
            lemma_walk_order(s[i], s[j], s[j]);
        } else {
            assert(walk_lt(s[j], s[i]));
            lemma_walk_order(s[j], s[i], s[i]);
        }
    }
}

} // verus!
