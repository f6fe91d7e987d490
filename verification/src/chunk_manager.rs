//! Which terrain chunks are loaded around the player, and which to load or unload.

use vstd::prelude::*;
use crate::chunk_pos::{ChunkPos, chebyshev, walk_lt, in_box, chunk_box, difference_fits};
use crate::chunk_map::ChunkMap;

verus! {

/// Whether `s` lists the chunk positions within Chebyshev distance `radius` of `center`,
/// each once, in walk order (z slowest, x fastest).
pub open spec fn is_cube_walk(s: Seq<ChunkPos>, center: ChunkPos, radius: int) -> bool {
    &&& forall|i: int| 0 <= i < s.len() ==> chebyshev(#[trigger] s[i], center) <= radius
    &&& forall|p: ChunkPos| chebyshev(p, center) <= radius ==> s.contains(p)
    &&& forall|i: int, j: int| 0 <= i < j < s.len() ==> walk_lt(#[trigger] s[i], #[trigger] s[j])
}

/// Whether `center + d` stays an `i32` on every axis, for every offset `d` in `[-radius, radius]`.
pub open spec fn cube_fits(center: ChunkPos, radius: int) -> bool {
    radius >= 0 ==> {
        &&& i32::MIN <= center.x - radius && center.x + radius <= i32::MAX
        &&& i32::MIN <= center.y - radius && center.y + radius <= i32::MAX
        &&& i32::MIN <= center.z - radius && center.z + radius <= i32::MAX
    }
}

/// Chunks farther than this from the player (Chebyshev distance) are unloaded; one more than
/// the view distance, so chunks at the view border are not loaded and unloaded in turn.
pub open spec fn unload_distance(view_distance: int) -> int {
    view_distance + 1
}

/// Whether a loaded chunk at `p` is to be unloaded when the player stands in `center`.
pub open spec fn is_far(p: ChunkPos, center: ChunkPos, view_distance: int) -> bool {
    chebyshev(p, center) > unload_distance(view_distance)
}

/// The chunk positions that stay loaded around `center`.
pub open spec fn kept_set(center: ChunkPos, view_distance: int) -> Set<ChunkPos> {
    Set::new(|p: ChunkPos| !is_far(p, center, view_distance))
}

/// Every chunk position within Chebyshev distance `radius` of `center`, in walk order
/// (z outermost, x innermost). Empty when `radius` is negative.
pub fn chunks_around(center: ChunkPos, radius: i32) -> (res: Vec<ChunkPos>)
    requires
        radius > i32::MIN,
        cube_fits(center, radius as int),
    ensures
        is_cube_walk(res@, center, radius as int),
{
    if radius < 0 {
        return Vec::new();
    }
    let lo = ChunkPos { x: center.x - radius, y: center.y - radius, z: center.z - radius };
    let hi = ChunkPos { x: center.x + radius, y: center.y + radius, z: center.z + radius };
    let res = chunk_box(lo, hi);
    proof {
        assert forall|p: ChunkPos| in_box(p, lo, hi) <==> chebyshev(p, center) <= radius by {}
        assert forall|p: ChunkPos| chebyshev(p, center) <= radius implies res@.contains(p) by {
            assert(in_box(p, lo, hi));
        }
        assert forall|i: int| 0 <= i < res@.len() implies chebyshev(#[trigger] res@[i], center) <= radius by {
            assert(in_box(res@[i], lo, hi));
        }
    }
    res
}

/// Bookkeeping of the terrain chunks that have a spawned entity.
pub struct ChunkManager {
    /// Loaded chunks and the id of the entity that shows each.
    pub loaded: ChunkMap<u64>,
    /// Chunks within this Chebyshev distance of the player's chunk are wanted.
    pub view_distance: i32,
    /// Seed of the terrain noise.
    pub seed: u32,
}

impl Default for ChunkManager {
    fn default() -> (m: Self)
        ensures
            m.loaded@ == Map::<ChunkPos, u64>::empty(),
            m.view_distance == 4,
            m.seed == 42,
    {
        ChunkManager { loaded: ChunkMap::new(), view_distance: 4, seed: 42 }
    }
}

impl ChunkManager {
    /// Whether the chunks around `center` can be listed without overflow.
    pub open spec fn can_plan(&self, center: ChunkPos) -> bool {
        &&& self.view_distance > i32::MIN
        &&& cube_fits(center, self.view_distance as int)
    }

    /// Whether the distances of all loaded chunks to `center` can be measured without overflow.
    pub open spec fn can_unload(&self, center: ChunkPos) -> bool {
        &&& self.view_distance < i32::MAX
        &&& forall|p: ChunkPos| self.loaded@.dom().contains(p) ==> difference_fits(p, center)
    }

    /// Tests `can_plan`: whether the chunks around `center` can be listed without overflow.
    pub fn plan_fits(&self, center: ChunkPos) -> (b: bool)
        ensures
            b == self.can_plan(center),
    {
        let r = self.view_distance;
        if r == i32::MIN {
            return false;
        }
        if r < 0 {
            return true;
        }
        let r = r as i64;
        let lo = i32::MIN as i64;
        let hi = i32::MAX as i64;
        lo <= center.x as i64 - r && center.x as i64 + r <= hi
            && lo <= center.y as i64 - r && center.y as i64 + r <= hi
            && lo <= center.z as i64 - r && center.z as i64 + r <= hi
    }

    /// Tests `can_unload`: whether the distances of all loaded chunks to `center` can be measured
    /// without overflow.
    pub fn unload_fits(&self, center: ChunkPos) -> (b: bool)
        ensures
            b == self.can_unload(center),
    {
        if self.view_distance == i32::MAX {
            return false;
        }
        let entries = self.loaded.entries();
        let n = entries.len();
        let mut i: usize = 0;
        while i < n
            invariant
                n == entries@.len(),
                i <= n,
                forall|a: int| 0 <= a < entries@.len() ==> self.loaded@.dom().contains(#[trigger] entries@[a].0),
                forall|k: ChunkPos| self.loaded@.dom().contains(k) ==> exists|a: int| 0 <= a < entries@.len() && #[trigger] entries@[a].0 == k,
                forall|a: int| 0 <= a < i ==> difference_fits(#[trigger] entries@[a].0, center),
            decreases n - i,
        {
            let p = entries[i].0;
            let lo = i32::MIN as i64;
            let hi = i32::MAX as i64;
            let dx = p.x as i64 - center.x as i64;
            let dy = p.y as i64 - center.y as i64;
            let dz = p.z as i64 - center.z as i64;
            if !(lo < dx && dx <= hi && lo < dy && dy <= hi && lo < dz && dz <= hi) {
                assert(!difference_fits(entries@[i as int].0, center));
                return false;
            }
            i = i + 1;
        }
        proof {
            assert forall|p: ChunkPos| self.loaded@.dom().contains(p) implies difference_fits(p, center) by {
                let a = choose|a: int| 0 <= a < entries@.len() && #[trigger] entries@[a].0 == p;
            }
        }
        true
    }

    /// The wanted chunks around `center` (within the view distance) that are not loaded yet,
    /// in walk order.
    pub fn chunks_to_load(&self, center: ChunkPos) -> (res: Vec<ChunkPos>)
        requires
            self.can_plan(center),
        ensures
            forall|i: int| 0 <= i < res@.len() ==> chebyshev(#[trigger] res@[i], center) <= self.view_distance,
            forall|i: int| 0 <= i < res@.len() ==> !self.loaded@.dom().contains(#[trigger] res@[i]),
            forall|p: ChunkPos| chebyshev(p, center) <= self.view_distance && !self.loaded@.dom().contains(p)
                ==> res@.contains(p),
            forall|i: int, j: int| 0 <= i < j < res@.len() ==> walk_lt(#[trigger] res@[i], #[trigger] res@[j]),
    {
        let desired = chunks_around(center, self.view_distance);
        let n = desired.len();
        let mut res: Vec<ChunkPos> = Vec::new();
        let mut i: usize = 0;
        while i < n
            invariant
                n == desired@.len(),
                i <= n,
                is_cube_walk(desired@, center, self.view_distance as int),
                forall|a: int| 0 <= a < res@.len() ==> exists|j: int| 0 <= j < i && desired@[j] == #[trigger] res@[a],
                forall|a: int| 0 <= a < res@.len() ==> !self.loaded@.dom().contains(#[trigger] res@[a]),
                forall|j: int| 0 <= j < i && !self.loaded@.dom().contains(#[trigger] desired@[j]) ==> res@.contains(desired@[j]),
                forall|a: int, b: int| 0 <= a < b < res@.len() ==> walk_lt(#[trigger] res@[a], #[trigger] res@[b]),
            decreases n - i,
        {
            let p = desired[i];
            if !self.loaded.contains_key(&p) {
                let ghost old_res = res@;
                res.push(p);
                proof {
                    assert(res@[old_res.len() as int] == p);
                    assert forall|a: int| 0 <= a < res@.len() implies exists|j: int| 0 <= j < i + 1 && desired@[j] == #[trigger] res@[a] by {
                        if a < old_res.len() {
                            assert(old_res[a] == res@[a]);
                        } else {
                            assert(desired@[i as int] == res@[a]);
                        }
                    }
                    assert forall|a: int, b: int| 0 <= a < b < res@.len() implies walk_lt(#[trigger] res@[a], #[trigger] res@[b]) by {
                        if b == old_res.len() {
                            assert(old_res[a] == res@[a]);
                            let j = choose|j: int| 0 <= j < i && desired@[j] == old_res[a];
                            assert(walk_lt(desired@[j], desired@[i as int]));
                        } else {
                            assert(old_res[a] == res@[a] && old_res[b] == res@[b]);
                        }
                    }
                    assert forall|j: int| 0 <= j < i + 1 && !self.loaded@.dom().contains(#[trigger] desired@[j]) implies res@.contains(desired@[j]) by {
                        if j < i {
                            assert(old_res.contains(desired@[j]));
                            let a = choose|a: int| 0 <= a < old_res.len() && old_res[a] == desired@[j];
                            assert(res@[a] == desired@[j]);
                        } else {
                            assert(res@[old_res.len() as int] == desired@[j]);
                        }
                    }
                }
            }
            i = i + 1;
        }
        proof {
            assert forall|i: int| 0 <= i < res@.len() implies chebyshev(#[trigger] res@[i], center) <= self.view_distance by {
                let j = choose|j: int| 0 <= j < n && desired@[j] == res@[i];
                assert(chebyshev(desired@[j], center) <= self.view_distance);
            }
            assert forall|p: ChunkPos| chebyshev(p, center) <= self.view_distance && !self.loaded@.dom().contains(p)
                implies res@.contains(p) by {
                assert(desired@.contains(p));
                let j = choose|j: int| 0 <= j < n && desired@[j] == p;
                assert(!self.loaded@.dom().contains(desired@[j]));
            }
        }
        res
    }

    /// Records that the chunk at `pos` is shown by the entity `entity`.
    pub fn mark_loaded(&mut self, pos: ChunkPos, entity: u64)
        ensures
            final(self).loaded@ == old(self).loaded@.insert(pos, entity),
            final(self).view_distance == old(self).view_distance,
            final(self).seed == old(self).seed,
    {
        self.loaded.insert(pos, entity);
    }

    /// Whether the loaded chunk `p` lies beyond the unload distance from `center`.
    fn is_far_from(&self, p: ChunkPos, center: ChunkPos) -> (far: bool)
        requires
            self.view_distance < i32::MAX,
            difference_fits(p, center),
        ensures
            far == is_far(p, center, self.view_distance as int),
    {
        let unload_dist = self.view_distance + 1;
        let dx = p.x - center.x;
        let dy = p.y - center.y;
        let dz = p.z - center.z;
        let ax = if dx < 0 { -dx } else { dx };
        let ay = if dy < 0 { -dy } else { dy };
        let az = if dz < 0 { -dz } else { dz };
        ax > unload_dist || ay > unload_dist || az > unload_dist
    }

    /// The loaded chunks farther than the unload distance from `center`, with their entities,
    /// each once.
    fn far_entries(&self, center: ChunkPos) -> (far: Vec<(ChunkPos, u64)>)
        requires
            self.can_unload(center),
        ensures
            forall|a: int, b: int| 0 <= a < b < far@.len() ==> #[trigger] far@[a].0 != #[trigger] far@[b].0,
            forall|a: int| 0 <= a < far@.len() ==> {
                &&& self.loaded@.dom().contains(#[trigger] far@[a].0)
                &&& self.loaded@[far@[a].0] == far@[a].1
                &&& is_far(far@[a].0, center, self.view_distance as int)
            },
            forall|p: ChunkPos| self.loaded@.dom().contains(p) && is_far(p, center, self.view_distance as int)
                ==> exists|a: int| 0 <= a < far@.len() && #[trigger] far@[a].0 == p,
    {
        let entries = self.loaded.entries();
        let n = entries.len();
        let ghost vd = self.view_distance as int;
        let mut far: Vec<(ChunkPos, u64)> = Vec::new();
        let mut i: usize = 0;
        while i < n
            invariant
                n == entries@.len(),
                i <= n,
                vd == self.view_distance,
                self.can_unload(center),
                forall|a: int, b: int| 0 <= a < b < entries@.len() ==> #[trigger] entries@[a].0 != #[trigger] entries@[b].0,
                forall|a: int| 0 <= a < entries@.len() ==> self.loaded@.dom().contains(#[trigger] entries@[a].0)
                    && self.loaded@[entries@[a].0] == entries@[a].1,
                forall|r: int| 0 <= r < far@.len() ==> exists|a: int| 0 <= a < i && entries@[a] == #[trigger] far@[r],
                forall|r: int| 0 <= r < far@.len() ==> is_far(#[trigger] far@[r].0, center, vd),
                forall|a: int| 0 <= a < i && is_far(#[trigger] entries@[a].0, center, vd) ==> far@.contains(entries@[a]),
                forall|r: int, t: int| 0 <= r < t < far@.len() ==> #[trigger] far@[r].0 != #[trigger] far@[t].0,
            decreases n - i,
        {
            let (p, e) = entries[i];
            if self.is_far_from(p, center) {
                let ghost old_far = far@;
                far.push((p, e));
                proof {
                    assert(far@[old_far.len() as int] == (p, e));
                    assert forall|r: int| 0 <= r < far@.len() implies exists|a: int| 0 <= a < i + 1 && entries@[a] == #[trigger] far@[r] by {
                        if r < old_far.len() {
                            assert(old_far[r] == far@[r]);
                        } else {
                            assert(entries@[i as int] == far@[r]);
                        }
                    }
                    assert forall|a: int| 0 <= a < i + 1 && is_far(#[trigger] entries@[a].0, center, vd) implies far@.contains(entries@[a]) by {
                        if a < i {
                            let r = choose|r: int| 0 <= r < old_far.len() && old_far[r] == entries@[a];
                            assert(far@[r] == entries@[a]);
                        } else {
                            assert(far@[old_far.len() as int] == entries@[a]);
                        }
                    }
                    assert forall|r: int, t: int| 0 <= r < t < far@.len() implies #[trigger] far@[r].0 != #[trigger] far@[t].0 by {
                        if t == old_far.len() {
                            assert(old_far[r] == far@[r]);
                            let a = choose|a: int| 0 <= a < i && entries@[a] == old_far[r];
                            assert(entries@[a].0 != entries@[i as int].0);
                        } else {
                            assert(old_far[r] == far@[r] && old_far[t] == far@[t]);
                        }
                    }
                    assert forall|r: int| 0 <= r < far@.len() implies is_far(#[trigger] far@[r].0, center, vd) by {
                        if r < old_far.len() { assert(old_far[r] == far@[r]); }
                    }
                }
            }
            i = i + 1;
        }
        proof {
            assert forall|a: int| 0 <= a < far@.len() implies {
                &&& self.loaded@.dom().contains(#[trigger] far@[a].0)
                &&& self.loaded@[far@[a].0] == far@[a].1
                &&& is_far(far@[a].0, center, vd)
            } by {
                let j = choose|j: int| 0 <= j < n && entries@[j] == far@[a];
            }
            assert forall|p: ChunkPos| self.loaded@.dom().contains(p) && is_far(p, center, vd)
                implies exists|a: int| 0 <= a < far@.len() && #[trigger] far@[a].0 == p by {
                let j = choose|j: int| 0 <= j < entries@.len() && #[trigger] entries@[j].0 == p;
                let r = choose|r: int| 0 <= r < far@.len() && far@[r] == entries@[j];
                assert(far@[r].0 == p);
            }
        }
        far
    }

    /// Forgets every loaded chunk farther than the unload distance from `center` and returns
    /// those chunks with their entities, each once, for the caller to despawn.
    pub fn unload_far(&mut self, center: ChunkPos) -> (removed: Vec<(ChunkPos, u64)>)
        requires
            old(self).can_unload(center),
        ensures
            final(self).loaded@ == old(self).loaded@.restrict(kept_set(center, old(self).view_distance as int)),
            final(self).view_distance == old(self).view_distance,
            final(self).seed == old(self).seed,
            forall|a: int, b: int| 0 <= a < b < removed@.len() ==> #[trigger] removed@[a].0 != #[trigger] removed@[b].0,
            forall|a: int| 0 <= a < removed@.len() ==> {
                &&& old(self).loaded@.dom().contains(#[trigger] removed@[a].0)
                &&& old(self).loaded@[removed@[a].0] == removed@[a].1
                &&& is_far(removed@[a].0, center, old(self).view_distance as int)
            },
            forall|p: ChunkPos| old(self).loaded@.dom().contains(p) && is_far(p, center, old(self).view_distance as int)
                ==> exists|a: int| 0 <= a < removed@.len() && #[trigger] removed@[a].0 == p,
    {
        let ghost old_map = self.loaded@;
        let ghost vd = self.view_distance as int;
        let removed = self.far_entries(center);
        let n = removed.len();
        let mut j: usize = 0;
        while j < n
            invariant
                n == removed@.len(),
                j <= n,
                self.view_distance == vd,
                self.seed == old(self).seed,
                forall|k: ChunkPos| #[trigger] self.loaded@.dom().contains(k) <==>
                    (old_map.dom().contains(k) && !removed@.take(j as int).map_values(|e: (ChunkPos, u64)| e.0).contains(k)),
                forall|k: ChunkPos| self.loaded@.dom().contains(k) ==> self.loaded@[k] == old_map[k],
            decreases n - j,
        {
            let p = removed[j].0;
            let ghost before = self.loaded@;
            self.loaded.remove(&p);
            proof {
                let ks0 = removed@.take(j as int).map_values(|e: (ChunkPos, u64)| e.0);
                let ks1 = removed@.take(j + 1).map_values(|e: (ChunkPos, u64)| e.0);
                assert(ks1 =~= ks0.push(p));
                assert forall|k: ChunkPos| #[trigger] self.loaded@.dom().contains(k) <==>
                    (old_map.dom().contains(k) && !ks1.contains(k)) by {
                    if ks1.contains(k) && k != p {
                        let a = choose|a: int| 0 <= a < ks1.len() && ks1[a] == k;
                        assert(a < ks0.len());
                        assert(ks0[a] == k);
                    }
                    if ks0.contains(k) {
                        let a = choose|a: int| 0 <= a < ks0.len() && ks0[a] == k;
                        assert(ks1[a] == k);
                    }
                    assert(ks1[j as int] == p);
                }
            }
            j = j + 1;
        }
        proof {
            let ks = removed@.take(n as int).map_values(|e: (ChunkPos, u64)| e.0);
            assert(removed@.take(n as int) =~= removed@);
            let kept = kept_set(center, vd);
            assert(self.loaded@ =~= old_map.restrict(kept)) by {
                assert forall|k: ChunkPos| #[trigger] self.loaded@.dom().contains(k) <==> old_map.restrict(kept).dom().contains(k) by {
                    if ks.contains(k) {
                        let a = choose|a: int| 0 <= a < ks.len() && ks[a] == k;
                        assert(removed@[a].0 == k);
                    }
                    if old_map.dom().contains(k) && is_far(k, center, vd) {
                        let a = choose|a: int| 0 <= a < removed@.len() && #[trigger] removed@[a].0 == k;
                        assert(ks[a] == k);
                    }
                }
            }
        }
        removed
    }
}

/// Unloading has hysteresis and is settled after one pass: every loaded chunk within one step
/// beyond the view distance (so every wanted chunk) stays loaded, everything that stays loaded lies
/// within the unload distance, and a second pass around the same centre unloads nothing more.
pub proof fn lemma_unload_hysteresis(m: Map<ChunkPos, u64>, center: ChunkPos, view_distance: int, p: ChunkPos)
    ensures
        m.dom().contains(p) && chebyshev(p, center) <= unload_distance(view_distance)
            ==> m.restrict(kept_set(center, view_distance)).dom().contains(p),
        m.restrict(kept_set(center, view_distance)).dom().contains(p)
            ==> chebyshev(p, center) <= unload_distance(view_distance),
        m.restrict(kept_set(center, view_distance)).restrict(kept_set(center, view_distance))
            == m.restrict(kept_set(center, view_distance)),
{
    let k = kept_set(center, view_distance);
    assert(m.restrict(k).restrict(k) =~= m.restrict(k));
}

/// A chunk that the loader asks for (within the view distance) is never unloaded in the same update.
pub proof fn lemma_wanted_chunk_kept(center: ChunkPos, view_distance: int, p: ChunkPos)
    requires
        chebyshev(p, center) <= view_distance,
    ensures
        kept_set(center, view_distance).contains(p),
{
}


/// A cube walk lists every position within the radius of the centre (Chebyshev distance),
/// nothing else, and nothing twice, in walk order.
pub proof fn lemma_cube_walk_exact(s: Seq<ChunkPos>, center: ChunkPos, radius: int, p: ChunkPos)
    requires
        is_cube_walk(s, center, radius),
    ensures
        s.contains(p) <==> (-radius <= p.x - center.x <= radius && -radius <= p.y - center.y <= radius
            && -radius <= p.z - center.z <= radius),
        s.no_duplicates(),
{
    crate::chunk_pos::lemma_chebyshev(p, center, radius);
    assert forall|i: int, j: int| 0 <= i < s.len() && 0 <= j < s.len() && i != j implies s[i] != s[j] by {
        if i < j {
            crate::chunk_pos::lemma_walk_order(s[i], s[j], s[j]);
        } else {
            crate::chunk_pos::lemma_walk_order(s[j], s[i], s[i]);
        }
    }
}

/// A loaded chunk is unloaded exactly when it is more than one chunk beyond the view distance
/// on some axis: a chunk at view distance + 1 stays, one at view distance + 2 goes.
pub proof fn lemma_unload_rule(p: ChunkPos, center: ChunkPos, view_distance: int)
    ensures
        is_far(p, center, view_distance) <==> !(-(view_distance + 1) <= p.x - center.x <= view_distance + 1
            && -(view_distance + 1) <= p.y - center.y <= view_distance + 1
            && -(view_distance + 1) <= p.z - center.z <= view_distance + 1),
        kept_set(center, view_distance).contains(p) <==> !is_far(p, center, view_distance),
        chebyshev(p, center) == view_distance + 1 ==> !is_far(p, center, view_distance),
        chebyshev(p, center) == view_distance + 2 ==> is_far(p, center, view_distance),
{
    crate::chunk_pos::lemma_chebyshev(p, center, view_distance + 1);
}


/// The overflow conditions: a cube can be listed when every coordinate of its corners is an
/// `i32` (any negative radius lists nothing), and a distance can be measured when every
/// coordinate difference is an `i32` other than `i32::MIN`.
pub proof fn lemma_fit_conditions(center: ChunkPos, radius: int, p: ChunkPos)
    ensures
        radius < 0 ==> cube_fits(center, radius),
        radius >= 0 ==> (cube_fits(center, radius) <==> (
            -2147483648 <= center.x - radius && center.x + radius <= 2147483647
            && -2147483648 <= center.y - radius && center.y + radius <= 2147483647
            && -2147483648 <= center.z - radius && center.z + radius <= 2147483647)),
        difference_fits(p, center) <==> (
            -2147483648 < p.x - center.x <= 2147483647
            && -2147483648 < p.y - center.y <= 2147483647
            && -2147483648 < p.z - center.z <= 2147483647),
{
}

} // verus!
