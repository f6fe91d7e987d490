//! Decisions of terrain deformation: which edits the mouse asks for, and what becomes of a
//! chunk's entity once its voxels changed.

use vstd::prelude::*;

verus! {

/// A terrain edit at the point the player looks at.
#[derive(Clone, Copy, Debug, PartialEq, Eq, Structural)]
pub enum DeformKind {
    /// Remove material (left button); lowers the density.
    Dig,
    /// Add material (right button); raises the density.
    Fill,
}

impl DeformKind {
    /// Sign of the density change: -1 for digging, 1 for filling.
    pub fn sign(&self) -> (s: i8)
        ensures
            s == (if *self is Dig { -1int } else { 1int }),
    {
        match self {
            DeformKind::Dig => -1,
            DeformKind::Fill => 1,
        }
    }
}

/// Edits asked for this frame: none unless the pointer is locked; otherwise a dig while the
/// left button is held, then a fill while the right button is held.
pub open spec fn spec_deform_requests(locked: bool, left_held: bool, right_held: bool) -> Seq<DeformKind> {
    if !locked {
        Seq::empty()
    } else {
        (if left_held { seq![DeformKind::Dig] } else { Seq::empty() })
            + (if right_held { seq![DeformKind::Fill] } else { Seq::empty() })
    }
}

/// The edits to emit this frame, in order.
pub fn deform_requests(locked: bool, left_held: bool, right_held: bool) -> (r: Vec<DeformKind>)
    ensures
        r@ == spec_deform_requests(locked, left_held, right_held),
        !locked ==> r@.len() == 0,
        locked ==> r@.contains(DeformKind::Dig) == left_held,
        locked ==> r@.contains(DeformKind::Fill) == right_held,
{
    let mut r: Vec<DeformKind> = Vec::new();
    if !locked {
        assert(r@ =~= spec_deform_requests(locked, left_held, right_held));
        return r;
    }
    if left_held {
        r.push(DeformKind::Dig);
    }
    if right_held {
        r.push(DeformKind::Fill);
    }
    assert(r@ =~= spec_deform_requests(locked, left_held, right_held));
    proof { lemma_requests_follow_buttons(locked, left_held, right_held); }
    r
}

/// No edit is asked for while the pointer is free; while it is locked, exactly one dig while the
/// left button is held and exactly one fill while the right one is, the dig first.
pub proof fn lemma_requests_follow_buttons(locked: bool, left_held: bool, right_held: bool)
    ensures
        !locked ==> spec_deform_requests(locked, left_held, right_held).len() == 0,
        locked ==> spec_deform_requests(locked, left_held, right_held).len()
            == (if left_held { 1int } else { 0int }) + (if right_held { 1int } else { 0int }),
        locked ==> (spec_deform_requests(locked, left_held, right_held).contains(DeformKind::Dig) <==> left_held),
        locked ==> (spec_deform_requests(locked, left_held, right_held).contains(DeformKind::Fill) <==> right_held),
        locked && left_held ==> spec_deform_requests(locked, left_held, right_held)[0] == DeformKind::Dig,
{
    let s = spec_deform_requests(locked, left_held, right_held);
    if locked {
        if left_held && right_held {
            assert(s[0] == DeformKind::Dig && s[1] == DeformKind::Fill);
        } else if left_held {
            assert(s[0] == DeformKind::Dig);
        } else if right_held {
            assert(s[0] == DeformKind::Fill);
        }
        if !left_held {
            assert forall|i: int| 0 <= i < s.len() implies s[i] != DeformKind::Dig by {}
        }
        if !right_held {
            assert forall|i: int| 0 <= i < s.len() implies s[i] != DeformKind::Fill by {}
        }
    }
}

/// What to do with a chunk's entity after its voxels were changed.
#[derive(Clone, Copy, Debug, PartialEq, Eq, Structural)]
pub enum ChunkRefresh {
    /// The chunk became all air: despawn its entity.
    Despawn(u64),
    /// Rebuild the mesh of this entity from the new voxels.
    ReplaceMesh(u64),
    /// No entity shows the chunk yet; the chunk loader spawns it from the edited voxels later.
    Keep,
}

/// Decides the fate of an edited chunk from the entity that shows it (if any) and whether the
/// new surface has no triangles.
pub fn refresh_after_deform(entity: Option<u64>, mesh_empty: bool) -> (r: ChunkRefresh)
    ensures
        r == (match entity {
            None => ChunkRefresh::Keep,
            Some(e) => if mesh_empty { ChunkRefresh::Despawn(e) } else { ChunkRefresh::ReplaceMesh(e) },
        }),
{
    match entity {
        None => ChunkRefresh::Keep,
        Some(e) => if mesh_empty { ChunkRefresh::Despawn(e) } else { ChunkRefresh::ReplaceMesh(e) },
    }
}

} // verus!
