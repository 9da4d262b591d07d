//! Collider meshes: the triangles of an indexed triangle list.
use vstd::prelude::*;

verus! {

/// The triangles of a triangle list: each run of three indices is one
/// triangle.
pub open spec fn triangles_of(indices: Seq<u32>) -> Seq<[u32; 3]> {
    Seq::new(
        indices.len() / 3,
        |k: int| [indices[3 * k], indices[3 * k + 1], indices[3 * k + 2]],
    )
}

/// Groups an index list into triangles. The list holds whole triangles.
pub fn triangles(indices: &Vec<u32>) -> (r: Vec<[u32; 3]>)
    requires
        indices.len() % 3 == 0,
    ensures
        r@ == triangles_of(indices@),
{
    let mut r: Vec<[u32; 3]> = Vec::new();
    let mut i: usize = 0;
    while i < indices.len()
        invariant
            indices.len() % 3 == 0,
            i % 3 == 0,
            i <= indices.len(),
            r@.len() == i / 3,
            forall|k: int|
                0 <= k < r@.len() ==> #[trigger] r@[k] == [
                    indices@[3 * k],
                    indices@[3 * k + 1],
                    indices@[3 * k + 2],
                ],
        decreases indices.len() - i,
    {
        r.push([indices[i], indices[i + 1], indices[i + 2]]);
        i = i + 3;
    }
    assert(r@ =~= triangles_of(indices@));
    r
}

} // verus!
