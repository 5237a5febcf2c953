//! The output mesh: four per-vertex buffers with a triangle-list topology.
//!
//! Vertex attribute components are IEEE-754 single-precision values carried as
//! their bit patterns (`u32`): the conversion never computes with them, it only
//! moves them, so holding the raw bits keeps every buffer a plain value.

use vstd::prelude::*;

verus! {

/// A triangulated mesh: position, normal and texture-coordinate rows (one
/// triple of component bit patterns per vertex) plus a triangle index list.
#[derive(Debug)]
pub struct MeshData {
    /// One position per vertex, three component bit patterns each.
    pub positions: Vec<(u32, u32, u32)>,
    /// One normal per vertex, three component bit patterns each.
    pub normals: Vec<(u32, u32, u32)>,
    /// One texture coordinate per vertex; the third component is unused.
    pub uvs: Vec<(u32, u32, u32)>,
    /// Triangle corners: three consecutive entries form one triangle.
    pub indices: Vec<u32>,
}

/// `n` rows of all-zero bit patterns, the placeholder for an attribute the
/// source file does not carry (the bit pattern of 0.0 is 0).
pub open spec fn zero_seq(n: nat) -> Seq<(u32, u32, u32)> {
    Seq::new(n, |i: int| (0u32, 0u32, 0u32))
}

impl MeshData {
    /// Every attribute buffer holds one row per vertex, and the index list
    /// describes whole triangles whose corners point into those buffers.
    pub open spec fn wf(self) -> bool {
        &&& self.normals@.len() == self.positions@.len()
        &&& self.uvs@.len() == self.positions@.len()
        &&& self.indices@.len() % 3 == 0
        &&& forall|i: int|
            0 <= i < self.indices@.len() ==> (self.indices@[i] as int) < self.positions@.len()
    }

    /// An empty triangle-list mesh, ready to be filled.
    pub fn new() -> (m: MeshData)
        ensures
            m.positions@.len() == 0,
            m.normals@.len() == 0,
            m.uvs@.len() == 0,
            m.indices@.len() == 0,
            m.wf(),
    {
        MeshData { positions: Vec::new(), normals: Vec::new(), uvs: Vec::new(), indices: Vec::new() }
    }
}

/// Store `data` as the mesh's position buffer, leaving the other buffers as
/// they are.
pub fn set_position_data(mesh: &mut MeshData, data: Vec<(u32, u32, u32)>)
    ensures
        final(mesh).positions@ == data@,
        final(mesh).normals@ == old(mesh).normals@,
        final(mesh).uvs@ == old(mesh).uvs@,
        final(mesh).indices@ == old(mesh).indices@,
{
    mesh.positions = data;
}

/// Store `data` as the mesh's normal buffer, leaving the other buffers as
/// they are.
pub fn set_normal_data(mesh: &mut MeshData, data: Vec<(u32, u32, u32)>)
    ensures
        final(mesh).normals@ == data@,
        final(mesh).positions@ == old(mesh).positions@,
        final(mesh).uvs@ == old(mesh).uvs@,
        final(mesh).indices@ == old(mesh).indices@,
{
    mesh.normals = data;
}

/// Store `data` as the mesh's texture-coordinate buffer, leaving the other
/// buffers as they are.
pub fn set_uv_data(mesh: &mut MeshData, data: Vec<(u32, u32, u32)>)
    ensures
        final(mesh).uvs@ == data@,
        final(mesh).positions@ == old(mesh).positions@,
        final(mesh).normals@ == old(mesh).normals@,
        final(mesh).indices@ == old(mesh).indices@,
{
    mesh.uvs = data;
}

/// Store `indices` as the mesh's triangle index list, leaving the attribute
/// buffers as they are.
pub fn set_mesh_indices(mesh: &mut MeshData, indices: Vec<u32>)
    ensures
        final(mesh).indices@ == indices@,
        final(mesh).positions@ == old(mesh).positions@,
        final(mesh).normals@ == old(mesh).normals@,
        final(mesh).uvs@ == old(mesh).uvs@,
{
    mesh.indices = indices;
}

/// Build `n` all-zero attribute rows.
pub fn zero_rows(n: usize) -> (r: Vec<(u32, u32, u32)>)
    ensures
        r@ == zero_seq(n as nat),
{
    let mut r: Vec<(u32, u32, u32)> = Vec::new();
    let mut i: usize = 0;
    while i < n
        invariant
            i <= n,
            r@ == zero_seq(i as nat),
        decreases n - i,
    {
        r.push((0u32, 0u32, 0u32));
        i = i + 1;
        proof {
            assert(r@ =~= zero_seq(i as nat));
        }
    }
    r
}

} // verus!
