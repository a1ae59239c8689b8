//! The geometry store: positions, normals and texture coordinates, each in the
//! order in which it was declared, and the resolution of a face corner
//! against them.

use vstd::prelude::*;
use crate::error::MeshError;
use crate::face::FaceCorner;
use crate::mesh::Vertex;

verus! {

/// The bit pattern of the single-precision number 0.
pub const ZERO: u32 = 0;

/// The bit pattern of the single-precision number 1.
pub const ONE: u32 = 0x3f80_0000;

/// What a geometry store holds.
pub struct StoreView {
    pub positions: Seq<[u32; 3]>,
    pub normals: Seq<[u32; 3]>,
    pub tex_coords: Seq<[u32; 2]>,
}

impl StoreView {
    /// The store that holds nothing.
    pub open spec fn empty() -> StoreView {
        StoreView { positions: Seq::empty(), normals: Seq::empty(), tex_coords: Seq::empty() }
    }

    /// Whether every index of the corner names an entry of the store. The
    /// position is always asked for; a texture coordinate or a normal only
    /// where the corner names one.
    pub open spec fn holds(self, corner: FaceCorner) -> bool {
        &&& corner.position < self.positions.len()
        &&& corner.texture matches Some(t) ==> t < self.tex_coords.len()
        &&& corner.normal matches Some(n) ==> n < self.normals.len()
    }

    /// The texture coordinate of a corner: the one it names, or zero.
    pub open spec fn tex_coord_of(self, corner: FaceCorner) -> [u32; 2] {
        match corner.texture {
            Some(t) => self.tex_coords[t as int],
            None => [ZERO, ZERO],
        }
    }

    /// The normal of a corner: the one it names, or zero.
    pub open spec fn normal_of(self, corner: FaceCorner) -> [u32; 3] {
        match corner.normal {
            Some(n) => self.normals[n as int],
            None => [ZERO, ZERO, ZERO],
        }
    }

    /// The vertex that a corner resolves to, with no barycentric weight.
    pub open spec fn resolved(self, corner: FaceCorner, tex_id: Option<u32>) -> Vertex {
        Vertex {
            v_position: self.positions[corner.position as int],
            v_normal: self.normal_of(corner),
            v_tex_coords: self.tex_coord_of(corner),
            v_barycentric: None,
            v_tex_id: tex_id,
        }
    }
}

/// Positions, normals and texture coordinates, each in declaration order.
/// Entries are only ever added at the end, so an index keeps its meaning.
#[derive(Debug)]
pub struct GeometryStore {
    positions: Vec<[u32; 3]>,
    normals: Vec<[u32; 3]>,
    tex_coords: Vec<[u32; 2]>,
}

impl View for GeometryStore {
    type V = StoreView;

    closed spec fn view(&self) -> StoreView {
        StoreView {
            positions: self.positions@,
            normals: self.normals@,
            tex_coords: self.tex_coords@,
        }
    }
}

impl GeometryStore {
    /// A store that holds nothing.
    pub fn new() -> (s: GeometryStore)
        ensures
            s@ == StoreView::empty(),
    {
        GeometryStore { positions: Vec::new(), normals: Vec::new(), tex_coords: Vec::new() }
    }

    /// Adds a position behind those already held.
    pub fn push_position(&mut self, p: [u32; 3])
        ensures
            final(self)@ == (StoreView { positions: old(self)@.positions.push(p), ..old(self)@ }),
    {
        self.positions.push(p);
    }

    /// Adds a normal behind those already held.
    pub fn push_normal(&mut self, n: [u32; 3])
        ensures
            final(self)@ == (StoreView { normals: old(self)@.normals.push(n), ..old(self)@ }),
    {
        self.normals.push(n);
    }

    /// Adds a texture coordinate behind those already held.
    pub fn push_tex_coord(&mut self, t: [u32; 2])
        ensures
            final(self)@ == (StoreView { tex_coords: old(self)@.tex_coords.push(t), ..old(self)@ }),
    {
        self.tex_coords.push(t);
    }

    /// The number of positions.
    pub fn position_count(&self) -> (n: usize)
        ensures
            n == self@.positions.len(),
    {
        self.positions.len()
    }

    /// The number of normals.
    pub fn normal_count(&self) -> (n: usize)
        ensures
            n == self@.normals.len(),
    {
        self.normals.len()
    }

    /// The number of texture coordinates.
    pub fn tex_coord_count(&self) -> (n: usize)
        ensures
            n == self@.tex_coords.len(),
    {
        self.tex_coords.len()
    }

    /// The position at a zero-based index, or `DanglingReference` where the
    /// store holds none there.
    pub fn position(&self, index: usize) -> (r: Result<[u32; 3], MeshError>)
        ensures
            r == if index < self@.positions.len() {
                Ok::<[u32; 3], MeshError>(self@.positions[index as int])
            } else {
                Err(MeshError::DanglingReference)
            },
    {
        if index < self.positions.len() {
            Ok(self.positions[index])
        } else {
            Err(MeshError::DanglingReference)
        }
    }

    /// The normal at a zero-based index, or `DanglingReference` where the
    /// store holds none there.
    pub fn normal(&self, index: usize) -> (r: Result<[u32; 3], MeshError>)
        ensures
            r == if index < self@.normals.len() {
                Ok::<[u32; 3], MeshError>(self@.normals[index as int])
            } else {
                Err(MeshError::DanglingReference)
            },
    {
        if index < self.normals.len() {
            Ok(self.normals[index])
        } else {
            Err(MeshError::DanglingReference)
        }
    }

    /// The texture coordinate at a zero-based index, or `DanglingReference`
    /// where the store holds none there.
    pub fn tex_coord(&self, index: usize) -> (r: Result<[u32; 2], MeshError>)
        ensures
            r == if index < self@.tex_coords.len() {
                Ok::<[u32; 2], MeshError>(self@.tex_coords[index as int])
            } else {
                Err(MeshError::DanglingReference)
            },
    {
        if index < self.tex_coords.len() {
            Ok(self.tex_coords[index])
        } else {
            Err(MeshError::DanglingReference)
        }
    }

    /// Whether every index of the corner names an entry of the store.
    pub fn holds(&self, corner: &FaceCorner) -> (b: bool)
        ensures
            b == self@.holds(*corner),
    {
        corner.position < self.positions.len() && (match corner.texture {
            Some(t) => t < self.tex_coords.len(),
            None => true,
        }) && (match corner.normal {
            Some(n) => n < self.normals.len(),
            None => true,
        })
    }

    /// The vertex of a corner whose indices the store holds.
    pub(crate) fn vertex_of(&self, corner: &FaceCorner, tex_id: Option<u32>) -> (v: Vertex)
        requires
            self@.holds(*corner),
        ensures
            v == self@.resolved(*corner, tex_id),
    {
        let v_tex_coords = match corner.texture {
            Some(t) => self.tex_coords[t],
            None => [ZERO, ZERO],
        };
        let v_normal = match corner.normal {
            Some(n) => self.normals[n],
            None => [ZERO, ZERO, ZERO],
        };
        Vertex {
            v_position: self.positions[corner.position],
            v_normal,
            v_tex_coords,
            v_barycentric: None,
            v_tex_id: tex_id,
        }
    }

    /// Resolves a corner to a vertex: the position it names, the normal and
    /// the texture coordinate it names or zero where it names none, and the
    /// texture layer that the caller supplies. A normal of zero so stands for
    /// a normal that was never given. The vertex carries no barycentric
    /// weight: that belongs to a place in a triangle, not to a corner.
    ///
    /// Refused with `DanglingReference` where the corner names an entry that
    /// the store does not hold.
    pub fn resolve(&self, corner: &FaceCorner, tex_id: Option<u32>) -> (r: Result<
        Vertex,
        MeshError,
    >)
        ensures
            r == if self@.holds(*corner) {
                Ok::<Vertex, MeshError>(self@.resolved(*corner, tex_id))
            } else {
                Err(MeshError::DanglingReference)
            },
    {
        if self.holds(corner) {
            Ok(self.vertex_of(corner, tex_id))
        } else {
            Err(MeshError::DanglingReference)
        }
    }
}

/// Resolution reads nothing but what the store holds: two stores that hold
/// the same entries resolve every corner alike, and so does one store asked
/// twice.
pub proof fn lemma_resolution_repeats(
    first: GeometryStore,
    second: GeometryStore,
    corner: FaceCorner,
    tex_id: Option<u32>,
)
    requires
        first@ == second@,
    ensures
        first@.holds(corner) == second@.holds(corner),
        first@.resolved(corner, tex_id) == second@.resolved(corner, tex_id),
{
}

} // verus!
