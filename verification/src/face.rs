//! Faces, their corners, and the rule that splits a face into triangles.

use vstd::prelude::*;
use crate::error::MeshError;

verus! {

/// One vertex reference within a face: zero-based indices into the position,
/// texture-coordinate and normal sequences of a geometry store.
#[derive(Clone, Copy, Debug, PartialEq, Eq, Hash)]
pub struct FaceCorner {
    pub position: usize,
    pub texture: Option<usize>,
    pub normal: Option<usize>,
}

/// A polygon of three or four corners, in the winding in which it was authored.
#[derive(Clone, Copy, Debug, PartialEq, Eq, Hash)]
pub enum Face {
    Tri(FaceCorner, FaceCorner, FaceCorner),
    Quad(FaceCorner, FaceCorner, FaceCorner, FaceCorner),
}

/// Three corners, in the order in which they are drawn.
#[derive(Clone, Copy, Debug, PartialEq, Eq, Hash)]
pub struct Triangle {
    pub corners: [FaceCorner; 3],
}

/// The number of triangles that a sequence of faces splits into: one for a
/// triangle, two for a quad.
pub open spec fn triangle_count(faces: Seq<Face>) -> nat
    decreases faces.len(),
{
    if faces.len() == 0 {
        0
    } else {
        triangle_count(faces.drop_last()) + if faces.last().arity_spec() == 3 {
            1nat
        } else {
            2nat
        }
    }
}

/// The triangles of a sequence of faces, face after face.
pub open spec fn triangles_of(faces: Seq<Face>) -> Seq<Triangle>
    decreases faces.len(),
{
    if faces.len() == 0 {
        Seq::empty()
    } else {
        triangles_of(faces.drop_last()) + faces.last().triangles()
    }
}

/// The face that a run of corners stands for, if it has three or four corners.
pub open spec fn face_of(corners: Seq<FaceCorner>) -> Option<Face> {
    if corners.len() == 3 {
        Some(Face::Tri(corners[0], corners[1], corners[2]))
    } else if corners.len() == 4 {
        Some(Face::Quad(corners[0], corners[1], corners[2], corners[3]))
    } else {
        None
    }
}

impl Triangle {
    /// The triangle of three corners, in that order.
    pub fn new(c0: FaceCorner, c1: FaceCorner, c2: FaceCorner) -> (t: Triangle)
        ensures
            t.corners@ == seq![c0, c1, c2],
    {
        Triangle { corners: [c0, c1, c2] }
    }
}

impl Face {
    /// The number of corners: 3 or 4.
    pub open spec fn arity_spec(self) -> nat {
        match self {
            Face::Tri(..) => 3,
            Face::Quad(..) => 4,
        }
    }

    /// The corners in authored order.
    pub open spec fn corners(self) -> Seq<FaceCorner> {
        match self {
            Face::Tri(c0, c1, c2) => seq![c0, c1, c2],
            Face::Quad(c0, c1, c2, c3) => seq![c0, c1, c2, c3],
        }
    }

    /// The fan from the first corner: `(c0, c1, c2)`, and for a quad also
    /// `(c0, c1, c3)`. Corners are never reordered.
    ///
    /// The rule is right for convex, planar quads only; nothing here tests a
    /// quad for either.
    pub open spec fn triangles(self) -> Seq<Triangle> {
        match self {
            Face::Tri(c0, c1, c2) => seq![Triangle { corners: [c0, c1, c2] }],
            Face::Quad(c0, c1, c2, c3) => seq![
                Triangle { corners: [c0, c1, c2] },
                Triangle { corners: [c0, c1, c3] },
            ],
        }
    }

    /// Builds a face from its corners, in their order. Refused with
    /// `UnsupportedArity` where there are fewer than three or more than four.
    pub fn from_corners(corners: &[FaceCorner]) -> (r: Result<Face, MeshError>)
        ensures
            r == match face_of(corners@) {
                Some(face) => Ok::<Face, MeshError>(face),
                None => Err(MeshError::UnsupportedArity),
            },
    {
        if corners.len() == 3 {
            Ok(Face::Tri(corners[0], corners[1], corners[2]))
        } else if corners.len() == 4 {
            Ok(Face::Quad(corners[0], corners[1], corners[2], corners[3]))
        } else {
            Err(MeshError::UnsupportedArity)
        }
    }

    /// The number of corners.
    pub fn arity(&self) -> (n: usize)
        ensures
            n == self.arity_spec(),
    {
        match self {
            Face::Tri(..) => 3,
            Face::Quad(..) => 4,
        }
    }

    /// The corner at place `k`, counted from zero.
    pub fn corner(&self, k: usize) -> (c: Option<FaceCorner>)
        ensures
            c == if k < self.arity_spec() {
                Some(self.corners()[k as int])
            } else {
                None
            },
    {
        match *self {
            Face::Tri(c0, c1, c2) => if k == 0 {
                Some(c0)
            } else if k == 1 {
                Some(c1)
            } else if k == 2 {
                Some(c2)
            } else {
                None
            },
            Face::Quad(c0, c1, c2, c3) => if k == 0 {
                Some(c0)
            } else if k == 1 {
                Some(c1)
            } else if k == 2 {
                Some(c2)
            } else if k == 3 {
                Some(c3)
            } else {
                None
            },
        }
    }

    /// Splits the face into one or two triangles.
    pub fn triangulate(&self) -> (r: Vec<Triangle>)
        ensures
            r@ == self.triangles(),
            r.len() == self.arity_spec() - 2,
    {
        let mut r: Vec<Triangle> = Vec::new();
        match *self {
            Face::Tri(c0, c1, c2) => {
                r.push(Triangle { corners: [c0, c1, c2] });
            },
            Face::Quad(c0, c1, c2, c3) => {
                r.push(Triangle { corners: [c0, c1, c2] });
                r.push(Triangle { corners: [c0, c1, c3] });
            },
        }
        assert(r@ =~= self.triangles());
        r
    }
}

/// Every sequence of faces splits into one triangle for each triangle among
/// them and two for each quad.
pub proof fn lemma_triangle_count(faces: Seq<Face>)
    ensures
        triangles_of(faces).len() == triangle_count(faces),
    decreases faces.len(),
{
    if faces.len() > 0 {
        lemma_triangle_count(faces.drop_last());
    }
}

} // verus!
