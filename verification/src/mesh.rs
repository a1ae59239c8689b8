//! Vertices and the mesh that yields them.

use vstd::prelude::*;
use crate::error::MeshError;
use crate::face::{triangle_count, triangles_of, lemma_triangle_count, Face, FaceCorner, Triangle};
use crate::store::{GeometryStore, StoreView};

verus! {

/// A vertex as the rasteriser binds it: position, normal, texture coordinate,
/// then the barycentric weight and the texture layer where there is one. Each
/// scalar is the bit pattern of a single-precision number.
#[derive(Clone, Copy, Debug, PartialEq, Eq, Hash)]
pub struct Vertex {
    pub v_position: [u32; 3],
    pub v_normal: [u32; 3],
    pub v_tex_coords: [u32; 2],
    pub v_barycentric: Option<[u32; 3]>,
    pub v_tex_id: Option<u32>,
}

fn same2(a: &[u32; 2], b: &[u32; 2]) -> (r: bool)
    ensures
        r == (*a == *b),
{
    let r = a[0] == b[0] && a[1] == b[1];
    proof {
        if r {
            assert(*a =~= *b);
        }
    }
    r
}

fn same3(a: &[u32; 3], b: &[u32; 3]) -> (r: bool)
    ensures
        r == (*a == *b),
{
    let r = a[0] == b[0] && a[1] == b[1] && a[2] == b[2];
    proof {
        if r {
            assert(*a =~= *b);
        }
    }
    r
}

impl Vertex {
    /// Whether two vertices agree in every attribute, bit for bit.
    pub fn same(&self, other: &Vertex) -> (r: bool)
        ensures
            r == (*self == *other),
    {
        same3(&self.v_position, &other.v_position) && same3(&self.v_normal, &other.v_normal)
            && same2(&self.v_tex_coords, &other.v_tex_coords) && (match (
            self.v_barycentric,
            other.v_barycentric,
        ) {
            (Some(a), Some(b)) => same3(&a, &b),
            (None, None) => true,
            _ => false,
        }) && (match (self.v_tex_id, other.v_tex_id) {
            (Some(a), Some(b)) => a == b,
            (None, None) => true,
            _ => false,
        })
    }
}

impl Face {
    /// Whether every corner of the face names entries that the store holds.
    pub open spec fn within(self, store: StoreView) -> bool {
        forall|k: int| 0 <= k < self.corners().len() ==> store.holds(#[trigger] self.corners()[k])
    }

    /// Whether every corner of the face names entries that the store holds.
    pub fn is_within(&self, store: &GeometryStore) -> (b: bool)
        ensures
            b == self.within(store@),
    {
        match self {
            Face::Tri(c0, c1, c2) => {
                let b = store.holds(c0) && store.holds(c1) && store.holds(c2);
                proof {
                    assert(self.corners()[0] == *c0);
                    assert(self.corners()[1] == *c1);
                    assert(self.corners()[2] == *c2);
                }
                b
            },
            Face::Quad(c0, c1, c2, c3) => {
                let b = store.holds(c0) && store.holds(c1) && store.holds(c2) && store.holds(c3);
                proof {
                    assert(self.corners()[0] == *c0);
                    assert(self.corners()[1] == *c1);
                    assert(self.corners()[2] == *c2);
                    assert(self.corners()[3] == *c3);
                }
                b
            },
        }
    }
}

/// What a mesh holds.
pub struct MeshView {
    pub store: StoreView,
    pub faces: Seq<Face>,
}

impl MeshView {
    /// Whether every face refers to entries that the store holds.
    pub open spec fn well_formed(self) -> bool {
        forall|f: int| 0 <= f < self.faces.len() ==> (#[trigger] self.faces[f]).within(self.store)
    }

    /// The triangles of the mesh: those of its faces, in face order.
    pub open spec fn triangles(self) -> Seq<Triangle> {
        triangles_of(self.faces)
    }
}

/// Geometry and faces, joined once and read-only from then on: every corner
/// of every face names entries that the store holds.
#[derive(Debug)]
pub struct Mesh {
    store: GeometryStore,
    faces: Vec<Face>,
}

impl View for Mesh {
    type V = MeshView;

    closed spec fn view(&self) -> MeshView {
        MeshView { store: self.store@, faces: self.faces@ }
    }
}

/// In a store that holds every corner of every face, each corner of each
/// triangle of those faces is held too.
pub proof fn lemma_triangles_within(store: StoreView, faces: Seq<Face>)
    requires
        forall|f: int| 0 <= f < faces.len() ==> (#[trigger] faces[f]).within(store),
    ensures
        forall|t: int, k: int|
            0 <= t < triangles_of(faces).len() && 0 <= k < 3 ==> store.holds(
                #[trigger] triangles_of(faces)[t].corners@[k],
            ),
    decreases faces.len(),
{
    if faces.len() > 0 {
        let front = faces.drop_last();
        let last = faces.last();
        lemma_triangles_within(store, front);
        assert(last.within(store));
        assert forall|t: int, k: int|
            0 <= t < triangles_of(faces).len() && 0 <= k < 3 implies store.holds(
            #[trigger] triangles_of(faces)[t].corners@[k],
        ) by {
            let n = triangles_of(front).len();
            if t >= n {
                let c = last.triangles()[t - n].corners@[k];
                match last {
                    Face::Tri(c0, c1, c2) => {
                        assert(last.corners()[0] == c0);
                        assert(last.corners()[1] == c1);
                        assert(last.corners()[2] == c2);
                    },
                    Face::Quad(c0, c1, c2, c3) => {
                        assert(last.corners()[0] == c0);
                        assert(last.corners()[1] == c1);
                        assert(last.corners()[2] == c2);
                        assert(last.corners()[3] == c3);
                    },
                }
                assert(store.holds(c));
            }
        }
    }
}

impl Mesh {
    #[verifier::type_invariant]
    spec fn faces_are_held(self) -> bool {
        forall|f: int| 0 <= f < self.faces@.len() ==> (#[trigger] self.faces@[f]).within(self.store@)
    }

    /// Joins a store and faces that refer to nothing but what it holds.
    pub(crate) fn of_held(store: GeometryStore, faces: Vec<Face>) -> (mesh: Mesh)
        requires
            forall|f: int| 0 <= f < faces@.len() ==> (#[trigger] faces@[f]).within(store@),
        ensures
            mesh@ == (MeshView { store: store@, faces: faces@ }),
            mesh@.well_formed(),
    {
        Mesh { store, faces }
    }

    /// Joins a store and faces into a mesh. Refused with `DanglingReference`
    /// where a corner of a face names an entry that the store does not hold.
    pub fn new(store: GeometryStore, faces: Vec<Face>) -> (r: Result<Mesh, MeshError>)
        ensures
            match r {
                Ok(mesh) => mesh@ == (MeshView { store: store@, faces: faces@ })
                    && mesh@.well_formed(),
                Err(e) => e == MeshError::DanglingReference && !(MeshView {
                    store: store@,
                    faces: faces@,
                }).well_formed(),
            },
    {
        let mut f: usize = 0;
        while f < faces.len()
            invariant
                f <= faces.len(),
                forall|g: int| 0 <= g < f ==> (#[trigger] faces@[g]).within(store@),
            decreases faces.len() - f,
        {
            if !faces[f].is_within(&store) {
                proof {
                    let view = MeshView { store: store@, faces: faces@ };
                    assert(!view.faces[f as int].within(view.store));
                    assert(!view.well_formed());
                }
                return Err(MeshError::DanglingReference);
            }
            f += 1;
        }
        Ok(Mesh::of_held(store, faces))
    }

    /// The geometry store of the mesh.
    pub fn store(&self) -> (s: &GeometryStore)
        ensures
            s@ == self@.store,
            self@.well_formed(),
    {
        proof {
            use_type_invariant(self);
        }
        &self.store
    }

    /// The faces of the mesh, in the order in which they were given.
    pub fn faces(&self) -> (f: &Vec<Face>)
        ensures
            f@ == self@.faces,
            self@.well_formed(),
    {
        proof {
            use_type_invariant(self);
        }
        &self.faces
    }

    /// Resolves a corner against the store of the mesh; see
    /// [`GeometryStore::resolve`].
    pub fn create_vertex(&self, index: &FaceCorner, tex_id: Option<u32>) -> (r: Result<
        Vertex,
        MeshError,
    >)
        ensures
            r == if self@.store.holds(*index) {
                Ok::<Vertex, MeshError>(self@.store.resolved(*index, tex_id))
            } else {
                Err(MeshError::DanglingReference)
            },
    {
        self.store.resolve(index, tex_id)
    }

    /// The triangles of the mesh: those of its faces, face after face, one
    /// for each triangle and two for each quad.
    pub fn triangles(&self) -> (r: Vec<Triangle>)
        ensures
            r@ == self@.triangles(),
            r.len() == triangle_count(self@.faces),
    {
        let mut r: Vec<Triangle> = Vec::new();
        let mut f: usize = 0;
        while f < self.faces.len()
            invariant
                f <= self.faces.len(),
                r@ == triangles_of(self.faces@.take(f as int)),
            decreases self.faces.len() - f,
        {
            let mut part = self.faces[f].triangulate();
            proof {
                let next = self.faces@.take(f + 1);
                assert(next.drop_last() =~= self.faces@.take(f as int));
                assert(next.last() == self.faces@[f as int]);
            }
            r.append(&mut part);
            f += 1;
        }
        proof {
            assert(self.faces@.take(f as int) =~= self.faces@);
            lemma_triangle_count(self.faces@);
        }
        r
    }
}

} // verus!
