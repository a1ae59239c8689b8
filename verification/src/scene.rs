//! A camera and the mesh that it looks at.

use vstd::prelude::*;
use crate::mesh::{Mesh, MeshView, Vertex};

verus! {

/// What is drawn, and from where. The library reads nothing of the camera,
/// so its type is the caller's.
pub struct Scene<C> {
    pub camera: C,
    mesh: Mesh,
}

impl<C> Scene<C> {
    /// The camera of the scene.
    pub closed spec fn camera_view(&self) -> C {
        self.camera
    }

    /// What the mesh of the scene holds.
    pub closed spec fn mesh_view(&self) -> MeshView {
        self.mesh@
    }

    /// A scene of a camera and a mesh.
    pub fn new(camera: C, mesh: Mesh) -> (s: Self)
        ensures
            s.camera_view() == camera,
            s.mesh_view() == mesh@,
    {
        Scene { camera, mesh }
    }

    /// The camera of the scene.
    pub fn camera(&self) -> (c: &C)
        ensures
            *c == self.camera_view(),
    {
        &self.camera
    }

    /// The mesh of the scene.
    pub fn mesh(&self) -> (m: &Mesh)
        ensures
            m@ == self.mesh_view(),
    {
        &self.mesh
    }

    /// The expanded vertex buffer of the mesh, with no texture layer: see
    /// [`Mesh::vertex_buffer`].
    pub fn get_vertex_array(&self) -> (r: Vec<Vertex>)
        ensures
            r@ == self.mesh_view().expanded(None),
    {
        self.mesh.vertex_buffer(None)
    }
}

} // verus!
