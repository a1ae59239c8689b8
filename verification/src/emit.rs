//! The buffer emitter: the triangles of a mesh laid out as vertex buffers.
//!
//! Expanded buffers hold one vertex for each triangle corner and carry
//! barycentric weights, which belong to a place in a triangle and so cannot be
//! shared. Indexed buffers hold each distinct vertex once, in the order in
//! which it is first met, and one 16-bit index for each triangle corner.

use vstd::prelude::*;
use crate::error::MeshError;
use crate::face::{FaceCorner, Triangle};
use crate::mesh::{lemma_triangles_within, Mesh, MeshView, Vertex};
use crate::store::{ONE, ZERO};

verus! {

/// The greatest number of distinct vertices that an indexed buffer may hold.
pub const MAX_INDEXED_VERTICES: usize = 65535;

/// How a mesh is laid out.
#[derive(Clone, Copy, Debug, PartialEq, Eq, Structural)]
pub enum BufferMode {
    /// Distinct vertices and 16-bit indices; no barycentric weights.
    Indexed,
    /// One vertex for each triangle corner, with barycentric weights.
    Expanded,
}

/// A vertex buffer and, in indexed mode, the index buffer that goes with it.
#[derive(Debug)]
pub struct Buffers {
    pub vertices: Vec<Vertex>,
    pub indices: Option<Vec<u16>>,
}

/// The barycentric weight of the corner at place `k` of a triangle: the
/// `k`-th standard basis vector.
pub open spec fn basis(k: int) -> [u32; 3] {
    if k == 0 {
        [ONE, ZERO, ZERO]
    } else if k == 1 {
        [ZERO, ONE, ZERO]
    } else {
        [ZERO, ZERO, ONE]
    }
}

/// The corner at place `i` when the corners of the triangles are counted
/// through, triangle after triangle.
pub open spec fn nth_corner(triangles: Seq<Triangle>, i: int) -> FaceCorner {
    triangles[i / 3].corners@[i % 3]
}

/// A sequence with `v` noted: unchanged where it holds `v`, else with `v` at
/// its end.
pub open spec fn noted(seen: Seq<Vertex>, v: Vertex) -> Seq<Vertex> {
    if seen.contains(v) {
        seen
    } else {
        seen.push(v)
    }
}

/// The distinct values of a sequence, each at the place of its first
/// occurrence among the others.
pub open spec fn first_seen(s: Seq<Vertex>) -> Seq<Vertex>
    decreases s.len(),
{
    if s.len() == 0 {
        Seq::empty()
    } else {
        noted(first_seen(s.drop_last()), s.last())
    }
}

/// Whether some index of the buffer names the vertex at place `j`.
pub open spec fn referenced(indices: Seq<u16>, j: int) -> bool {
    exists|i: int| 0 <= i < indices.len() && #[trigger] indices[i] == j
}

impl MeshView {
    /// The number of triangle corners.
    pub open spec fn corner_count(self) -> nat {
        3 * self.triangles().len()
    }

    /// The vertex of the triangle corner at place `i`, as every triangle that
    /// meets it there sees it: without a barycentric weight.
    pub open spec fn corner_vertex(self, i: int, tex_id: Option<u32>) -> Vertex {
        self.store.resolved(nth_corner(self.triangles(), i), tex_id)
    }

    /// The vertex of each triangle corner, in triangle order.
    pub open spec fn corner_vertices(self, tex_id: Option<u32>) -> Seq<Vertex> {
        Seq::new(self.corner_count(), |i: int| self.corner_vertex(i, tex_id))
    }

    /// The expanded vertex buffer: the vertex of each triangle corner, with
    /// the barycentric weight of its place in its triangle.
    pub open spec fn expanded(self, tex_id: Option<u32>) -> Seq<Vertex> {
        Seq::new(
            self.corner_count(),
            |i: int|
                Vertex { v_barycentric: Some(basis(i % 3)), ..self.corner_vertex(i, tex_id) },
        )
    }

    /// The vertex buffer of indexed mode: the distinct corner vertices, in
    /// the order in which they are first met.
    pub open spec fn distinct_vertices(self, tex_id: Option<u32>) -> Seq<Vertex> {
        first_seen(self.corner_vertices(tex_id))
    }
}

/// The distinct values of a sequence are pairwise different, and they are
/// the values that occur in it.
pub proof fn lemma_first_seen(s: Seq<Vertex>)
    ensures
        first_seen(s).no_duplicates(),
        forall|v: Vertex| first_seen(s).contains(v) <==> s.contains(v),
    decreases s.len(),
{
    if s.len() > 0 {
        let front = s.drop_last();
        let last = s.last();
        lemma_first_seen(front);
        let seen = first_seen(front);
        let now = first_seen(s);
        assert(now == noted(seen, last));
        assert forall|v: Vertex| now.contains(v) <==> s.contains(v) by {
            assert(seen.contains(v) <==> front.contains(v));
            if s.contains(v) {
                let i = choose|i: int| 0 <= i < s.len() && s[i] == v;
                if i < front.len() {
                    assert(front[i] == v);
                    assert(front.contains(v));
                    let j = choose|j: int| 0 <= j < seen.len() && seen[j] == v;
                    assert(now[j] == v);
                } else {
                    assert(v == last);
                    if !seen.contains(last) {
                        assert(now[seen.len() as int] == last);
                    }
                }
                assert(now.contains(v));
            }
            if now.contains(v) {
                let j = choose|j: int| 0 <= j < now.len() && now[j] == v;
                if j < seen.len() {
                    assert(seen[j] == v);
                    assert(seen.contains(v));
                    let i = choose|i: int| 0 <= i < front.len() && front[i] == v;
                    assert(s[i] == v);
                } else {
                    assert(v == last);
                    assert(s[s.len() - 1] == v);
                }
                assert(s.contains(v));
            }
        }
    }
}

/// A longer stretch of a sequence has no fewer distinct values than a
/// shorter one.
pub proof fn lemma_first_seen_grows(s: Seq<Vertex>, k: int)
    requires
        0 <= k <= s.len(),
    ensures
        first_seen(s.take(k)).len() <= first_seen(s).len(),
    decreases s.len() - k,
{
    if k < s.len() {
        lemma_first_seen_grows(s, k + 1);
        assert(s.take(k + 1).drop_last() =~= s.take(k));
    } else {
        assert(s.take(k) =~= s);
    }
}

/// In the expanded buffer the corners of every triangle carry the weights
/// `(1, 0, 0)`, `(0, 1, 0)` and `(0, 0, 1)`, in corner order, and are
/// otherwise the vertices that those corners resolve to. A point of the
/// mesh that two triangles share so carries in each of them the weight of
/// its place there.
pub proof fn lemma_expanded_weights(mesh: MeshView, tex_id: Option<u32>, t: int, k: int)
    requires
        0 <= t < mesh.triangles().len(),
        0 <= k < 3,
    ensures
        mesh.expanded(tex_id)[3 * t + k] == (Vertex {
            v_barycentric: Some(basis(k)),
            ..mesh.store.resolved(mesh.triangles()[t].corners@[k], tex_id)
        }),
        basis(0) == [ONE, ZERO, ZERO],
        basis(1) == [ZERO, ONE, ZERO],
        basis(2) == [ZERO, ZERO, ONE],
{
}

/// No vertex stands twice in the vertex buffer of indexed mode, and its
/// vertices are those of the triangle corners.
pub proof fn lemma_distinct_vertices(mesh: MeshView, tex_id: Option<u32>)
    ensures
        mesh.distinct_vertices(tex_id).no_duplicates(),
        forall|v: Vertex|
            mesh.distinct_vertices(tex_id).contains(v) <==> mesh.corner_vertices(tex_id).contains(
                v,
            ),
{
    lemma_first_seen(mesh.corner_vertices(tex_id));
}

/// The two modes agree: the vertex that an expanded buffer holds at a place
/// is the vertex of the triangle corner at that place, which is what the
/// index at that place names in the indexed buffers, with the weight of the
/// place added.
pub proof fn lemma_modes_agree(mesh: MeshView, tex_id: Option<u32>, i: int)
    requires
        0 <= i < mesh.corner_count(),
    ensures
        mesh.expanded(tex_id).len() == mesh.corner_vertices(tex_id).len(),
        mesh.expanded(tex_id)[i] == (Vertex {
            v_barycentric: Some(basis(i % 3)),
            ..mesh.corner_vertices(tex_id)[i]
        }),
        mesh.distinct_vertices(tex_id).contains(mesh.corner_vertices(tex_id)[i]),
{
    lemma_first_seen(mesh.corner_vertices(tex_id));
    assert(mesh.corner_vertices(tex_id).contains(mesh.corner_vertices(tex_id)[i]));
}

/// The modulus of the hash by which vertices are found again.
const HASH_MODULUS: u64 = 4294967291;

/// The greatest number of chains among which the vertices are spread.
const MAX_CHAINS: usize = 65536;

/// The mark of a chain's end.
const NONE: u16 = 0xffff;

/// One step of the hash.
spec fn mixed(h: int, x: u32) -> int {
    (h * 31 + x) % (HASH_MODULUS as int)
}

/// The hash of a vertex: it reads the position, the normal and the texture
/// coordinate, so vertices that are the same hash alike.
spec fn hash_of(v: Vertex) -> int {
    mixed(
        mixed(
            mixed(
                mixed(
                    mixed(
                        mixed(mixed(mixed(0, v.v_position[0]), v.v_position[1]), v.v_position[2]),
                        v.v_normal[0],
                    ),
                    v.v_normal[1],
                ),
                v.v_normal[2],
            ),
            v.v_tex_coords[0],
        ),
        v.v_tex_coords[1],
    )
}

/// The chain of a vertex among `chains` chains.
spec fn chain_of(v: Vertex, chains: int) -> int {
    hash_of(v) % chains
}

/// The place that a link names, or -1 where it marks the end of a chain.
spec fn place_of(link: u16) -> int {
    if link == NONE {
        -1
    } else {
        link as int
    }
}

fn mix(h: u64, x: u32) -> (r: u64)
    requires
        h < HASH_MODULUS,
    ensures
        r == mixed(h as int, x),
        r < HASH_MODULUS,
{
    (h * 31 + x as u64) % HASH_MODULUS
}

fn chain(v: &Vertex, chains: usize) -> (r: usize)
    requires
        0 < chains <= MAX_CHAINS,
    ensures
        r == chain_of(*v, chains as int),
        r < chains,
{
    let h = mix(0, v.v_position[0]);
    let h = mix(h, v.v_position[1]);
    let h = mix(h, v.v_position[2]);
    let h = mix(h, v.v_normal[0]);
    let h = mix(h, v.v_normal[1]);
    let h = mix(h, v.v_normal[2]);
    let h = mix(h, v.v_tex_coords[0]);
    let h = mix(h, v.v_tex_coords[1]);
    (h % (chains as u64)) as usize
}

/// The distinct vertices met so far, each linked to the one before it in its
/// chain, so that a vertex is found again without reading them all.
struct Seen {
    vertices: Vec<Vertex>,
    /// For each chain, the last vertex in it.
    heads: Vec<u16>,
    /// For each vertex, the one before it in its chain.
    links: Vec<u16>,
}

impl Seen {
    /// Whether `link` names the last of the first `n` vertices that lies in
    /// the chain `c`, or marks that there is none.
    spec fn last_in_chain(self, link: u16, c: int, n: int) -> bool {
        &&& place_of(link) < n
        &&& link != NONE ==> chain_of(self.vertices@[link as int], self.heads@.len() as int) == c
        &&& forall|i: int|
            place_of(link) < i < n ==> chain_of(
                #[trigger] self.vertices@[i],
                self.heads@.len() as int,
            ) != c
    }

    spec fn wf(self) -> bool {
        &&& 0 < self.heads@.len() <= MAX_CHAINS
        &&& self.vertices@.len() <= MAX_INDEXED_VERTICES
        &&& self.links@.len() == self.vertices@.len()
        &&& forall|c: int|
            0 <= c < self.heads@.len() ==> self.last_in_chain(
                #[trigger] self.heads@[c],
                c,
                self.vertices@.len() as int,
            )
        &&& forall|j: int|
            0 <= j < self.vertices@.len() ==> self.last_in_chain(
                #[trigger] self.links@[j],
                chain_of(self.vertices@[j], self.heads@.len() as int),
                j,
            )
    }

    fn new(chains: usize) -> (r: Seen)
        requires
            0 < chains <= MAX_CHAINS,
        ensures
            r.wf(),
            r.vertices@.len() == 0,
    {
        let mut heads: Vec<u16> = Vec::new();
        while heads.len() < chains
            invariant
                heads.len() <= chains,
                forall|c: int| 0 <= c < heads.len() ==> heads@[c] == NONE,
            decreases chains - heads.len(),
        {
            heads.push(NONE);
        }
        Seen { vertices: Vec::new(), heads, links: Vec::new() }
    }

    /// The place of `v` among the vertices.
    fn find(&self, v: &Vertex) -> (r: Option<u16>)
        requires
            self.wf(),
        ensures
            match r {
                Some(j) => j < self.vertices@.len() && self.vertices@[j as int] == *v,
                None => !self.vertices@.contains(*v),
            },
    {
        let c = chain(v, self.heads.len());
        let mut link = self.heads[c];
        while link != NONE
            invariant
                self.wf(),
                c == chain_of(*v, self.heads@.len() as int),
                place_of(link) < self.vertices@.len(),
                link != NONE ==> chain_of(self.vertices@[link as int], self.heads@.len() as int)
                    == c,
                forall|i: int|
                    place_of(link) < i < self.vertices@.len() ==> #[trigger] self.vertices@[i]
                        != *v,
            decreases place_of(link) + 1,
        {
            let j = link as usize;
            if self.vertices[j].same(v) {
                return Some(link);
            }
            let next = self.links[j];
            proof {
                assert(self.last_in_chain(next, c as int, j as int));
                assert forall|i: int|
                    place_of(next) < i < self.vertices@.len() implies #[trigger] self.vertices@[i]
                    != *v by {
                    if i < j {
                        assert(chain_of(self.vertices@[i], self.heads@.len() as int) != c);
                    }
                }
            }
            link = next;
        }
        None
    }

    /// Adds a vertex that is not among the vertices yet.
    fn add(&mut self, v: &Vertex) -> (j: u16)
        requires
            old(self).wf(),
            old(self).vertices@.len() < MAX_INDEXED_VERTICES,
        ensures
            final(self).wf(),
            final(self).vertices@ == old(self).vertices@.push(*v),
            final(self).heads@.len() == old(self).heads@.len(),
            j == old(self).vertices@.len(),
    {
        let c = chain(v, self.heads.len());
        let j = self.vertices.len() as u16;
        let before = self.heads[c];
        self.vertices.push(*v);
        self.links.push(before);
        self.heads.set(c, j);
        proof {
            let n = old(self).vertices@.len() as int;
            let chains = self.heads@.len() as int;
            assert forall|d: int| 0 <= d < self.heads@.len() implies self.last_in_chain(
                #[trigger] self.heads@[d],
                d,
                self.vertices@.len() as int,
            ) by {
                if d != c {
                    assert(old(self).last_in_chain(old(self).heads@[d], d, n));
                }
            }
            assert forall|i: int| 0 <= i < self.vertices@.len() implies self.last_in_chain(
                #[trigger] self.links@[i],
                chain_of(self.vertices@[i], chains),
                i,
            ) by {
                if i < n {
                    assert(old(self).last_in_chain(
                        old(self).links@[i],
                        chain_of(old(self).vertices@[i], chains),
                        i,
                    ));
                } else {
                    assert(old(self).last_in_chain(before, c as int, n));
                }
            }
        }
        j
    }

    /// Notes `v` among the vertices and says at which place it stands there.
    fn place(&mut self, v: &Vertex) -> (r: Result<u16, MeshError>)
        requires
            old(self).wf(),
        ensures
            final(self).wf(),
            final(self).heads@.len() == old(self).heads@.len(),
            match r {
                Ok(j) => {
                    &&& final(self).vertices@ == noted(old(self).vertices@, *v)
                    &&& j < final(self).vertices@.len()
                    &&& final(self).vertices@[j as int] == *v
                },
                Err(e) => {
                    &&& e == MeshError::CapacityExceeded
                    &&& final(self).vertices@ == old(self).vertices@
                    &&& noted(old(self).vertices@, *v).len() > MAX_INDEXED_VERTICES
                },
            },
    {
        match self.find(v) {
            Some(j) => Ok(j),
            None => if self.vertices.len() == MAX_INDEXED_VERTICES {
                Err(MeshError::CapacityExceeded)
            } else {
                Ok(self.add(v))
            },
        }
    }
}

impl Mesh {
    /// The vertex of the corner at place `k` of the triangle at place `t`.
    fn vertex_at(&self, triangles: &Vec<Triangle>, t: usize, k: usize, tex_id: Option<u32>) -> (v:
        Vertex)
        requires
            triangles@ == self@.triangles(),
            t < triangles.len(),
            k < 3,
        ensures
            v == self@.corner_vertex(3 * t + k, tex_id),
    {
        let corner = triangles[t].corners[k];
        let store = self.store();
        proof {
            lemma_triangles_within(self@.store, self@.faces);
            assert(store@.holds(triangles@[t as int].corners@[k as int]));
        }
        store.vertex_of(&corner, tex_id)
    }

    /// The expanded vertex buffer: one vertex for each corner of each
    /// triangle, in triangle order and, within a triangle, in corner order.
    /// The corners of a triangle carry the barycentric weights `(1, 0, 0)`,
    /// `(0, 1, 0)` and `(0, 0, 1)`, in that order, whatever weight the same
    /// point of the mesh carries in another triangle.
    pub fn vertex_buffer(&self, tex_id: Option<u32>) -> (r: Vec<Vertex>)
        ensures
            r@ == self@.expanded(tex_id),
            r.len() == 3 * self@.triangles().len(),
    {
        let triangles = self.triangles();
        let mut r: Vec<Vertex> = Vec::new();
        let mut t: usize = 0;
        while t < triangles.len()
            invariant
                t <= triangles.len(),
                triangles@ == self@.triangles(),
                r.len() == 3 * t,
                forall|i: int| 0 <= i < r.len() ==> r@[i] == self@.expanded(tex_id)[i],
            decreases triangles.len() - t,
        {
            let v0 = self.vertex_at(&triangles, t, 0, tex_id);
            let v1 = self.vertex_at(&triangles, t, 1, tex_id);
            let v2 = self.vertex_at(&triangles, t, 2, tex_id);
            r.push(Vertex { v_barycentric: Some([ONE, ZERO, ZERO]), ..v0 });
            r.push(Vertex { v_barycentric: Some([ZERO, ONE, ZERO]), ..v1 });
            r.push(Vertex { v_barycentric: Some([ZERO, ZERO, ONE]), ..v2 });
            t += 1;
        }
        assert(r@ =~= self@.expanded(tex_id));
        r
    }

    /// The indexed buffers: the distinct corner vertices, in the order in
    /// which they are first met, and for each triangle corner, in triangle
    /// order, the place of its vertex among them. Two vertices are the same
    /// when they agree in every attribute, bit for bit.
    ///
    /// Refused with `CapacityExceeded` when there are more than 65535
    /// distinct vertices; no index is ever cut short.
    pub fn indexed_buffers(&self, tex_id: Option<u32>) -> (r: Result<
        (Vec<Vertex>, Vec<u16>),
        MeshError,
    >)
        ensures
            match r {
                Ok((vertices, indices)) => {
                    &&& vertices@ == self@.distinct_vertices(tex_id)
                    &&& vertices.len() <= MAX_INDEXED_VERTICES
                    &&& indices.len() == self@.corner_count()
                    &&& forall|i: int|
                        0 <= i < indices.len() ==> (#[trigger] indices@[i]) < vertices.len()
                            && vertices@[indices@[i] as int] == self@.corner_vertex(i, tex_id)
                    &&& forall|j: int| 0 <= j < vertices.len() ==> #[trigger] referenced(indices@, j)
                },
                Err(e) => e == MeshError::CapacityExceeded && self@.distinct_vertices(
                    tex_id,
                ).len() > MAX_INDEXED_VERTICES,
            },
    {
        let triangles = self.triangles();
        let ghost all = self@.corner_vertices(tex_id);
        let chains: usize = if triangles.len() == 0 {
            1
        } else if triangles.len() > MAX_CHAINS / 3 {
            MAX_CHAINS
        } else {
            3 * triangles.len()
        };
        let mut seen = Seen::new(chains);
        let mut indices: Vec<u16> = Vec::new();
        let mut t: usize = 0;
        while t < triangles.len()
            invariant
                t <= triangles.len(),
                triangles@ == self@.triangles(),
                all == self@.corner_vertices(tex_id),
                seen.wf(),
                indices.len() == 3 * t,
                seen.vertices@ == first_seen(all.take(3 * t)),
                forall|i: int|
                    0 <= i < indices.len() ==> (#[trigger] indices@[i]) < seen.vertices@.len()
                        && seen.vertices@[indices@[i] as int] == all[i],
            decreases triangles.len() - t,
        {
            let mut k: usize = 0;
            while k < 3
                invariant
                    k <= 3,
                    t < triangles.len(),
                    triangles@ == self@.triangles(),
                    all == self@.corner_vertices(tex_id),
                    seen.wf(),
                    indices.len() == 3 * t + k,
                    seen.vertices@ == first_seen(all.take(3 * t + k)),
                    forall|i: int|
                        0 <= i < indices.len() ==> (#[trigger] indices@[i]) < seen.vertices@.len()
                            && seen.vertices@[indices@[i] as int] == all[i],
                decreases 3 - k,
            {
                let v = self.vertex_at(&triangles, t, k, tex_id);
                let ghost i = 3 * t + k;
                proof {
                    assert(all[i] == v);
                    assert(all.take(i + 1).drop_last() =~= all.take(i));
                    assert(all.take(i + 1).last() == v);
                }
                match seen.place(&v) {
                    Ok(j) => {
                        indices.push(j);
                    },
                    Err(e) => {
                        proof {
                            lemma_first_seen_grows(all, i + 1);
                        }
                        return Err(e);
                    },
                }
                k += 1;
            }
            t += 1;
        }
        proof {
            assert(all.take(3 * t) =~= all);
            lemma_first_seen(all);
        }
        let vertices = seen.vertices;
        proof {
            assert forall|j: int| 0 <= j < vertices.len() implies #[trigger] referenced(
                indices@,
                j,
            ) by {
                let v = vertices@[j];
                assert(first_seen(all).contains(v));
                assert(all.contains(v));
                let i = choose|i: int| 0 <= i < all.len() && all[i] == v;
                assert(vertices@[indices@[i] as int] == v);
                assert(indices@[i] == j);
            }
        }
        Ok((vertices, indices))
    }

    /// Lays the mesh out in the mode that the caller names: see
    /// [`Mesh::indexed_buffers`] and [`Mesh::vertex_buffer`].
    pub fn emit(&self, mode: BufferMode, tex_id: Option<u32>) -> (r: Result<Buffers, MeshError>)
        ensures
            mode == BufferMode::Expanded ==> r is Ok && r->Ok_0.indices is None
                && r->Ok_0.vertices@ == self@.expanded(tex_id),
            mode == BufferMode::Indexed ==> match r {
                Ok(b) => {
                    &&& b.indices is Some
                    &&& b.vertices@ == self@.distinct_vertices(tex_id)
                    &&& b.vertices.len() <= MAX_INDEXED_VERTICES
                    &&& b.indices->0.len() == self@.corner_count()
                    &&& forall|i: int|
                        0 <= i < b.indices->0.len() ==> (#[trigger] b.indices->0@[i])
                            < b.vertices.len() && b.vertices@[b.indices->0@[i] as int]
                            == self@.corner_vertex(i, tex_id)
                    &&& forall|j: int|
                        0 <= j < b.vertices.len() ==> #[trigger] referenced(b.indices->0@, j)
                },
                Err(e) => e == MeshError::CapacityExceeded && self@.distinct_vertices(
                    tex_id,
                ).len() > MAX_INDEXED_VERTICES,
            },
    {
        match mode {
            BufferMode::Expanded => Ok(
                Buffers { vertices: self.vertex_buffer(tex_id), indices: None },
            ),
            BufferMode::Indexed => match self.indexed_buffers(tex_id) {
                Ok((vertices, indices)) => Ok(Buffers { vertices, indices: Some(indices) }),
                Err(e) => Err(e),
            },
        }
    }
}

} // verus!
