use vstd::prelude::*;

use crate::sp::SurfacePoint;
use crate::store::{VertexStore, store_add};
use crate::vertex::Vertex;

verus! {

/// What a mesh builder holds after it has added the corners `pts` one by one,
/// starting from the vertices `verts` and the per-vertex normal faces `faces`
/// while its index buffer held `t0` entries: a corner seen for the first time
/// is appended to the vertices, and carries the normal of the triangle it
/// belongs to, triangle `(t0 + k) / 3` for corner `k`.
pub open spec fn add_corners(verts: Seq<Vertex>, faces: Seq<usize>, pts: Seq<Vertex>, t0: int) -> (
    Seq<Vertex>,
    Seq<usize>,
)
    decreases pts.len(),
{
    if pts.len() == 0 {
        (verts, faces)
    } else {
        let (v, f) = add_corners(verts, faces, pts.drop_last(), t0);
        let p = pts.last();
        if v.contains(p) {
            (v, f)
        } else {
            (v.push(p), f.push(((t0 + pts.len() - 1) / 3) as usize))
        }
    }
}

/// Adding one corner.
proof fn lemma_add_one_corner(verts: Seq<Vertex>, faces: Seq<usize>, p: Vertex, t0: int)
    ensures
        add_corners(verts, faces, seq![p], t0) == if verts.contains(p) {
            (verts, faces)
        } else {
            (verts.push(p), faces.push((t0 / 3) as usize))
        },
{
    assert(seq![p].drop_last() =~= Seq::<Vertex>::empty());
    assert(add_corners(verts, faces, Seq::empty(), t0) == (verts, faces));
}

/// Adding `a` and then `b` is adding `a + b`.
proof fn lemma_add_corners_split(
    verts: Seq<Vertex>,
    faces: Seq<usize>,
    a: Seq<Vertex>,
    b: Seq<Vertex>,
    t0: int,
)
    ensures
        add_corners(verts, faces, a + b, t0) == add_corners(
            add_corners(verts, faces, a, t0).0,
            add_corners(verts, faces, a, t0).1,
            b,
            t0 + a.len(),
        ),
    decreases b.len(),
{
    let (va, fa) = add_corners(verts, faces, a, t0);
    if b.len() == 0 {
        assert(a + b =~= a);
    } else {
        assert((a + b).drop_last() =~= a + b.drop_last());
        lemma_add_corners_split(verts, faces, a, b.drop_last(), t0);
        assert((a + b).last() == b.last());
    }
}

/// The six corners of quad `i` between two consecutive loops, as the two
/// triangles `(p0, p1, p3)` and `(p1, p2, p3)` with `p0 = prev[i-1]`,
/// `p1 = prev[i]`, `p2 = curr[i]`, `p3 = curr[i-1]`.
pub open spec fn quad_corners(prev: Seq<Vertex>, curr: Seq<Vertex>, i: int) -> Seq<Vertex> {
    seq![prev[i - 1], prev[i], curr[i - 1], prev[i], curr[i], curr[i - 1]]
}

/// Corners of the first `k` quads between two consecutive loops.
pub open spec fn strip_corners(prev: Seq<Vertex>, curr: Seq<Vertex>, k: int) -> Seq<Vertex>
    decreases k,
{
    if k <= 0 {
        Seq::empty()
    } else {
        strip_corners(prev, curr, k - 1) + quad_corners(prev, curr, k)
    }
}

/// Corners of every quad between loops `0..=c`, loop pair by loop pair.
pub open spec fn sheet_corners(loops: Seq<Seq<Vertex>>, c: int) -> Seq<Vertex>
    decreases c,
{
    if c <= 0 {
        Seq::empty()
    } else {
        sheet_corners(loops, c - 1) + strip_corners(loops[c - 1], loops[c], loops[c].len() - 1)
    }
}

/// Adding corners only appends vertices, never one twice, and each one
/// appended is a corner.
proof fn lemma_add_corners_shape(verts: Seq<Vertex>, faces: Seq<usize>, pts: Seq<Vertex>, t0: int)
    requires
        verts.no_duplicates(),
    ensures
        add_corners(verts, faces, pts, t0).0.len() >= verts.len(),
        add_corners(verts, faces, pts, t0).0.subrange(0, verts.len() as int) == verts,
        add_corners(verts, faces, pts, t0).0.no_duplicates(),
        forall|i: int|
            verts.len() <= i < add_corners(verts, faces, pts, t0).0.len() ==> pts.contains(
                #[trigger] add_corners(verts, faces, pts, t0).0[i],
            ),
    decreases pts.len(),
{
    if pts.len() == 0 {
        assert(verts.subrange(0, verts.len() as int) =~= verts);
    } else {
        let q = pts.drop_last();
        lemma_add_corners_shape(verts, faces, q, t0);
        let v = add_corners(verts, faces, q, t0).0;
        let r = add_corners(verts, faces, pts, t0).0;
        assert forall|i: int| verts.len() <= i < r.len() implies pts.contains(#[trigger] r[i]) by {
            if i < v.len() {
                assert(q.contains(v[i]));
                let j = choose|j: int| 0 <= j < q.len() && q[j] == v[i];
                assert(pts[j] == v[i]);
            } else {
                assert(pts[pts.len() - 1] == r[i]);
            }
        }
        assert(r.subrange(0, verts.len() as int) =~= verts);
    }
}

/// Adding corners all drawn from `flat` to a store without duplicates grows it
/// by at most the length of `flat`.
proof fn lemma_add_corners_bound(
    verts: Seq<Vertex>,
    faces: Seq<usize>,
    pts: Seq<Vertex>,
    t0: int,
    flat: Seq<Vertex>,
)
    requires
        verts.no_duplicates(),
        forall|k: int| 0 <= k < pts.len() ==> flat.contains(#[trigger] pts[k]),
    ensures
        add_corners(verts, faces, pts, t0).0.len() <= verts.len() + flat.len(),
{
    lemma_add_corners_shape(verts, faces, pts, t0);
    let r = add_corners(verts, faces, pts, t0).0;
    let extra = r.subrange(verts.len() as int, r.len() as int);
    assert(extra.no_duplicates());
    extra.unique_seq_to_set();
    assert forall|x: Vertex| extra.to_set().contains(x) implies flat.to_set().contains(x) by {
        let i = choose|i: int| 0 <= i < extra.len() && extra[i] == x;
        assert(r[verts.len() + i] == x);
        assert(pts.contains(x));
        let k = choose|k: int| 0 <= k < pts.len() && pts[k] == x;
        assert(flat.contains(pts[k]));
    }
    flat.lemma_cardinality_of_set();
    vstd::set_lib::lemma_len_subset(extra.to_set(), flat.to_set());
}

/// Every sample of every loop is among the loops' samples laid end to end.
proof fn lemma_in_flatten(loops: Seq<Seq<Vertex>>, c: int, j: int)
    requires
        0 <= c < loops.len(),
        0 <= j < loops[c].len(),
    ensures
        loops.flatten_alt().contains(loops[c][j]),
    decreases loops.len(),
{
    let f = loops.flatten_alt();
    let d = loops.drop_last().flatten_alt();
    assert(f == d + loops.last());
    if c == loops.len() - 1 {
        assert(f[d.len() + j] == loops[c][j]);
    } else {
        assert(loops.drop_last()[c] == loops[c]);
        lemma_in_flatten(loops.drop_last(), c, j);
        let i = choose|i: int| 0 <= i < d.len() && d[i] == loops[c][j];
        assert(f[i] == loops[c][j]);
    }
}

/// Each corner of a strip is a sample of one of its two loops.
proof fn lemma_strip_in(prev: Seq<Vertex>, curr: Seq<Vertex>, k: int, flat: Seq<Vertex>)
    requires
        k < prev.len(),
        k < curr.len(),
        forall|j: int| 0 <= j < prev.len() ==> flat.contains(#[trigger] prev[j]),
        forall|j: int| 0 <= j < curr.len() ==> flat.contains(#[trigger] curr[j]),
    ensures
        forall|m: int|
            0 <= m < strip_corners(prev, curr, k).len() ==> flat.contains(
                #[trigger] strip_corners(prev, curr, k)[m],
            ),
    decreases k,
{
    if k > 0 {
        lemma_strip_in(prev, curr, k - 1, flat);
        let a = strip_corners(prev, curr, k - 1);
        let q = quad_corners(prev, curr, k);
        assert forall|m: int| 0 <= m < (a + q).len() implies flat.contains(#[trigger] (a + q)[m]) by {
            if m >= a.len() {
                assert(flat.contains(prev[k - 1]));
                assert(flat.contains(prev[k]));
                assert(flat.contains(curr[k - 1]));
                assert(flat.contains(curr[k]));
            }
        }
    }
}

/// Each corner of a sheet is a sample of one of its loops.
proof fn lemma_sheet_in(loops: Seq<Seq<Vertex>>, c: int)
    requires
        c < loops.len(),
        forall|i: int| 0 <= i < loops.len() ==> #[trigger] loops[i].len() == loops[0].len(),
    ensures
        forall|m: int|
            0 <= m < sheet_corners(loops, c).len() ==> loops.flatten_alt().contains(
                #[trigger] sheet_corners(loops, c)[m],
            ),
    decreases c,
{
    let flat = loops.flatten_alt();
    if c > 0 {
        lemma_sheet_in(loops, c - 1);
        assert forall|j: int| 0 <= j < loops[c - 1].len() implies flat.contains(
            #[trigger] loops[c - 1][j],
        ) by {
            lemma_in_flatten(loops, c - 1, j);
        }
        assert forall|j: int| 0 <= j < loops[c].len() implies flat.contains(
            #[trigger] loops[c][j],
        ) by {
            lemma_in_flatten(loops, c, j);
        }
        lemma_strip_in(loops[c - 1], loops[c], loops[c].len() - 1, flat);
        let a = sheet_corners(loops, c - 1);
        let b = strip_corners(loops[c - 1], loops[c], loops[c].len() - 1);
        assert forall|m: int| 0 <= m < (a + b).len() implies flat.contains(#[trigger] (a + b)[m]) by {
            if m >= a.len() {
                assert(b[m - a.len()] == (a + b)[m]);
            }
        }
    }
}

/// A strip of `k` quads has `6 k` corners.
proof fn lemma_strip_len(prev: Seq<Vertex>, curr: Seq<Vertex>, k: int)
    requires
        k >= 0,
    ensures
        strip_corners(prev, curr, k).len() == 6 * k,
    decreases k,
{
    if k > 0 {
        lemma_strip_len(prev, curr, k - 1);
    }
}

/// Stitching `n_loops` loops of `n` samples each gives `(n_loops - 1) (n - 1)`
/// quads, two triangles apiece, and adds no more vertices than there are
/// samples, whatever the store held before.
pub proof fn lemma_mesh_counts(verts: Seq<Vertex>, faces: Seq<usize>, loops: Seq<Seq<Vertex>>, t0: int)
    requires
        verts.no_duplicates(),
        loops.len() >= 1,
        loops[0].len() >= 1,
        forall|i: int| 0 <= i < loops.len() ==> #[trigger] loops[i].len() == loops[0].len(),
    ensures
        sheet_corners(loops, loops.len() - 1).len() == 3 * (2 * (loops.len() - 1) * (loops[0].len()
            - 1)),
        add_corners(verts, faces, sheet_corners(loops, loops.len() - 1), t0).0.len() <= verts.len()
            + loops.len() * loops[0].len(),
{
    lemma_sheet_len(loops, loops.len() - 1);
    lemma_sheet_in(loops, loops.len() - 1);
    loops.lemma_flatten_length_le_mul(loops[0].len() as int);
    loops.lemma_flatten_and_flatten_alt_are_equivalent();
    lemma_add_corners_bound(
        verts,
        faces,
        sheet_corners(loops, loops.len() - 1),
        t0,
        loops.flatten_alt(),
    );
    assert(3 * (2 * (loops.len() - 1) * (loops[0].len() - 1)) == 6 * (loops.len() - 1) * (
        loops[0].len() - 1)) by (nonlinear_arith);
}

/// A sheet over loops `0..=c` of `n` samples each has `6 c (n - 1)` corners.
proof fn lemma_sheet_len(loops: Seq<Seq<Vertex>>, c: int)
    requires
        0 <= c < loops.len(),
        loops[0].len() >= 1,
        forall|i: int| 0 <= i < loops.len() ==> #[trigger] loops[i].len() == loops[0].len(),
    ensures
        sheet_corners(loops, c).len() == 6 * c * (loops[0].len() - 1),
    decreases c,
{
    if c > 0 {
        lemma_sheet_len(loops, c - 1);
        assert(loops[c].len() == loops[0].len());
        lemma_strip_len(loops[c - 1], loops[c], loops[c].len() - 1);
        assert(6 * (c - 1) * (loops[0].len() - 1) + 6 * (loops[0].len() - 1) == 6 * c * (
            loops[0].len() - 1)) by (nonlinear_arith);
    } else {
        assert(6 * c * (loops[0].len() - 1) == 0) by (nonlinear_arith)
            requires
                c == 0,
        ;
    }
}

/// The sample arrays of a family of loops, as sequences.
pub open spec fn loop_views(loops: Seq<Vec<Vertex>>) -> Seq<Seq<Vertex>> {
    loops.map_values(|l: Vec<Vertex>| l@)
}

/// Reasons a mesh cannot be built.
#[derive(Clone, Copy, Debug, PartialEq, Eq, Structural)]
pub enum HopfMeshError {
    /// A loop of the mesh could not be resampled within the retry budget.
    NRetriesExceeded {
        /// The number of retries used.
        n_tries: u16,
        /// The seed of the loop that failed.
        sp: SurfacePoint,
    },
    /// The start and end of the seed line are the same, or the line yields
    /// no loop at all.
    LineError {
        /// The start of the line segment.
        lines_start: SurfacePoint,
        /// The end of the line segment.
        lines_end: SurfacePoint,
    },
}

/// A finished mesh: vertices by index, triangles as index triples, and the
/// normal source of each vertex.
pub struct MeshBuffers {
    /// The distinct vertices, by index.
    pub positions: Vec<Vertex>,
    /// Three vertex indices per triangle, counter-clockwise.
    pub indices: Vec<u32>,
    /// For each vertex, the triangle whose face normal it carries.
    pub normal_faces: Vec<usize>,
}

/// The seed line a mesh is woven along.
#[derive(Clone, Copy, Debug)]
struct Hopf {
    line_start: SurfacePoint,
    line_end: SurfacePoint,
    n_loops: u16,
}

/// Accumulates triangles over deduplicated vertices.
///
/// Every vertex is stored once, under the index of its first appearance; each
/// vertex also records the triangle that introduced it, whose face normal is
/// the vertex's normal.
pub struct HopfMeshBuilder {
    vertex_store: VertexStore,
    /// `[1, 2, 3, 4, 5, 6]` stands for the triangles `(1, 2, 3)` and `(4, 5, 6)`.
    triangle_store: Vec<u32>,
    normal_store: Vec<usize>,
    n_tries: u16,
    hopf: Hopf,
}

impl HopfMeshBuilder {
    /// The distinct vertices, by index.
    pub closed spec fn vertices(&self) -> Seq<Vertex> {
        self.vertex_store@
    }

    /// The index buffer, three entries per triangle.
    pub closed spec fn triangles(&self) -> Seq<u32> {
        self.triangle_store@
    }

    /// For each vertex, the triangle whose face normal it carries.
    pub closed spec fn normal_faces(&self) -> Seq<usize> {
        self.normal_store@
    }

    /// The settings: seed line start and end, number of loops, and retry
    /// budget per loop.
    pub closed spec fn settings(&self) -> (SurfacePoint, SurfacePoint, u16, u16) {
        (self.hopf.line_start, self.hopf.line_end, self.hopf.n_loops, self.n_tries)
    }

    /// The buffers agree with one another.
    pub closed spec fn wf(&self) -> bool {
        &&& self.vertex_store.wf()
        &&& self.normal_store@.len() == self.vertex_store@.len()
        &&& self.triangle_store@.len() % 3 == 0
        &&& forall|k: int|
            0 <= k < self.triangle_store@.len() ==> #[trigger] self.triangle_store@[k]
                < self.vertex_store@.len()
    }

    /// A well-formed builder holds each vertex once, and its index buffer
    /// points into the vertices.
    pub proof fn lemma_wf(&self)
        requires
            self.wf(),
        ensures
            self.vertices().no_duplicates(),
            self.vertices().len() <= u32::MAX,
            self.normal_faces().len() == self.vertices().len(),
            self.triangles().len() % 3 == 0,
            forall|k: int|
                0 <= k < self.triangles().len() ==> #[trigger] self.triangles()[k]
                    < self.vertices().len(),
    {
        self.vertex_store.lemma_distinct();
    }

    /// Adding a vertex the builder already holds, or adding one twice, hands
    /// back the index of the first time and leaves the vertices as they were.
    pub proof fn lemma_dedup_idempotent(&self, p: Vertex)
        requires
            self.wf(),
        ensures
            store_add(store_add(self.vertices(), p).0, p) == store_add(self.vertices(), p),
    {
        self.lemma_wf();
        crate::store::lemma_dedup_idempotent(self.vertices(), p);
    }

    /// A builder for the mesh woven along the seed line from `line_start` to
    /// `line_end` with `n_loops` loops, with nothing added yet.
    pub fn new(line_start: &SurfacePoint, line_end: &SurfacePoint, n_loops: u16, n_tries: u16) -> (r:
        Self)
        ensures
            r.wf(),
            r.vertices() == Seq::<Vertex>::empty(),
            r.triangles() == Seq::<u32>::empty(),
            r.normal_faces() == Seq::<usize>::empty(),
            r.settings() == (*line_start, *line_end, n_loops, n_tries),
    {
        HopfMeshBuilder {
            vertex_store: VertexStore::new(),
            triangle_store: Vec::new(),
            normal_store: Vec::new(),
            n_tries,
            hopf: Hopf { line_start: *line_start, line_end: *line_end, n_loops },
        }
    }

    /// Adds `p` and returns its index: the existing one when a bit-identical
    /// vertex is held, else the next free one. A new vertex takes its normal
    /// from the triangle being added, the one after those already held.
    pub fn add_vertex(&mut self, p: &Vertex) -> (r: u32)
        requires
            old(self).wf(),
            old(self).vertices().contains(*p) || old(self).vertices().len() < u32::MAX,
        ensures
            final(self).wf(),
            (final(self).vertices(), final(self).normal_faces()) == add_corners(
                old(self).vertices(),
                old(self).normal_faces(),
                seq![*p],
                old(self).triangles().len() as int,
            ),
            (final(self).vertices(), r as int) == store_add(old(self).vertices(), *p),
            old(self).vertices().contains(*p) ==> final(self).vertices() == old(self).vertices()
                && final(self).normal_faces() == old(self).normal_faces() && old(
                self,
            ).vertices()[r as int] == *p,
            final(self).triangles() == old(self).triangles(),
            final(self).settings() == old(self).settings(),
    {
        let ghost pts = seq![*p];
        let ghost t0 = self.triangles().len() as int;
        proof {
            assert(pts.drop_last() =~= Seq::<Vertex>::empty());
            assert(add_corners(self.vertices(), self.normal_faces(), Seq::empty(), t0) == (
                self.vertices(),
                self.normal_faces(),
            ));
        }
        let n = self.vertex_store.len();
        let r = self.vertex_store.add_vertex(p);
        if self.vertex_store.len() > n {
            self.normal_store.push(self.triangle_store.len() / 3);
        }
        r
    }

    /// Adds the triangle `(p0, p1, p2)`, in that winding order, over
    /// deduplicated vertices.
    pub fn add_triangle(&mut self, p0: &Vertex, p1: &Vertex, p2: &Vertex)
        requires
            old(self).wf(),
            old(self).vertices().len() + 3 <= u32::MAX,
        ensures
            final(self).wf(),
            (final(self).vertices(), final(self).normal_faces()) == add_corners(
                old(self).vertices(),
                old(self).normal_faces(),
                seq![*p0, *p1, *p2],
                old(self).triangles().len() as int,
            ),
            final(self).vertices().len() >= old(self).vertices().len(),
            final(self).vertices().subrange(0, old(self).vertices().len() as int) == old(
                self,
            ).vertices(),
            final(self).triangles().len() == old(self).triangles().len() + 3,
            final(self).triangles().subrange(0, old(self).triangles().len() as int)
                == old(self).triangles(),
            final(self).vertices()[final(self).triangles()[old(self).triangles().len() as int]
                as int] == *p0,
            final(self).vertices()[final(self).triangles()[old(self).triangles().len() + 1int]
                as int] == *p1,
            final(self).vertices()[final(self).triangles()[old(self).triangles().len() + 2int]
                as int] == *p2,
            final(self).settings() == old(self).settings(),
    {
        let ghost v0 = self.vertices();
        let ghost f0 = self.normal_faces();
        let ghost t0 = self.triangles().len() as int;
        proof {
            self.vertex_store.lemma_distinct();
            lemma_add_corners_shape(v0, f0, seq![*p0, *p1, *p2], t0);
        }
        let i0 = self.add_vertex(p0);
        let ghost v1 = self.vertices();
        let ghost f1 = self.normal_faces();
        let i1 = self.add_vertex(p1);
        let ghost v2 = self.vertices();
        let ghost f2 = self.normal_faces();
        let i2 = self.add_vertex(p2);
        proof {
            assert((t0 + 1) / 3 == t0 / 3 && (t0 + 2) / 3 == t0 / 3);
            lemma_add_one_corner(v1, f1, *p1, t0);
            lemma_add_one_corner(v1, f1, *p1, t0 + 1);
            lemma_add_one_corner(v2, f2, *p2, t0);
            lemma_add_one_corner(v2, f2, *p2, t0 + 2);
            self.vertex_store.lemma_distinct();
            lemma_add_corners_split(v0, f0, seq![*p0], seq![*p1], t0);
            lemma_add_corners_split(v0, f0, seq![*p0, *p1], seq![*p2], t0);
            assert(seq![*p0] + seq![*p1] =~= seq![*p0, *p1]);
            assert(seq![*p0, *p1] + seq![*p2] =~= seq![*p0, *p1, *p2]);
            assert(seq![*p0, *p1, *p2].drop_last() =~= seq![*p0, *p1]);
            assert(seq![*p0, *p1].drop_last() =~= seq![*p0]);
            assert(seq![*p0].drop_last() =~= Seq::<Vertex>::empty());
            assert(v0 =~= v1.subrange(0, v0.len() as int));
            assert(v1 =~= v2.subrange(0, v1.len() as int));
            assert(v2 =~= self.vertices().subrange(0, v2.len() as int));
            assert(self.vertices()[i0 as int] == *p0);
            assert(self.vertices()[i1 as int] == *p1);
        }
        self.triangle_store.push(i0);
        self.triangle_store.push(i1);
        self.triangle_store.push(i2);
    }

    /// Stitches consecutive loops, given as equal-length sample arrays, into
    /// the mesh: for each pair of consecutive loops and each `i` in `1..n`, the
    /// quad `prev[i-1], prev[i], curr[i], curr[i-1]` as the triangles
    /// `(p0, p1, p3)` and `(p1, p2, p3)`, counter-clockwise. Fails with
    /// `LineError` when the seed line starts where it ends, or when there is
    /// no loop at all.
    pub fn construct(self, loops: &Vec<Vec<Vertex>>) -> (r: Result<Self, HopfMeshError>)
        requires
            self.wf(),
            forall|c: int| 0 <= c < loops@.len() ==> #[trigger] loops@[c]@.len() == loops@[0]@.len(),
            loops@.len() > 0 ==> self.vertices().len() + loops@.len() * loops@[0]@.len() + 3
                <= u32::MAX,
        ensures
            r is Err <==> (loops@.len() == 0 || self.settings().0 == self.settings().1),
            r matches Err(e) ==> e == (HopfMeshError::LineError {
                lines_start: self.settings().0,
                lines_end: self.settings().1,
            }),
            r matches Ok(b) ==> {
                let pts = sheet_corners(loop_views(loops@), loops@.len() - 1);
                let t0 = self.triangles().len() as int;
                &&& b.wf()
                &&& b.settings() == self.settings()
                &&& (b.vertices(), b.normal_faces()) == add_corners(
                    self.vertices(),
                    self.normal_faces(),
                    pts,
                    t0,
                )
                &&& b.triangles().len() == t0 + pts.len()
                &&& b.triangles().subrange(0, t0) == self.triangles()
                &&& forall|k: int|
                    0 <= k < pts.len() ==> b.vertices()[#[trigger] b.triangles()[t0 + k] as int]
                        == pts[k]
            },
    {
        let mut b = self;
        if loops.len() == 0 || b.hopf.line_start == b.hopf.line_end {
            return Err(
                HopfMeshError::LineError {
                    lines_start: b.hopf.line_start,
                    lines_end: b.hopf.line_end,
                },
            );
        }
        let ghost lv = loop_views(loops@);
        let ghost v0 = b.vertices();
        let ghost f0 = b.normal_faces();
        let ghost tri0 = b.triangles();
        let ghost t0 = tri0.len() as int;
        let ghost flat = lv.flatten_alt();
        proof {
            b.lemma_wf();
            assert forall|c: int| 0 <= c < lv.len() implies #[trigger] lv[c].len() == lv[0].len() by {
                assert(lv[c] == loops@[c]@);
            }
            lv.lemma_flatten_length_le_mul(lv[0].len() as int);
            assert(lv.len() * lv[0].len() == loops@.len() * loops@[0]@.len());
            assert(sheet_corners(lv, 0) =~= Seq::<Vertex>::empty());
            assert(add_corners(v0, f0, Seq::empty(), t0) == (v0, f0));
            assert(tri0.subrange(0, t0) =~= tri0);
        }
        let n = loops[0].len();
        let mut c: usize = 1;
        while c < loops.len()
            invariant
                1 <= c <= loops@.len(),
                lv == loop_views(loops@),
                n == lv[0].len(),
                forall|d: int| 0 <= d < lv.len() ==> #[trigger] lv[d].len() == lv[0].len(),
                flat == lv.flatten_alt(),
                flat.len() <= lv.len() * lv[0].len(),
                v0.len() + lv.len() * lv[0].len() + 3 <= u32::MAX,
                v0.no_duplicates(),
                t0 == tri0.len(),
                b.wf(),
                b.settings() == self.settings(),
                (b.vertices(), b.normal_faces()) == add_corners(
                    v0,
                    f0,
                    sheet_corners(lv, c - 1),
                    t0,
                ),
                b.triangles().len() == t0 + sheet_corners(lv, c - 1).len(),
                b.triangles().subrange(0, t0) == tri0,
                forall|k: int|
                    0 <= k < sheet_corners(lv, c - 1).len() ==> b.vertices()[
                        #[trigger] b.triangles()[t0 + k] as int] == sheet_corners(lv, c - 1)[k],
            decreases loops@.len() - c,
        {
            let prev = &loops[c - 1];
            let curr = &loops[c];
            let ghost base = sheet_corners(lv, c - 1);
            proof {
                lemma_sheet_in(lv, (c - 1) as int);
                assert(lv[c - 1] == prev@);
                assert(lv[c as int] == curr@);
                assert forall|j: int| 0 <= j < prev@.len() implies flat.contains(#[trigger] prev@[j]) by {
                    lemma_in_flatten(lv, c - 1, j);
                }
                assert forall|j: int| 0 <= j < curr@.len() implies flat.contains(#[trigger] curr@[j]) by {
                    lemma_in_flatten(lv, c as int, j);
                }
                assert(base + strip_corners(prev@, curr@, 0) =~= base);
            }
            let mut i: usize = 1;
            while i < n
                invariant
                    1 <= i,
                    n > 0 ==> i <= n,
                    n == 0 ==> i == 1,
                    1 <= c < loops@.len(),
                    lv == loop_views(loops@),
                    n == prev@.len(),
                    n == curr@.len(),
                    prev@ == lv[c - 1],
                    curr@ == lv[c as int],
                    forall|j: int| 0 <= j < prev@.len() ==> flat.contains(#[trigger] prev@[j]),
                    forall|j: int| 0 <= j < curr@.len() ==> flat.contains(#[trigger] curr@[j]),
                    forall|m: int| 0 <= m < base.len() ==> flat.contains(#[trigger] base[m]),
                    flat.len() <= lv.len() * lv[0].len(),
                    v0.len() + lv.len() * lv[0].len() + 3 <= u32::MAX,
                    v0.no_duplicates(),
                    t0 == tri0.len(),
                    b.wf(),
                    b.settings() == self.settings(),
                    (b.vertices(), b.normal_faces()) == add_corners(
                        v0,
                        f0,
                        base + strip_corners(prev@, curr@, i - 1),
                        t0,
                    ),
                    b.triangles().len() == t0 + (base + strip_corners(prev@, curr@, i - 1)).len(),
                    b.triangles().subrange(0, t0) == tri0,
                    forall|k: int|
                        0 <= k < (base + strip_corners(prev@, curr@, i - 1)).len() ==> b.vertices()[
                            #[trigger] b.triangles()[t0 + k] as int] == (base + strip_corners(
                            prev@,
                            curr@,
                            i - 1,
                        ))[k],
                decreases n - i,
            {
                let ghost done = base + strip_corners(prev@, curr@, i - 1);
                let ghost half = done + seq![prev@[i - 1], prev@[i as int], curr@[i - 1]];
                let ghost whole = half + seq![prev@[i as int], curr@[i as int], curr@[i - 1]];
                let ghost tri_before = b.triangles();
                proof {
                    lemma_strip_in(prev@, curr@, (i - 1) as int, flat);
                    assert forall|m: int| 0 <= m < done.len() implies flat.contains(#[trigger] done[m]) by {
                        if m >= base.len() {
                            assert(done[m] == strip_corners(prev@, curr@, i - 1)[m - base.len()]);
                        }
                    }
                    lemma_add_corners_bound(v0, f0, done, t0, flat);
                }
                b.add_triangle(&prev[i - 1], &prev[i], &curr[i - 1]);
                proof {
                    lemma_add_corners_split(v0, f0, done, seq![prev@[i - 1], prev@[i as int], curr@[i - 1]], t0);
                    assert forall|m: int| 0 <= m < half.len() implies flat.contains(#[trigger] half[m]) by {
                        if m >= done.len() {
                            assert(m - done.len() < 3);
                        }
                    }
                    lemma_add_corners_bound(v0, f0, half, t0, flat);
                }
                let ghost tri_mid = b.triangles();
                let ghost verts_mid = b.vertices();
                b.add_triangle(&prev[i], &curr[i], &curr[i - 1]);
                proof {
                    lemma_add_corners_split(v0, f0, half, seq![prev@[i as int], curr@[i as int], curr@[i - 1]], t0);
                    assert(strip_corners(prev@, curr@, i as int) == strip_corners(prev@, curr@, i - 1)
                        + quad_corners(prev@, curr@, i as int));
                    assert(whole =~= base + strip_corners(prev@, curr@, i as int));
                    lemma_add_corners_shape(v0, f0, whole, t0);
                    assert(b.triangles().subrange(0, t0) =~= tri0) by {
                        assert(b.triangles().subrange(0, tri_mid.len() as int) == tri_mid);
                        assert(tri_mid.subrange(0, tri_before.len() as int) == tri_before);
                        assert forall|k: int| 0 <= k < t0 implies b.triangles()[k] == tri0[k] by {
                            assert(b.triangles()[k] == tri_mid[k]);
                            assert(tri_mid[k] == tri_before[k]);
                            assert(tri_before.subrange(0, t0)[k] == tri0[k]);
                        }
                    }
                    lemma_add_corners_shape(v0, f0, half, t0);
                    assert forall|k: int| 0 <= k < whole.len() implies b.vertices()[
                        #[trigger] b.triangles()[t0 + k] as int] == whole[k] by {
                        if k < done.len() {
                            assert(b.triangles()[t0 + k] == tri_mid[t0 + k]);
                            assert(tri_mid[t0 + k] == tri_before[t0 + k]);
                            assert(tri_before[t0 + k] < verts_mid.len());
                            assert(b.vertices().subrange(0, verts_mid.len() as int) == verts_mid);
                            assert(b.vertices()[tri_before[t0 + k] as int] == verts_mid[tri_before[t0 + k] as int]);
                        } else if k < half.len() {
                            assert(b.triangles()[t0 + k] == tri_mid[t0 + k]);
                            assert(tri_mid[t0 + k] < verts_mid.len());
                            assert(b.vertices().subrange(0, verts_mid.len() as int) == verts_mid);
                            assert(b.vertices()[tri_mid[t0 + k] as int] == verts_mid[tri_mid[t0 + k] as int]);
                        }
                    }
                }
                i = i + 1;
            }
            proof {
                assert(sheet_corners(lv, c as int) == base + strip_corners(lv[c - 1], lv[c as int], lv[c as int].len() - 1));
                if n == 0 {
                    assert(strip_corners(prev@, curr@, -1) =~= strip_corners(prev@, curr@, 0));
                }
            }
            c = c + 1;
        }
        Ok(b)
    }

    /// Finalizes the mesh: the vertex buffer by index, the index buffer, and
    /// for each vertex the triangle whose face normal it carries.
    pub fn build(&self) -> (r: MeshBuffers)
        requires
            self.wf(),
            self.vertices().len() > 0,
        ensures
            r.positions@ == self.vertices(),
            r.indices@ == self.triangles(),
            r.normal_faces@ == self.normal_faces(),
            r.normal_faces@.len() == r.positions@.len(),
    {
        let positions = self.vertex_store.vertices().clone();
        let indices = self.triangle_store.clone();
        let normal_faces = self.normal_store.clone();
        proof {
            assert(positions@ =~= self.vertices());
            assert(indices@ =~= self.triangles());
            assert(normal_faces@ =~= self.normal_faces());
        }
        MeshBuffers { positions, indices, normal_faces }
    }

    /// Start of the seed line.
    pub fn line_start(&self) -> (r: SurfacePoint)
        ensures
            r == self.settings().0,
    {
        self.hopf.line_start
    }

    /// End of the seed line.
    pub fn line_end(&self) -> (r: SurfacePoint)
        ensures
            r == self.settings().1,
    {
        self.hopf.line_end
    }

    /// Number of loops woven along the seed line.
    pub fn n_loops(&self) -> (r: u16)
        ensures
            r == self.settings().2,
    {
        self.hopf.n_loops
    }

    /// Number of tries allowed when building an individual loop.
    pub fn n_tries(&self) -> (r: u16)
        ensures
            r == self.settings().3,
    {
        self.n_tries
    }

    /// Number of distinct vertices held.
    pub fn vertex_count(&self) -> (r: usize)
        ensures
            r == self.vertices().len(),
    {
        self.vertex_store.len()
    }

    /// Number of triangles held.
    pub fn triangle_count(&self) -> (r: usize)
        requires
            self.wf(),
        ensures
            3 * r == self.triangles().len(),
    {
        self.triangle_store.len() / 3
    }
}

} // verus!
