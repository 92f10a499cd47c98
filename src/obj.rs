use vstd::prelude::*;

use crate::store::{VertexStore, store_add};
use crate::vertex::Vertex;

verus! {

/// What adding the points `pts` one by one to a store holding `s` leaves in it.
pub open spec fn store_add_all(s: Seq<Vertex>, pts: Seq<Vertex>) -> Seq<Vertex>
    decreases pts.len(),
{
    if pts.len() == 0 {
        s
    } else {
        store_add(store_add_all(s, pts.drop_last()), pts.last()).0
    }
}

/// The names of the objects, in order.
pub open spec fn names(q: Seq<(String, Vec<[usize; 4]>)>) -> Seq<Seq<char>> {
    q.map_values(|e: (String, Vec<[usize; 4]>)| e.0@)
}

/// State of a Wavefront OBJ document under construction: deduplicated
/// vertices, numbered from 1 as the format counts them, and lists of quads
/// filed under object names.
pub struct Obj {
    vertex_store: VertexStore,
    quad_store: Vec<(String, Vec<[usize; 4]>)>,
}

impl Obj {
    /// The distinct vertices; vertex `i` of the document is entry `i - 1`.
    pub closed spec fn vertices(&self) -> Seq<Vertex> {
        self.vertex_store@
    }

    /// The objects, each a name and its quads, in the order first pushed.
    pub closed spec fn objects(&self) -> Seq<(String, Vec<[usize; 4]>)> {
        self.quad_store@
    }

    /// The store is consistent and no two objects share a name.
    pub closed spec fn wf(&self) -> bool {
        &&& self.vertex_store.wf()
        &&& names(self.quad_store@).no_duplicates()
    }

    /// A well-formed document holds each vertex once, so adding one twice
    /// gives the same index and no growth.
    pub proof fn lemma_wf(&self, p: Vertex)
        requires
            self.wf(),
        ensures
            self.vertices().no_duplicates(),
            self.vertices().len() <= u32::MAX,
            names(self.objects()).no_duplicates(),
            store_add(store_add(self.vertices(), p).0, p) == store_add(self.vertices(), p),
    {
        self.vertex_store.lemma_distinct();
        crate::store::lemma_dedup_idempotent(self.vertices(), p);
    }

    /// An empty document.
    pub fn new() -> (r: Self)
        ensures
            r.wf(),
            r.vertices() == Seq::<Vertex>::empty(),
            r.objects() == Seq::<(String, Vec<[usize; 4]>)>::empty(),
    {
        let r = Obj { vertex_store: VertexStore::new(), quad_store: Vec::new() };
        assert(names(r.quad_store@) =~= Seq::<Seq<char>>::empty());
        r
    }

    /// Adds a point and returns its 1-based index; a point seen before keeps
    /// the index it was given then.
    pub fn add_vertex(&mut self, p: &Vertex) -> (r: usize)
        requires
            old(self).wf(),
            old(self).vertices().contains(*p) || old(self).vertices().len() < u32::MAX,
        ensures
            final(self).wf(),
            r >= 1,
            (final(self).vertices(), r - 1) == store_add(old(self).vertices(), *p),
            final(self).objects() == old(self).objects(),
    {
        proof {
            self.vertex_store.lemma_distinct();
        }
        let ghost s0 = self.vertices();
        let i = self.vertex_store.add_vertex(p);
        proof {
            if s0.contains(*p) {
                let j = s0.index_of(*p);
                assert(0 <= j < s0.len() && s0[j] == *p);
            }
            self.vertex_store.lemma_distinct();
            assert(i < self.vertices().len());
        }
        i as usize + 1
    }

    /// Files `quads` under `name`, replacing the quads of an object of that
    /// name if there is one.
    pub fn push_quads(&mut self, name: String, quads: Vec<[usize; 4]>)
        requires
            old(self).wf(),
        ensures
            final(self).wf(),
            final(self).vertices() == old(self).vertices(),
            names(old(self).objects()).contains(name@) ==> final(self).objects() == old(
                self,
            ).objects().update(names(old(self).objects()).index_of(name@), (name, quads)),
            !names(old(self).objects()).contains(name@) ==> final(self).objects() == old(
                self,
            ).objects().push((name, quads)),
    {
        let ghost q0 = self.quad_store@;
        let mut i: usize = 0;
        while i < self.quad_store.len()
            invariant
                i <= self.quad_store@.len(),
                self.quad_store@ == q0,
                q0 == old(self).quad_store@,
                self.vertex_store == old(self).vertex_store,
                old(self).wf(),
                forall|k: int| 0 <= k < i ==> (#[trigger] q0[k]).0@ != name@,
            decreases self.quad_store@.len() - i,
        {
            if self.quad_store[i].0 == name {
                proof {
                    let ns = names(q0);
                    assert(ns[i as int] == name@);
                    let j = ns.index_of(name@);
                    assert(ns.contains(name@));
                    assert(ns[j] == name@);
                }
                self.quad_store.set(i, (name, quads));
                proof {
                    assert(names(self.quad_store@) =~= names(q0));
                }
                return;
            }
            i = i + 1;
        }
        proof {
            assert(!names(q0).contains(name@)) by {
                if names(q0).contains(name@) {
                    let j = choose|j: int| 0 <= j < names(q0).len() && names(q0)[j] == name@;
                    assert(q0[j].0@ == name@);
                }
            }
        }
        self.quad_store.push((name, quads));
        proof {
            assert(names(self.quad_store@) =~= names(q0).push(name@));
        }
    }

    /// Adds the strip of quads between two consecutive loops: for each `i` in
    /// `1..n`, the quad `prev[i-1], prev[i], curr[i], curr[i-1]` as 1-based
    /// vertex indices, counter-clockwise.
    pub fn quad_strip(&mut self, prev: &Vec<Vertex>, curr: &Vec<Vertex>) -> (r: Vec<[usize; 4]>)
        requires
            old(self).wf(),
            prev@.len() == curr@.len(),
            old(self).vertices().len() + 4 * prev@.len() < u32::MAX,
        ensures
            final(self).wf(),
            final(self).objects() == old(self).objects(),
            r@.len() == if prev@.len() == 0 { 0 } else { prev@.len() - 1 },
            final(self).vertices() == store_add_all(old(self).vertices(), quad_points(prev@, curr@)),
            forall|i: int|
                0 <= i < r@.len() ==> {
                    let q = #[trigger] r@[i];
                    &&& 1 <= q[0] <= final(self).vertices().len()
                    &&& 1 <= q[1] <= final(self).vertices().len()
                    &&& 1 <= q[2] <= final(self).vertices().len()
                    &&& 1 <= q[3] <= final(self).vertices().len()
                    &&& final(self).vertices()[q[0] - 1] == prev@[i]
                    &&& final(self).vertices()[q[1] - 1] == prev@[i + 1]
                    &&& final(self).vertices()[q[2] - 1] == curr@[i + 1]
                    &&& final(self).vertices()[q[3] - 1] == curr@[i]
                },
    {
        let mut quads: Vec<[usize; 4]> = Vec::new();
        let n = prev.len();
        let ghost v0 = self.vertices();
        proof {
            assert(quad_points(prev@, curr@).subrange(0, 0) =~= Seq::<Vertex>::empty());
        }
        let mut i: usize = 1;
        while i < n
            invariant
                1 <= i,
                n > 0 ==> i <= n,
                n == 0 ==> i == 1,
                n == prev@.len(),
                n == curr@.len(),
                v0.len() + 4 * n < u32::MAX,
                self.wf(),
                self.objects() == old(self).objects(),
                v0 == old(self).vertices(),
                quads@.len() == i - 1,
                self.vertices() == store_add_all(v0, quad_points(prev@, curr@).subrange(0, 4 * (i - 1))),
                self.vertices().len() <= v0.len() + 4 * (i - 1),
                forall|k: int|
                    0 <= k < quads@.len() ==> {
                        let q = #[trigger] quads@[k];
                        &&& 1 <= q[0] <= self.vertices().len()
                        &&& 1 <= q[1] <= self.vertices().len()
                        &&& 1 <= q[2] <= self.vertices().len()
                        &&& 1 <= q[3] <= self.vertices().len()
                        &&& self.vertices()[q[0] - 1] == prev@[k]
                        &&& self.vertices()[q[1] - 1] == prev@[k + 1]
                        &&& self.vertices()[q[2] - 1] == curr@[k + 1]
                        &&& self.vertices()[q[3] - 1] == curr@[k]
                    },
            decreases n - i,
        {
            let ghost before = self.vertices();
            let ghost pts = quad_points(prev@, curr@);
            let i0 = self.add_vertex(&prev[i - 1]);
            let ghost s1 = self.vertices();
            let i1 = self.add_vertex(&prev[i]);
            let ghost s2 = self.vertices();
            let i2 = self.add_vertex(&curr[i]);
            let ghost s3 = self.vertices();
            let i3 = self.add_vertex(&curr[i - 1]);
            proof {
                let m = 4 * (i - 1);
                lemma_store_add_all_step(v0, pts, m);
                lemma_store_add_all_step(v0, pts, m + 1);
                lemma_store_add_all_step(v0, pts, m + 2);
                lemma_store_add_all_step(v0, pts, m + 3);
                lemma_quad_points(prev@, curr@, i as int);
                lemma_store_add_prefix(before, prev@[i - 1]);
                lemma_store_add_prefix(s1, prev@[i as int]);
                lemma_store_add_prefix(s2, curr@[i as int]);
                lemma_store_add_prefix(s3, curr@[i - 1]);
                let fin = self.vertices();
                assert(fin.subrange(0, before.len() as int) =~= before) by {
                    assert forall|k: int| 0 <= k < before.len() implies fin[k] == before[k] by {
                        assert(s1[k] == before[k]);
                        assert(s2[k] == s1[k]);
                        assert(s3[k] == s2[k]);
                        assert(fin[k] == s3[k]);
                    }
                }
                assert(fin[i0 - 1] == prev@[i - 1]) by {
                    assert(s1[i0 - 1] == prev@[i - 1]);
                    assert(s2[i0 - 1] == s1[i0 - 1]);
                    assert(s3[i0 - 1] == s2[i0 - 1]);
                }
                assert(fin[i1 - 1] == prev@[i as int]) by {
                    assert(s3[i1 - 1] == s2[i1 - 1]);
                }
                assert(fin[i2 - 1] == curr@[i as int]);
                assert forall|k: int| 0 <= k < quads@.len() implies {
                    let q = #[trigger] quads@[k];
                    &&& fin[q[0] - 1] == before[q[0] - 1]
                    &&& fin[q[1] - 1] == before[q[1] - 1]
                    &&& fin[q[2] - 1] == before[q[2] - 1]
                    &&& fin[q[3] - 1] == before[q[3] - 1]
                } by {
                    let q = quads@[k];
                    assert(fin.subrange(0, before.len() as int)[q[0] - 1] == before[q[0] - 1]);
                    assert(fin.subrange(0, before.len() as int)[q[1] - 1] == before[q[1] - 1]);
                    assert(fin.subrange(0, before.len() as int)[q[2] - 1] == before[q[2] - 1]);
                    assert(fin.subrange(0, before.len() as int)[q[3] - 1] == before[q[3] - 1]);
                }
            }
            quads.push([i0, i1, i2, i3]);
            i = i + 1;
        }
        proof {
            if n > 0 {
                assert(quad_points(prev@, curr@).subrange(0, 4 * (n - 1)) =~= quad_points(prev@, curr@));
            } else {
                assert(quad_points(prev@, curr@) =~= Seq::<Vertex>::empty());
            }
        }
        quads
    }
    /// The distinct vertices; vertex `i` of the document is entry `i - 1`.
    pub fn vertex_buffer(&self) -> (r: &Vec<Vertex>)
        ensures
            r@ == self.vertices(),
    {
        self.vertex_store.vertices()
    }

    /// The objects, each a name and its quads.
    pub fn object_list(&self) -> (r: &Vec<(String, Vec<[usize; 4]>)>)
        ensures
            r@ == self.objects(),
    {
        &self.quad_store
    }
}

impl Default for Obj {
    fn default() -> (r: Self)
        ensures
            r.wf(),
            r.vertices() == Seq::<Vertex>::empty(),
            r.objects() == Seq::<(String, Vec<[usize; 4]>)>::empty(),
    {
        Obj::new()
    }
}

/// The corners of the quads between two loops, quad by quad:
/// `prev[i-1], prev[i], curr[i], curr[i-1]` for each `i` in `1..n`.
pub open spec fn quad_points(prev: Seq<Vertex>, curr: Seq<Vertex>) -> Seq<Vertex> {
    Seq::new(
        if prev.len() == 0 { 0 } else { 4 * (prev.len() - 1) } as nat,
        |m: int|
            {
                let i = m / 4 + 1;
                let c = m % 4;
                if c == 0 {
                    prev[i - 1]
                } else if c == 1 {
                    prev[i]
                } else if c == 2 {
                    curr[i]
                } else {
                    curr[i - 1]
                }
            },
    )
}

proof fn lemma_quad_points(prev: Seq<Vertex>, curr: Seq<Vertex>, i: int)
    requires
        1 <= i < prev.len(),
    ensures
        quad_points(prev, curr).len() >= 4 * i,
        quad_points(prev, curr)[4 * (i - 1)] == prev[i - 1],
        quad_points(prev, curr)[4 * (i - 1) + 1] == prev[i],
        quad_points(prev, curr)[4 * (i - 1) + 2] == curr[i],
        quad_points(prev, curr)[4 * (i - 1) + 3] == curr[i - 1],
{
    let m = 4 * (i - 1);
    assert(m / 4 == i - 1 && m % 4 == 0);
    assert((m + 1) / 4 == i - 1 && (m + 1) % 4 == 1);
    assert((m + 2) / 4 == i - 1 && (m + 2) % 4 == 2);
    assert((m + 3) / 4 == i - 1 && (m + 3) % 4 == 3);
}

proof fn lemma_store_add_all_step(s: Seq<Vertex>, pts: Seq<Vertex>, m: int)
    requires
        0 <= m < pts.len(),
    ensures
        store_add_all(s, pts.subrange(0, m + 1)) == store_add(
            store_add_all(s, pts.subrange(0, m)),
            pts[m],
        ).0,
{
    assert(pts.subrange(0, m + 1).drop_last() =~= pts.subrange(0, m));
}

proof fn lemma_store_add_prefix(s: Seq<Vertex>, p: Vertex)
    ensures
        store_add(s, p).0.len() <= s.len() + 1,
        store_add(s, p).0.len() >= s.len(),
        forall|k: int| 0 <= k < s.len() ==> #[trigger] store_add(s, p).0[k] == s[k],
{
}


/// The 1-based vertex indices of a closed polyline of `len` points whose
/// first point is vertex `first`: `first, first + 1, ..., first + len - 1`,
/// then `first` again to close the loop.
pub fn line_indices(first: usize, len: usize) -> (r: Vec<usize>)
    requires
        first + len <= usize::MAX,
    ensures
        r@.len() == len + 1,
        forall|k: int| 0 <= k < len ==> #[trigger] r@[k] == first + k,
        r@[len as int] == first,
{
    let mut r: Vec<usize> = Vec::new();
    let mut k: usize = 0;
    while k < len
        invariant
            k <= len,
            first + len <= usize::MAX,
            r@.len() == k,
            forall|m: int| 0 <= m < k ==> #[trigger] r@[m] == first + m,
        decreases len - k,
    {
        r.push(first + k);
        k = k + 1;
    }
    r.push(first);
    r
}

} // verus!
