use std::collections::HashMap;
use vstd::prelude::*;

use crate::vertex::{Vertex, vertex_key, lemma_vertex_key_injective};

verus! {

broadcast use vstd::std_specs::hash::group_hash_axioms;

/// What adding `p` to a store holding the vertices `s` (in index order) gives:
/// the new contents and the index handed back.
pub open spec fn store_add(s: Seq<Vertex>, p: Vertex) -> (Seq<Vertex>, int) {
    if s.contains(p) {
        (s, s.index_of(p))
    } else {
        (s.push(p), s.len() as int)
    }
}

/// A deduplicating arena of vertices: each distinct vertex gets a dense index,
/// handed out in first-seen order, and the buffer lists the vertices by index.
pub struct VertexStore {
    index: HashMap<u128, u32>,
    buffer: Vec<Vertex>,
}

impl View for VertexStore {
    type V = Seq<Vertex>;

    closed spec fn view(&self) -> Seq<Vertex> {
        self.buffer@
    }
}

impl VertexStore {
    /// The lookup map agrees with the buffer, and the buffer fits `u32` indices.
    pub closed spec fn wf(&self) -> bool {
        &&& self.buffer@.len() <= u32::MAX
        &&& forall|i: int|
            0 <= i < self.buffer@.len() ==> #[trigger] self.index@.contains_key(
                vertex_key(self.buffer@[i]) as u128,
            ) && self.index@[vertex_key(self.buffer@[i]) as u128] == i
        &&& forall|k: u128| #[trigger]
            self.index@.contains_key(k) ==> self.index@[k] < self.buffer@.len() && vertex_key(
                self.buffer@[self.index@[k] as int],
            ) == k
    }

    /// A well-formed store never holds one vertex twice.
    pub proof fn lemma_distinct(&self)
        requires
            self.wf(),
        ensures
            self@.no_duplicates(),
            self@.len() <= u32::MAX,
    {
        assert forall|i: int, j: int|
            0 <= i < self@.len() && 0 <= j < self@.len() && i != j implies self@[i] != self@[j] by {
            let ki = vertex_key(self.buffer@[i]) as u128;
            let kj = vertex_key(self.buffer@[j]) as u128;
            assert(self.index@.contains_key(ki));
            assert(self.index@.contains_key(kj));
        }
    }

    /// An empty store.
    pub fn new() -> (r: Self)
        ensures
            r.wf(),
            r@ == Seq::<Vertex>::empty(),
    {
        VertexStore { index: HashMap::new(), buffer: Vec::new() }
    }

    /// Number of distinct vertices held.
    pub fn len(&self) -> (r: usize)
        ensures
            r == self@.len(),
    {
        self.buffer.len()
    }

    /// The vertices, in index order.
    pub fn vertices(&self) -> (r: &Vec<Vertex>)
        ensures
            r@ == self@,
    {
        &self.buffer
    }

    /// The index of `p`, if it has been added.
    pub fn index_of(&self, p: &Vertex) -> (r: Option<u32>)
        requires
            self.wf(),
        ensures
            r is None <==> !self@.contains(*p),
            r matches Some(i) ==> i < self@.len() && self@[i as int] == *p,
    {
        proof {
            assert(vertex_key(*p) < 0x1_0000_0000_0000_0000_0000_0000) by (nonlinear_arith)
                requires
                    p.x <= 0xffff_ffff,
                    p.y <= 0xffff_ffff,
                    p.z <= 0xffff_ffff,
            ;
        }
        let k = p.key();
        match self.index.get(&k) {
            Some(i) => {
                proof {
                    lemma_vertex_key_injective(self.buffer@[*i as int], *p);
                }
                Some(*i)
            },
            None => {
                proof {
                    if self@.contains(*p) {
                        let j = choose|j: int| 0 <= j < self@.len() && self@[j] == *p;
                        assert(self.index@.contains_key(vertex_key(self.buffer@[j]) as u128));
                    }
                }
                None
            },
        }
    }

    /// Adds `p` and returns its index: the existing one when a bit-identical
    /// vertex is already held, else the next free one.
    pub fn add_vertex(&mut self, p: &Vertex) -> (r: u32)
        requires
            old(self).wf(),
            old(self)@.contains(*p) || old(self)@.len() < u32::MAX,
        ensures
            final(self).wf(),
            (final(self)@, r as int) == store_add(old(self)@, *p),
    {
        proof {
            self.lemma_distinct();
        }
        match self.index_of(p) {
            Some(i) => {
                proof {
                    let j = self@.index_of(*p);
                    assert(self@[i as int] == *p);
                    assert(self@[j] == *p);
                }
                i
            },
            None => {
                let i = self.buffer.len() as u32;
                let k = p.key();
                self.index.insert(k, i);
                self.buffer.push(*p);
                proof {
                    assert forall|j: int| 0 <= j < self.buffer@.len() implies #[trigger] self.index@.contains_key(
                        vertex_key(self.buffer@[j]) as u128,
                    ) && self.index@[vertex_key(self.buffer@[j]) as u128] == j by {
                        if j < i {
                            lemma_vertex_key_injective(self.buffer@[j], *p);
                            assert(old(self).index@.contains_key(vertex_key(old(self).buffer@[j]) as u128));
                        }
                    }
                }
                i
            },
        }
    }
}

/// Adding a vertex a second time hands back the index of the first time and
/// leaves the store as the first time left it.
pub proof fn lemma_dedup_idempotent(s: Seq<Vertex>, p: Vertex)
    requires
        s.no_duplicates(),
    ensures
        store_add(store_add(s, p).0, p) == store_add(s, p),
{
    let t = store_add(s, p).0;
    if !s.contains(p) {
        assert(t[s.len() as int] == p);
        assert(t.contains(p));
        let j = t.index_of(p);
        if j != s.len() {
            assert(s[j] == p);
        }
    } else {
        let j = s.index_of(p);
        assert(s[j] == p);
    }
}

} // verus!
