use vstd::prelude::*;

verus! {

/// A point in E3, held as the IEEE-754 bit patterns of its three `f32`
/// coordinates.
///
/// Two vertices are equal only when every coordinate is bit-identical: this
/// merges exact re-derivations of one sample and nothing else, so points that
/// are merely close stay apart.
#[derive(Clone, Copy, Debug, PartialEq, Eq, Structural, Hash)]
pub struct Vertex {
    /// Bits of the x coordinate.
    pub x: u32,
    /// Bits of the y coordinate.
    pub y: u32,
    /// Bits of the z coordinate.
    pub z: u32,
}

/// The three coordinate patterns packed into one 96-bit key.
pub open spec fn vertex_key(v: Vertex) -> int {
    (v.x as int) * 0x1_0000_0000_0000_0000 + (v.y as int) * 0x1_0000_0000 + (v.z as int)
}

/// Distinct vertices have distinct keys.
pub proof fn lemma_vertex_key_injective(a: Vertex, b: Vertex)
    ensures
        vertex_key(a) == vertex_key(b) <==> a == b,
{
    let (ax, ay, az) = (a.x as int, a.y as int, a.z as int);
    let (bx, by, bz) = (b.x as int, b.y as int, b.z as int);
    if vertex_key(a) == vertex_key(b) {
        assert(ax * 0x1_0000_0000_0000_0000 + ay * 0x1_0000_0000 + az == bx * 0x1_0000_0000_0000_0000
            + by * 0x1_0000_0000 + bz);
        assert(0 <= ay * 0x1_0000_0000 + az < 0x1_0000_0000_0000_0000) by (nonlinear_arith)
            requires
                0 <= ay < 0x1_0000_0000,
                0 <= az < 0x1_0000_0000,
        ;
        assert(0 <= by * 0x1_0000_0000 + bz < 0x1_0000_0000_0000_0000) by (nonlinear_arith)
            requires
                0 <= by < 0x1_0000_0000,
                0 <= bz < 0x1_0000_0000,
        ;
        assert(ax == bx) by (nonlinear_arith)
            requires
                ax * 0x1_0000_0000_0000_0000 + (ay * 0x1_0000_0000 + az) == bx * 0x1_0000_0000_0000_0000
                    + (by * 0x1_0000_0000 + bz),
                0 <= ay * 0x1_0000_0000 + az < 0x1_0000_0000_0000_0000,
                0 <= by * 0x1_0000_0000 + bz < 0x1_0000_0000_0000_0000,
        ;
        assert(ay == by) by (nonlinear_arith)
            requires
                ay * 0x1_0000_0000 + az == by * 0x1_0000_0000 + bz,
                0 <= az < 0x1_0000_0000,
                0 <= bz < 0x1_0000_0000,
        ;
    }
}

impl Vertex {
    /// The key under which a vertex store files this vertex.
    pub fn key(&self) -> (r: u128)
        ensures
            r as int == vertex_key(*self),
    {
        assert((self.x as int) * 0x1_0000_0000_0000_0000 <= 0xffff_ffff * 0x1_0000_0000_0000_0000)
            by (nonlinear_arith)
            requires
                self.x <= 0xffff_ffff,
        ;
        assert((self.y as int) * 0x1_0000_0000 <= 0xffff_ffff * 0x1_0000_0000) by (nonlinear_arith)
            requires
                self.y <= 0xffff_ffff,
        ;
        (self.x as u128) * 0x1_0000_0000_0000_0000u128 + (self.y as u128) * 0x1_0000_0000u128
            + (self.z as u128)
    }
}

} // verus!
