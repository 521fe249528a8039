//! The fixed-width element types of a meshlet mesh and their byte layouts.
//!
//! Floating-point quantities are held as their IEEE-754 bit patterns: the
//! container copies them and never computes with them.

use vstd::prelude::*;
use crate::bytes::{u32_le, le_u32, lemma_u32_round_trip, push_u32, read_u32};

verus! {

/// A value with a fixed-width natural byte layout.
pub trait Element: Sized + Copy {
    /// Width of one element in bytes.
    spec fn size() -> nat;

    /// The bytes of this element.
    spec fn to_bytes(self) -> Seq<u8>;

    /// The element whose bytes are the first `size()` of `b`.
    spec fn from_bytes(b: Seq<u8>) -> Self;

    fn byte_size() -> (r: usize)
        ensures
            r as nat == Self::size(),
            0 < r <= 16,
    ;

    fn write_to(&self, out: &mut Vec<u8>)
        ensures
            final(out)@ == old(out)@ + self.to_bytes(),
    ;

    fn read_from(b: &[u8], p: usize) -> (r: Self)
        requires
            p + Self::size() <= b@.len(),
        ensures
            r == Self::from_bytes(b@.subrange(p as int, p + Self::size())),
    ;

    proof fn lemma_bytes(e: Self)
        ensures
            e.to_bytes().len() == Self::size(),
            Self::from_bytes(e.to_bytes()) == e,
    ;
}

/// A vertex position: three coordinates (bit patterns of `f32`).
#[derive(Clone, Copy, Debug, PartialEq, Eq, Structural)]
pub struct VertexPosition {
    pub x: u32,
    pub y: u32,
    pub z: u32,
}

/// A texture coordinate pair (bit patterns of `f32`).
#[derive(Clone, Copy, Debug, PartialEq, Eq, Structural)]
pub struct VertexUv {
    pub u: u32,
    pub v: u32,
}

/// A cluster of triangles: a range of vertices and a range of indices.
#[derive(Clone, Copy, Debug, PartialEq, Eq, Structural)]
pub struct Meshlet {
    pub start_vertex_id: u32,
    pub start_index_id: u32,
    pub vertex_count: u32,
    pub triangle_count: u32,
}

/// A bounding sphere: center and radius (bit patterns of `f32`).
#[derive(Clone, Copy, Debug, PartialEq, Eq, Structural)]
pub struct BoundingSphere {
    pub center_x: u32,
    pub center_y: u32,
    pub center_z: u32,
    pub radius: u32,
}

/// The little-endian `u32` at byte offset `4 * k` of `b`.
pub open spec fn word_at(b: Seq<u8>, k: int) -> u32 {
    le_u32(b.subrange(4 * k, 4 * k + 4))
}

proof fn lemma_word_at(b: Seq<u8>, k: int, x: u32)
    requires
        0 <= k,
        4 * k + 4 <= b.len(),
        b.subrange(4 * k, 4 * k + 4) == u32_le(x),
    ensures
        word_at(b, k) == x,
{
    lemma_u32_round_trip(x);
}

fn read_word(b: &[u8], p: usize, n: usize, k: usize) -> (r: u32)
    requires
        4 * k + 4 <= n,
        p + n <= b@.len(),
    ensures
        r == word_at(b@.subrange(p as int, p + n), k as int),
{
    let len = b.len();
    assert(p + 4 * k + 4 <= len);
    let r = read_u32(b, p + 4 * k);
    assert(b@.subrange(p as int, p + n).subrange(4 * k, 4 * k + 4) =~= b@.subrange(
        p + 4 * k,
        p + 4 * k + 4,
    ));
    r
}

impl Element for u32 {
    open spec fn size() -> nat {
        4
    }

    open spec fn to_bytes(self) -> Seq<u8> {
        u32_le(self)
    }

    open spec fn from_bytes(b: Seq<u8>) -> u32 {
        word_at(b, 0)
    }

    fn byte_size() -> (r: usize) {
        4
    }

    fn write_to(&self, out: &mut Vec<u8>) {
        push_u32(out, *self);
    }

    fn read_from(b: &[u8], p: usize) -> (r: u32) {
        read_word(b, p, 4, 0)
    }

    proof fn lemma_bytes(e: u32) {
        lemma_u32_round_trip(e);
        assert(u32_le(e).subrange(0, 4) =~= u32_le(e));
        lemma_word_at(u32_le(e), 0, e);
    }
}

impl Element for VertexPosition {
    open spec fn size() -> nat {
        12
    }

    open spec fn to_bytes(self) -> Seq<u8> {
        u32_le(self.x) + u32_le(self.y) + u32_le(self.z)
    }

    open spec fn from_bytes(b: Seq<u8>) -> VertexPosition {
        VertexPosition {
            x: word_at(b, 0),
            y: word_at(b, 1),
            z: word_at(b, 2),
        }
    }

    fn byte_size() -> (r: usize) {
        12
    }

    fn write_to(&self, out: &mut Vec<u8>) {
        push_u32(out, self.x);
        push_u32(out, self.y);
        push_u32(out, self.z);
        assert(out@ =~= old(out)@ + self.to_bytes());
    }

    fn read_from(b: &[u8], p: usize) -> (r: VertexPosition) {
        VertexPosition {
            x: read_word(b, p, 12, 0),
            y: read_word(b, p, 12, 1),
            z: read_word(b, p, 12, 2),
        }
    }

    proof fn lemma_bytes(e: VertexPosition) {
        let b = e.to_bytes();
        assert(b.subrange(0, 4) =~= u32_le(e.x));
        lemma_word_at(b, 0, e.x);
        assert(b.subrange(4, 8) =~= u32_le(e.y));
        lemma_word_at(b, 1, e.y);
        assert(b.subrange(8, 12) =~= u32_le(e.z));
        lemma_word_at(b, 2, e.z);
    }
}

impl Element for VertexUv {
    open spec fn size() -> nat {
        8
    }

    open spec fn to_bytes(self) -> Seq<u8> {
        u32_le(self.u) + u32_le(self.v)
    }

    open spec fn from_bytes(b: Seq<u8>) -> VertexUv {
        VertexUv {
            u: word_at(b, 0),
            v: word_at(b, 1),
        }
    }

    fn byte_size() -> (r: usize) {
        8
    }

    fn write_to(&self, out: &mut Vec<u8>) {
        push_u32(out, self.u);
        push_u32(out, self.v);
        assert(out@ =~= old(out)@ + self.to_bytes());
    }

    fn read_from(b: &[u8], p: usize) -> (r: VertexUv) {
        VertexUv {
            u: read_word(b, p, 8, 0),
            v: read_word(b, p, 8, 1),
        }
    }

    proof fn lemma_bytes(e: VertexUv) {
        let b = e.to_bytes();
        assert(b.subrange(0, 4) =~= u32_le(e.u));
        lemma_word_at(b, 0, e.u);
        assert(b.subrange(4, 8) =~= u32_le(e.v));
        lemma_word_at(b, 1, e.v);
    }
}

impl Element for Meshlet {
    open spec fn size() -> nat {
        16
    }

    open spec fn to_bytes(self) -> Seq<u8> {
        u32_le(self.start_vertex_id) + u32_le(self.start_index_id) + u32_le(self.vertex_count)
            + u32_le(self.triangle_count)
    }

    open spec fn from_bytes(b: Seq<u8>) -> Meshlet {
        Meshlet {
            start_vertex_id: word_at(b, 0),
            start_index_id: word_at(b, 1),
            vertex_count: word_at(b, 2),
            triangle_count: word_at(b, 3),
        }
    }

    fn byte_size() -> (r: usize) {
        16
    }

    fn write_to(&self, out: &mut Vec<u8>) {
        push_u32(out, self.start_vertex_id);
        push_u32(out, self.start_index_id);
        push_u32(out, self.vertex_count);
        push_u32(out, self.triangle_count);
        assert(out@ =~= old(out)@ + self.to_bytes());
    }

    fn read_from(b: &[u8], p: usize) -> (r: Meshlet) {
        Meshlet {
            start_vertex_id: read_word(b, p, 16, 0),
            start_index_id: read_word(b, p, 16, 1),
            vertex_count: read_word(b, p, 16, 2),
            triangle_count: read_word(b, p, 16, 3),
        }
    }

    proof fn lemma_bytes(e: Meshlet) {
        let b = e.to_bytes();
        assert(b.subrange(0, 4) =~= u32_le(e.start_vertex_id));
        lemma_word_at(b, 0, e.start_vertex_id);
        assert(b.subrange(4, 8) =~= u32_le(e.start_index_id));
        lemma_word_at(b, 1, e.start_index_id);
        assert(b.subrange(8, 12) =~= u32_le(e.vertex_count));
        lemma_word_at(b, 2, e.vertex_count);
        assert(b.subrange(12, 16) =~= u32_le(e.triangle_count));
        lemma_word_at(b, 3, e.triangle_count);
    }
}

impl Element for BoundingSphere {
    open spec fn size() -> nat {
        16
    }

    open spec fn to_bytes(self) -> Seq<u8> {
        u32_le(self.center_x) + u32_le(self.center_y) + u32_le(self.center_z) + u32_le(self.radius)
    }

    open spec fn from_bytes(b: Seq<u8>) -> BoundingSphere {
        BoundingSphere {
            center_x: word_at(b, 0),
            center_y: word_at(b, 1),
            center_z: word_at(b, 2),
            radius: word_at(b, 3),
        }
    }

    fn byte_size() -> (r: usize) {
        16
    }

    fn write_to(&self, out: &mut Vec<u8>) {
        push_u32(out, self.center_x);
        push_u32(out, self.center_y);
        push_u32(out, self.center_z);
        push_u32(out, self.radius);
        assert(out@ =~= old(out)@ + self.to_bytes());
    }

    fn read_from(b: &[u8], p: usize) -> (r: BoundingSphere) {
        BoundingSphere {
            center_x: read_word(b, p, 16, 0),
            center_y: read_word(b, p, 16, 1),
            center_z: read_word(b, p, 16, 2),
            radius: read_word(b, p, 16, 3),
        }
    }

    proof fn lemma_bytes(e: BoundingSphere) {
        let b = e.to_bytes();
        assert(b.subrange(0, 4) =~= u32_le(e.center_x));
        lemma_word_at(b, 0, e.center_x);
        assert(b.subrange(4, 8) =~= u32_le(e.center_y));
        lemma_word_at(b, 1, e.center_y);
        assert(b.subrange(8, 12) =~= u32_le(e.center_z));
        lemma_word_at(b, 2, e.center_z);
        assert(b.subrange(12, 16) =~= u32_le(e.radius));
        lemma_word_at(b, 3, e.radius);
    }
}

} // verus!
