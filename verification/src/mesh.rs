//! Clipped triangle meshes, the things a frame draws.

use vstd::prelude::*;
use crate::rect::PixelRect;
use crate::texture_id::TextureId;

verus! {

/// Most vertices, and most indices, that one draw call takes: the backend
/// counts both in signed 32-bit integers.
pub const MAX_DRAW_COUNT: usize = 2147483647;

/// A batch of triangles that share one texture.
///
/// `V` is the backend's vertex: position in pixels, texture coordinate and
/// colour. Nothing here reads a vertex; only their number matters.
#[derive(Debug)]
pub struct Mesh<V> {
    /// Three entries for each triangle, each the position of a vertex in
    /// `vertices`.
    pub indices: Vec<u32>,
    pub vertices: Vec<V>,
    /// The texture to bind; `None` draws flat colour.
    pub texture_id: Option<TextureId>,
}

/// What a [`ClippedPrimitive`] draws.
#[derive(Debug)]
pub enum Primitive<V> {
    Mesh(Mesh<V>),
    /// Custom drawing that the host's GUI layer asks for and that this
    /// painter does not carry out.
    Callback,
}

/// A primitive and the rectangle outside of which it leaves no mark.
#[derive(Debug)]
pub struct ClippedPrimitive<V> {
    pub clip_rect: PixelRect,
    pub primitive: Primitive<V>,
}

/// What becomes of a primitive in a frame.
#[derive(Clone, Copy, Debug, PartialEq, Eq, Structural)]
pub enum Disposition {
    /// A mesh that is drawn with one draw call.
    Drawn,
    /// A mesh without vertices or without indices: no triangle, no draw
    /// call, no fault.
    Empty,
    /// A mesh that is passed over because its indices do not describe
    /// triangles of its vertices.
    Malformed,
    /// A callback, which is passed over.
    Skipped,
}

impl<V> Mesh<V> {
    /// The mesh has no vertex or no index, so it holds no triangle.
    pub open spec fn is_empty(self) -> bool {
        self.vertices@.len() == 0 || self.indices@.len() == 0
    }

    /// Every index names a vertex of the mesh.
    pub open spec fn indices_in_range(self) -> bool {
        forall|i: int|
            0 <= i < self.indices@.len() ==> (#[trigger] self.indices@[i]) < self.vertices@.len()
    }

    /// The indices come in threes, each names a vertex, and neither the
    /// vertices nor the indices are more than one draw call takes.
    pub open spec fn well_formed(self) -> bool {
        &&& self.indices@.len() % 3 == 0
        &&& self.indices_in_range()
        &&& self.vertices@.len() <= MAX_DRAW_COUNT
        &&& self.indices@.len() <= MAX_DRAW_COUNT
    }

    /// Number of triangles that the indices describe.
    pub open spec fn triangles(self) -> nat {
        self.indices@.len() / 3
    }

    /// What becomes of the mesh in a frame.
    pub open spec fn disposition(self) -> Disposition {
        if self.is_empty() {
            Disposition::Empty
        } else if self.well_formed() {
            Disposition::Drawn
        } else {
            Disposition::Malformed
        }
    }

    /// Computes [`Mesh::disposition`].
    pub fn classify(&self) -> (disposition: Disposition)
        ensures
            disposition == self.disposition(),
    {
        let vertex_count: usize = self.vertices.len();
        let index_count: usize = self.indices.len();
        if vertex_count == 0 || index_count == 0 {
            return Disposition::Empty;
        }
        if index_count % 3 != 0 || vertex_count > MAX_DRAW_COUNT || index_count > MAX_DRAW_COUNT {
            return Disposition::Malformed;
        }
        let mut at: usize = 0;
        while at < index_count
            invariant
                at <= index_count,
                0 < vertex_count <= MAX_DRAW_COUNT,
                0 < index_count <= MAX_DRAW_COUNT,
                index_count % 3 == 0,
                index_count == self.indices@.len(),
                vertex_count == self.vertices@.len(),
                forall|i: int| 0 <= i < at ==> (#[trigger] self.indices@[i]) < vertex_count,
            decreases index_count - at,
        {
            if self.indices[at] as usize >= vertex_count {
                assert(self.indices@[at as int] >= self.vertices@.len());
                return Disposition::Malformed;
            }
            at += 1;
        }
        Disposition::Drawn
    }
}

impl<V> Mesh<V> {
    /// Every index is one that the backend's signed 32-bit index holds.
    pub open spec fn indices_are_native(self) -> bool {
        forall|i: int| 0 <= i < self.indices@.len() ==> (#[trigger] self.indices@[i]) <= i32::MAX
    }

    /// The indices as the backend takes them: the same numbers in the same
    /// order, none left out and none added, as signed 32-bit integers.
    /// `None` where an index is too large for that; a well-formed mesh has
    /// no such index.
    pub fn native_indices(&self) -> (native: Option<Vec<i32>>)
        ensures
            native is Some == self.indices_are_native(),
            self.well_formed() ==> native is Some,
            native matches Some(list) ==> {
                &&& list@.len() == self.indices@.len()
                &&& forall|i: int| 0 <= i < list@.len() ==> (#[trigger] list@[i]) == self.indices@[i]
            },
    {
        let count: usize = self.indices.len();
        let mut list: Vec<i32> = Vec::new();
        let mut at: usize = 0;
        while at < count
            invariant
                at <= count,
                count == self.indices@.len(),
                list@.len() == at,
                forall|i: int| 0 <= i < at ==> (#[trigger] self.indices@[i]) <= i32::MAX,
                forall|i: int| 0 <= i < at ==> (#[trigger] list@[i]) == self.indices@[i],
            decreases count - at,
        {
            let index: u32 = self.indices[at];
            if index > 2147483647 {
                assert(self.indices@[at as int] > i32::MAX);
                return None;
            }
            list.push(index as i32);
            at += 1;
        }
        Some(list)
    }
}

impl<V> ClippedPrimitive<V> {
    /// What becomes of the primitive in a frame.
    pub open spec fn disposition(self) -> Disposition {
        match self.primitive {
            Primitive::Mesh(mesh) => mesh.disposition(),
            Primitive::Callback => Disposition::Skipped,
        }
    }
}

} // verus!
