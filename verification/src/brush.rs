//! Convex brushes: the intersection of half-spaces, with a face style per side.

use vstd::prelude::*;
use crate::ids::{is_random_uuid, new_random_id};
use crate::types::{Vec2, Vec3, F32_ONE, F32_ZERO};

verus! {

/// A bounding plane: the points `p` with `normal · p <= distance` lie inside.
#[derive(Debug, Clone, Copy, PartialEq, Eq, Structural)]
pub struct Plane {
    pub normal: Vec3,
    pub distance: u32,
}

/// Texture placement on one side of a brush.
#[derive(Debug)]
pub struct Face {
    pub texture: String,
    pub scale: Vec2,
    pub offset: Vec2,
    pub rotation: u32,
}

/// A convex solid bounded by `planes`, placed on a layer and optionally in a
/// group. An inverted brush is seen from the inside.
#[derive(Debug)]
pub struct Brush {
    pub id: u128,
    pub planes: Vec<Plane>,
    pub faces: Vec<Face>,
    pub layer_id: u128,
    pub group_id: Option<u128>,
    pub inverted: bool,
}

/// `a` and `b` describe the same face.
pub open spec fn same_face(a: Face, b: Face) -> bool {
    &&& a.texture@ == b.texture@
    &&& a.scale == b.scale
    &&& a.offset == b.offset
    &&& a.rotation == b.rotation
}

impl Clone for Face {
    fn clone(&self) -> (c: Face)
        ensures
            same_face(*self, c),
    {
        Face { texture: self.texture.clone(), scale: self.scale, offset: self.offset, rotation: self.rotation }
    }
}

/// `a` and `b` describe the same brush.
pub open spec fn same_brush(a: Brush, b: Brush) -> bool {
    &&& a.id == b.id
    &&& a.planes@ == b.planes@
    &&& a.faces@.len() == b.faces@.len()
    &&& forall|i: int| 0 <= i < a.faces@.len() ==> #[trigger] same_face(a.faces@[i], b.faces@[i])
    &&& a.layer_id == b.layer_id
    &&& a.group_id == b.group_id
    &&& a.inverted == b.inverted
}

impl Clone for Brush {
    /// A copy with the same identifier, planes, faces and placement.
    fn clone(&self) -> (c: Brush)
        ensures
            same_brush(*self, c),
    {
        let mut planes: Vec<Plane> = Vec::new();
        let mut i: usize = 0;
        while i < self.planes.len()
            invariant
                0 <= i <= self.planes@.len(),
                planes@ == self.planes@.take(i as int),
            decreases self.planes@.len() - i,
        {
            planes.push(self.planes[i]);
            assert(self.planes@.take(i + 1) =~= self.planes@.take(i as int).push(self.planes@[i as int]));
            i = i + 1;
        }
        assert(self.planes@.take(i as int) =~= self.planes@);
        let mut faces: Vec<Face> = Vec::new();
        let mut j: usize = 0;
        while j < self.faces.len()
            invariant
                0 <= j <= self.faces@.len(),
                faces@.len() == j,
                forall|k: int| 0 <= k < j ==> #[trigger] same_face(self.faces@[k], faces@[k]),
            decreases self.faces@.len() - j,
        {
            faces.push(self.faces[j].clone());
            j = j + 1;
        }
        Brush {
            id: self.id,
            planes,
            faces,
            layer_id: self.layer_id,
            group_id: self.group_id,
            inverted: self.inverted,
        }
    }
}

impl Brush {
    /// A fresh brush on `layer_id`, with no planes or faces, in no group,
    /// not inverted, under a new random identifier.
    pub fn new(layer_id: u128) -> (b: Brush)
        ensures
            is_random_uuid(b.id),
            b.planes@ == Seq::<Plane>::empty(),
            b.faces@.len() == 0,
            b.layer_id == layer_id,
            b.group_id is None,
            !b.inverted,
    {
        Brush {
            id: new_random_id(),
            planes: Vec::new(),
            faces: Vec::new(),
            layer_id,
            group_id: None,
            inverted: false,
        }
    }
}

impl Face {
    /// A face showing `texture` at unit scale, without offset or rotation.
    pub fn new(texture: &str) -> (f: Face)
        ensures
            f.texture@ == texture@,
            f.scale == (Vec2 { x: F32_ONE, y: F32_ONE }),
            f.offset == (Vec2 { x: F32_ZERO, y: F32_ZERO }),
            f.rotation == F32_ZERO,
    {
        Face {
            texture: String::from_str(texture),
            scale: Vec2 { x: F32_ONE, y: F32_ONE },
            offset: Vec2 { x: F32_ZERO, y: F32_ZERO },
            rotation: F32_ZERO,
        }
    }
}

} // verus!
