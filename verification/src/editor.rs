//! The document the editor opens with.

use vstd::prelude::*;
use crate::brush::{Brush, Plane};
use crate::document::{default_environment, MapDocument};
use crate::ids::is_random_uuid;
use crate::layer::{Layer, LayerType};
use crate::types::{Vec3, F32_MINUS_ONE, F32_ONE, F32_ZERO};

verus! {

/// The plane with outward normal `(x, y, z)` at distance 1.0 from the origin.
pub open spec fn unit_plane(x: u32, y: u32, z: u32) -> Plane {
    Plane { normal: Vec3 { x, y, z }, distance: F32_ONE }
}

/// The six bounding planes of the cube `[-1, 1]³`: right, left, top, bottom,
/// front, back.
pub open spec fn unit_cube_planes() -> Seq<Plane> {
    seq![
        unit_plane(F32_ONE, F32_ZERO, F32_ZERO),
        unit_plane(F32_MINUS_ONE, F32_ZERO, F32_ZERO),
        unit_plane(F32_ZERO, F32_ONE, F32_ZERO),
        unit_plane(F32_ZERO, F32_MINUS_ONE, F32_ZERO),
        unit_plane(F32_ZERO, F32_ZERO, F32_ONE),
        unit_plane(F32_ZERO, F32_ZERO, F32_MINUS_ONE),
    ]
}

/// `planes` has a plane with outward normal `n`.
pub open spec fn has_normal(planes: Seq<Plane>, n: Vec3) -> bool {
    exists|i: int| 0 <= i < planes.len() && #[trigger] planes[i].normal == n
}

/// The cube's six planes face the six axis directions `+x, -x, +y, -y, +z,
/// -z`, each exactly once, all at distance 1.0: the points inside all of them
/// are those of `[-1, 1]³`.
pub proof fn law_unit_cube_faces_every_axis_direction()
    ensures
        unit_cube_planes().len() == 6,
        forall|i: int| 0 <= i < 6 ==> #[trigger] unit_cube_planes()[i].distance == F32_ONE,
        forall|i: int, j: int|
            0 <= i < j < 6 ==> #[trigger] unit_cube_planes()[i].normal != #[trigger] unit_cube_planes()[j].normal,
        has_normal(unit_cube_planes(), Vec3 { x: F32_ONE, y: F32_ZERO, z: F32_ZERO }),
        has_normal(unit_cube_planes(), Vec3 { x: F32_MINUS_ONE, y: F32_ZERO, z: F32_ZERO }),
        has_normal(unit_cube_planes(), Vec3 { x: F32_ZERO, y: F32_ONE, z: F32_ZERO }),
        has_normal(unit_cube_planes(), Vec3 { x: F32_ZERO, y: F32_MINUS_ONE, z: F32_ZERO }),
        has_normal(unit_cube_planes(), Vec3 { x: F32_ZERO, y: F32_ZERO, z: F32_ONE }),
        has_normal(unit_cube_planes(), Vec3 { x: F32_ZERO, y: F32_ZERO, z: F32_MINUS_ONE }),
{
    let p = unit_cube_planes();
    assert(p[0].normal == Vec3 { x: F32_ONE, y: F32_ZERO, z: F32_ZERO });
    assert(p[1].normal == Vec3 { x: F32_MINUS_ONE, y: F32_ZERO, z: F32_ZERO });
    assert(p[2].normal == Vec3 { x: F32_ZERO, y: F32_ONE, z: F32_ZERO });
    assert(p[3].normal == Vec3 { x: F32_ZERO, y: F32_MINUS_ONE, z: F32_ZERO });
    assert(p[4].normal == Vec3 { x: F32_ZERO, y: F32_ZERO, z: F32_ONE });
    assert(p[5].normal == Vec3 { x: F32_ZERO, y: F32_ZERO, z: F32_MINUS_ONE });
}

/// The six bounding planes of the cube `[-1, 1]³`.
pub fn unit_cube() -> (planes: Vec<Plane>)
    ensures
        planes@ == unit_cube_planes(),
{
    let mut planes: Vec<Plane> = Vec::new();
    planes.push(Plane { normal: Vec3 { x: F32_ONE, y: F32_ZERO, z: F32_ZERO }, distance: F32_ONE });
    planes.push(Plane { normal: Vec3 { x: F32_MINUS_ONE, y: F32_ZERO, z: F32_ZERO }, distance: F32_ONE });
    planes.push(Plane { normal: Vec3 { x: F32_ZERO, y: F32_ONE, z: F32_ZERO }, distance: F32_ONE });
    planes.push(Plane { normal: Vec3 { x: F32_ZERO, y: F32_MINUS_ONE, z: F32_ZERO }, distance: F32_ONE });
    planes.push(Plane { normal: Vec3 { x: F32_ZERO, y: F32_ZERO, z: F32_ONE }, distance: F32_ONE });
    planes.push(Plane { normal: Vec3 { x: F32_ZERO, y: F32_ZERO, z: F32_MINUS_ONE }, distance: F32_ONE });
    assert(planes@ =~= unit_cube_planes());
    planes
}

/// The map a new editor session starts with: an empty map called
/// "Untitled" with one visible, unlocked, non-collision brush layer called
/// "Default", holding one brush, the unit cube.
pub fn starter_document() -> (d: MapDocument)
    ensures
        d.metadata.name@ == "Untitled"@,
        d.metadata.author@ == Seq::<char>::empty(),
        d.metadata.description@ == Seq::<char>::empty(),
        d.metadata.version == 1,
        d.environment == default_environment(),
        d.layers@.len() == 1,
        is_random_uuid(d.layers@[0].id),
        d.layers@[0].name@ == "Default"@,
        d.layers@[0].layer_type == (LayerType::Brush { is_collision: false }),
        d.layers@[0].visible,
        !d.layers@[0].locked,
        d.layers@[0].children@.len() == 0,
        d.brushes@.len() == 1,
        is_random_uuid(d.brushes@[0].id),
        d.brushes@[0].layer_id == d.layers@[0].id,
        d.brushes@[0].planes@ == unit_cube_planes(),
        d.brushes@[0].faces@.len() == 0,
        d.brushes@[0].group_id is None,
        !d.brushes@[0].inverted,
        d.entities@.len() == 0,
        d.groups@.len() == 0,
{
    let mut document = MapDocument::new("Untitled");
    let layer = Layer::new_brush("Default", false);
    let layer_id = layer.id;
    document.layers.push(layer);
    let mut brush = Brush::new(layer_id);
    brush.planes = unit_cube();
    document.brushes.push(brush);
    document
}

} // verus!
