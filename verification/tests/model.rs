use map_editor::brush::{Brush, Face};
use map_editor::document::{Environment, MapDocument};
use map_editor::editor::{starter_document, unit_cube};
use map_editor::entity::Entity;
use map_editor::group::{Group, GroupChild};
use map_editor::layer::{Layer, LayerType};
use map_editor::tools::ToolKind;
use map_editor::types::{Colour, Vec2, Vec3};
use uuid::Uuid;

fn bits(x: f32) -> u32 {
    x.to_bits()
}

fn is_random_v4(id: u128) -> bool {
    let u = Uuid::from_u128(id);
    u.get_version_num() == 4 && u.get_variant() == uuid::Variant::RFC4122
}

#[test]
fn colours() {
    assert_eq!(Colour::white(), Colour { r: bits(1.0), g: bits(1.0), b: bits(1.0), a: bits(1.0) });
    assert_eq!(Colour::black(), Colour { r: bits(0.0), g: bits(0.0), b: bits(0.0), a: bits(1.0) });
}

#[test]
fn default_environment() {
    let e = Environment::default();
    assert!(e.ambient_enabled);
    assert_eq!(e.ambient_colour, Colour::white());
    assert_eq!(f32::from_bits(e.ambient_intensity), 0.3);
    assert!(e.sun_enabled);
    assert_eq!(e.sun_direction, Vec3 { x: bits(-0.5), y: bits(-1.0), z: bits(-0.5) });
    assert_eq!(e.sun_colour, Colour::white());
    assert_eq!(f32::from_bits(e.sun_intensity), 1.0);
}

#[test]
fn new_document_is_empty() {
    let d = MapDocument::new("Arena");
    assert_eq!(d.metadata.name, "Arena");
    assert_eq!(d.metadata.author, "");
    assert_eq!(d.metadata.description, "");
    assert_eq!(d.metadata.version, 1);
    assert_eq!(d.environment, Environment::default());
    assert!(d.layers.is_empty() && d.brushes.is_empty());
    assert!(d.entities.is_empty() && d.groups.is_empty());
}

#[test]
fn new_brush() {
    let layer = 0x1234u128;
    let b = Brush::new(layer);
    assert!(is_random_v4(b.id));
    assert!(b.planes.is_empty() && b.faces.is_empty());
    assert_eq!(b.layer_id, layer);
    assert_eq!(b.group_id, None);
    assert!(!b.inverted);
}

#[test]
fn fresh_ids_differ() {
    let a = Brush::new(1);
    let b = Brush::new(1);
    assert_ne!(a.id, b.id);
    assert_ne!(a.id, 1);
}

#[test]
fn new_face() {
    let f = Face::new("brick_01");
    assert_eq!(f.texture, "brick_01");
    assert_eq!(f.scale, Vec2 { x: bits(1.0), y: bits(1.0) });
    assert_eq!(f.offset, Vec2 { x: bits(0.0), y: bits(0.0) });
    assert_eq!(f.rotation, bits(0.0));
}

#[test]
fn new_layers() {
    let l = Layer::new_brush("Walls", true);
    assert!(is_random_v4(l.id));
    assert_eq!(l.name, "Walls");
    assert_eq!(l.layer_type, LayerType::Brush { is_collision: true });
    assert!(l.visible && !l.locked && l.children.is_empty());
    let e = Layer::new_entity("Enemies");
    assert!(is_random_v4(e.id));
    assert_eq!(e.name, "Enemies");
    assert_eq!(e.layer_type, LayerType::Entity);
    assert!(e.visible && !e.locked && e.children.is_empty());
}

#[test]
fn groups_collect_members_in_order() {
    let mut g = Group::new("Room", 5);
    assert!(is_random_v4(g.id));
    assert_eq!(g.name, "Room");
    assert_eq!(g.layer_id, 5);
    assert!(g.children.is_empty());
    let inner = Group::new("Door", 5);
    let inner_id = inner.id;
    let id = g.id;
    g.add_brush(10);
    g.add_entity(20);
    g.add_group(inner);
    assert_eq!(g.children.len(), 3);
    assert!(matches!(g.children[0], GroupChild::Brush(10)));
    assert!(matches!(g.children[1], GroupChild::Entity(20)));
    assert!(matches!(&g.children[2], GroupChild::Group(x) if x.id == inner_id && x.name == "Door"));
    assert_eq!(g.id, id);
    assert_eq!(g.name, "Room");
}

#[test]
fn new_entity() {
    let pos = Vec3 { x: bits(1.0), y: bits(2.0), z: bits(3.0) };
    let e = Entity::new("zombie_spawner", pos, 9);
    assert!(is_random_v4(e.id));
    assert_eq!(e.class, "zombie_spawner");
    assert_eq!(e.position, pos);
    assert_eq!(e.layer_id, 9);
    assert_eq!(e.group_id, None);
    assert_eq!(e.properties.len(), 0);
    assert_eq!(e.get_property("health"), None);
}

#[test]
fn property_read_after_write() {
    let mut e = Entity::new("pickup_health", Vec3 { x: 0, y: 0, z: 0 }, 1);
    e.set_property("amount", "25");
    assert_eq!(e.get_property("amount").map(|s| s.as_str()), Some("25"));
    assert_eq!(e.get_property("respawn"), None);
}

#[test]
fn property_last_write_wins_and_others_stay() {
    let mut e = Entity::new("light_point", Vec3 { x: 0, y: 0, z: 0 }, 1);
    e.set_property("colour", "red");
    e.set_property("radius", "4");
    e.set_property("colour", "blue");
    assert_eq!(e.get_property("colour").map(|s| s.as_str()), Some("blue"));
    assert_eq!(e.get_property("radius").map(|s| s.as_str()), Some("4"));
    assert_eq!(e.properties.len(), 2);
    let (k, v) = e.properties.pair_at(0);
    assert_eq!((k.as_str(), v.as_str()), ("colour", "blue"));
    let (k, v) = e.properties.pair_at(1);
    assert_eq!((k.as_str(), v.as_str()), ("radius", "4"));
}

#[test]
fn cloned_properties_are_equal() {
    let mut e = Entity::new("player_start", Vec3 { x: 0, y: 0, z: 0 }, 1);
    e.set_property("team", "blue");
    let c = e.clone();
    assert_eq!(c.get_property("team").map(|s| s.as_str()), Some("blue"));
    assert_eq!(c.id, e.id);
}

#[test]
fn starter_document_holds_a_unit_cube() {
    let d = starter_document();
    assert_eq!(d.metadata.name, "Untitled");
    assert_eq!(d.layers.len(), 1);
    assert_eq!(d.layers[0].name, "Default");
    assert_eq!(d.layers[0].layer_type, LayerType::Brush { is_collision: false });
    assert_eq!(d.brushes.len(), 1);
    assert_eq!(d.brushes[0].layer_id, d.layers[0].id);
    assert_eq!(d.brushes[0].planes, unit_cube());
    let p = &d.brushes[0].planes;
    assert_eq!(p.len(), 6);
    assert_eq!(p[1].normal, Vec3 { x: bits(-1.0), y: bits(0.0), z: bits(0.0) });
    assert!(p.iter().all(|q| f32::from_bits(q.distance) == 1.0));
}

#[test]
fn tool_kinds_are_distinct() {
    assert_ne!(ToolKind::Select, ToolKind::Translate);
    assert_ne!(ToolKind::Translate, ToolKind::Create);
}

#[test]
fn cloned_layers_keep_the_whole_tree() {
    let mut root = Layer::new_brush("Geometry", false);
    let mut floor = Layer::new_brush("Ground Floor", true);
    floor.children.push(Layer::new_entity("Spawners"));
    root.children.push(floor);
    root.locked = true;
    let c = root.clone();
    assert_eq!(c.id, root.id);
    assert_eq!(c.name, "Geometry");
    assert!(c.locked);
    assert_eq!(c.children.len(), 1);
    assert_eq!(c.children[0].id, root.children[0].id);
    assert_eq!(c.children[0].layer_type, LayerType::Brush { is_collision: true });
    assert_eq!(c.children[0].children[0].name, "Spawners");
    assert_eq!(c.children[0].children[0].id, root.children[0].children[0].id);
}

#[test]
fn cloned_groups_keep_nested_members() {
    let mut inner = Group::new("Door", 3);
    inner.add_brush(77);
    let mut outer = Group::new("House", 3);
    outer.add_entity(5);
    outer.add_group(inner);
    let c = outer.clone();
    assert_eq!(c.id, outer.id);
    assert_eq!(c.children.len(), 2);
    assert!(matches!(c.children[0], GroupChild::Entity(5)));
    match &c.children[1] {
        GroupChild::Group(g) => {
            assert_eq!(g.name, "Door");
            assert!(matches!(g.children[0], GroupChild::Brush(77)));
        }
        _ => panic!("expected a nested group"),
    }
}

#[test]
fn cloned_document_and_brush_lookup() {
    let mut d = starter_document();
    let mut b = Brush::new(d.layers[0].id);
    b.inverted = true;
    b.faces.push(Face::new("metal"));
    let id = b.id;
    d.brushes.push(b);
    let c = d.clone();
    assert_eq!(c.brushes.len(), 2);
    assert_eq!(c.metadata.name, "Untitled");
    let found = c.find_brush(id).expect("brush is in the copy");
    assert!(found.inverted);
    assert_eq!(found.faces[0].texture, "metal");
    assert_eq!(c.brush_position(id), Some(1));
    assert_eq!(c.brush_position(id ^ 1), None);
    assert!(c.find_brush(0).is_none());
}

#[test]
fn read_after_write_survives_writes_to_other_keys() {
    let mut e = Entity::new("trigger_volume", Vec3 { x: 0, y: 0, z: 0 }, 1);
    e.set_property("target", "door_1");
    e.set_property("delay", "2");
    e.set_property("sound", "beep");
    e.set_property("delay", "3");
    assert_eq!(e.get_property("target").map(|s| s.as_str()), Some("door_1"));
    assert_eq!(e.get_property("delay").map(|s| s.as_str()), Some("3"));
    assert_eq!(e.get_property("once"), None);
    // a key set again keeps its place; new keys go to the end
    let keys: Vec<&str> = (0..e.properties.len()).map(|i| e.properties.pair_at(i).0.as_str()).collect();
    assert_eq!(keys, vec!["target", "delay", "sound"]);
}

#[test]
fn starter_document_metadata() {
    let d = starter_document();
    assert_eq!(d.metadata.author, "");
    assert_eq!(d.metadata.description, "");
    assert_eq!(d.metadata.version, 1);
    assert!(is_random_v4(d.layers[0].id));
    assert!(is_random_v4(d.brushes[0].id));
}
