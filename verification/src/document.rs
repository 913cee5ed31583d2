//! The map document: metadata, lighting environment and the collections of
//! layers, brushes, entities and groups.

use vstd::prelude::*;
use crate::brush::{same_brush, Brush};
use crate::entity::{same_entity, Entity};
use crate::group::{same_group, Group};
use crate::layer::{same_layer_tree, Layer};
use crate::types::{Colour, Vec3, F32_MINUS_HALF, F32_MINUS_ONE, F32_ONE, F32_POINT_THREE};

verus! {

/// Descriptive data of a map and its format version.
#[derive(Debug)]
pub struct MapMetadata {
    pub name: String,
    pub author: String,
    pub description: String,
    pub version: u32,
}

/// `a` and `b` hold the same metadata.
pub open spec fn same_metadata(a: MapMetadata, b: MapMetadata) -> bool {
    &&& a.name@ == b.name@
    &&& a.author@ == b.author@
    &&& a.description@ == b.description@
    &&& a.version == b.version
}

impl Clone for MapMetadata {
    fn clone(&self) -> (c: MapMetadata)
        ensures
            same_metadata(*self, c),
    {
        MapMetadata {
            name: self.name.clone(),
            author: self.author.clone(),
            description: self.description.clone(),
            version: self.version,
        }
    }
}

/// Global lighting: an ambient term and a directional sun.
#[derive(Debug, Clone, Copy, PartialEq, Eq, Structural)]
pub struct Environment {
    pub ambient_enabled: bool,
    pub ambient_colour: Colour,
    pub ambient_intensity: u32,
    pub sun_enabled: bool,
    pub sun_direction: Vec3,
    pub sun_colour: Colour,
    pub sun_intensity: u32,
}

/// The lighting a new map starts with: white ambient light at 0.3 and a
/// white sun of intensity 1.0 shining along (-0.5, -1.0, -0.5).
pub open spec fn default_environment() -> Environment {
    Environment {
        ambient_enabled: true,
        ambient_colour: Colour { r: F32_ONE, g: F32_ONE, b: F32_ONE, a: F32_ONE },
        ambient_intensity: F32_POINT_THREE,
        sun_enabled: true,
        sun_direction: Vec3 { x: F32_MINUS_HALF, y: F32_MINUS_ONE, z: F32_MINUS_HALF },
        sun_colour: Colour { r: F32_ONE, g: F32_ONE, b: F32_ONE, a: F32_ONE },
        sun_intensity: F32_ONE,
    }
}

impl Default for Environment {
    fn default() -> (e: Environment)
        ensures
            e == default_environment(),
    {
        Environment {
            ambient_enabled: true,
            ambient_colour: Colour::white(),
            ambient_intensity: F32_POINT_THREE,
            sun_enabled: true,
            sun_direction: Vec3 { x: F32_MINUS_HALF, y: F32_MINUS_ONE, z: F32_MINUS_HALF },
            sun_colour: Colour::white(),
            sun_intensity: F32_ONE,
        }
    }
}

/// A whole map.
#[derive(Debug)]
pub struct MapDocument {
    pub metadata: MapMetadata,
    pub environment: Environment,
    pub layers: Vec<Layer>,
    pub brushes: Vec<Brush>,
    pub entities: Vec<Entity>,
    pub groups: Vec<Group>,
}

/// `a` and `b` are the same map: same metadata and lighting, and pairwise
/// the same layers, brushes, entities and groups.
pub open spec fn same_document(a: MapDocument, b: MapDocument) -> bool {
    &&& same_metadata(a.metadata, b.metadata)
    &&& a.environment == b.environment
    &&& a.layers@.len() == b.layers@.len()
    &&& forall|i: int| 0 <= i < a.layers@.len() ==> #[trigger] same_layer_tree(a.layers@[i], b.layers@[i])
    &&& a.brushes@.len() == b.brushes@.len()
    &&& forall|i: int| 0 <= i < a.brushes@.len() ==> #[trigger] same_brush(a.brushes@[i], b.brushes@[i])
    &&& a.entities@.len() == b.entities@.len()
    &&& forall|i: int| 0 <= i < a.entities@.len() ==> #[trigger] same_entity(a.entities@[i], b.entities@[i])
    &&& a.groups@.len() == b.groups@.len()
    &&& forall|i: int| 0 <= i < a.groups@.len() ==> #[trigger] same_group(a.groups@[i], b.groups@[i])
}

impl Clone for MapDocument {
    /// A deep copy of the whole map.
    fn clone(&self) -> (c: MapDocument)
        ensures
            same_document(*self, c),
    {
        let mut layers: Vec<Layer> = Vec::new();
        let mut i: usize = 0;
        while i < self.layers.len()
            invariant
                0 <= i <= self.layers@.len(),
                layers@.len() == i,
                forall|k: int| 0 <= k < i ==> #[trigger] same_layer_tree(self.layers@[k], layers@[k]),
            decreases self.layers@.len() - i,
        {
            layers.push(self.layers[i].clone());
            i = i + 1;
        }
        let mut brushes: Vec<Brush> = Vec::new();
        let mut i: usize = 0;
        while i < self.brushes.len()
            invariant
                0 <= i <= self.brushes@.len(),
                brushes@.len() == i,
                forall|k: int| 0 <= k < i ==> #[trigger] same_brush(self.brushes@[k], brushes@[k]),
            decreases self.brushes@.len() - i,
        {
            brushes.push(self.brushes[i].clone());
            i = i + 1;
        }
        let mut entities: Vec<Entity> = Vec::new();
        let mut i: usize = 0;
        while i < self.entities.len()
            invariant
                0 <= i <= self.entities@.len(),
                entities@.len() == i,
                forall|k: int| 0 <= k < i ==> #[trigger] same_entity(self.entities@[k], entities@[k]),
            decreases self.entities@.len() - i,
        {
            entities.push(self.entities[i].clone());
            i = i + 1;
        }
        let mut groups: Vec<Group> = Vec::new();
        let mut i: usize = 0;
        while i < self.groups.len()
            invariant
                0 <= i <= self.groups@.len(),
                groups@.len() == i,
                forall|k: int| 0 <= k < i ==> #[trigger] same_group(self.groups@[k], groups@[k]),
            decreases self.groups@.len() - i,
        {
            groups.push(self.groups[i].clone());
            i = i + 1;
        }
        MapDocument {
            metadata: self.metadata.clone(),
            environment: self.environment,
            layers,
            brushes,
            entities,
            groups,
        }
    }
}

impl MapDocument {
    /// An empty map called `name`: format version 1, no author or
    /// description, default lighting and no content.
    pub fn new(name: &str) -> (d: MapDocument)
        ensures
            d.metadata.name@ == name@,
            d.metadata.author@ == Seq::<char>::empty(),
            d.metadata.description@ == Seq::<char>::empty(),
            d.metadata.version == 1,
            d.environment == default_environment(),
            d.layers@.len() == 0,
            d.brushes@.len() == 0,
            d.entities@.len() == 0,
            d.groups@.len() == 0,
    {
        MapDocument {
            metadata: MapMetadata {
                name: String::from_str(name),
                author: String::new(),
                description: String::new(),
                version: 1,
            },
            environment: Environment::default(),
            layers: Vec::new(),
            brushes: Vec::new(),
            entities: Vec::new(),
            groups: Vec::new(),
        }
    }
}

impl MapDocument {
    /// The position of the first brush with identifier `id`, if any brush has
    /// it.
    pub fn brush_position(&self, id: u128) -> (r: Option<usize>)
        ensures
            match r {
                Some(i) => {
                    &&& i < self.brushes@.len()
                    &&& self.brushes@[i as int].id == id
                    &&& forall|j: int| 0 <= j < i ==> #[trigger] self.brushes@[j].id != id
                },
                None => forall|j: int| 0 <= j < self.brushes@.len() ==> #[trigger] self.brushes@[j].id != id,
            },
    {
        let n = self.brushes.len();
        let mut i: usize = 0;
        while i < n
            invariant
                n == self.brushes@.len(),
                0 <= i <= n,
                forall|j: int| 0 <= j < i ==> #[trigger] self.brushes@[j].id != id,
            decreases n - i,
        {
            if self.brushes[i].id == id {
                return Some(i);
            }
            i = i + 1;
        }
        None
    }

    /// The first brush with identifier `id`, if any brush has it.
    pub fn find_brush(&self, id: u128) -> (r: Option<&Brush>)
        ensures
            match r {
                Some(b) => exists|i: int|
                    0 <= i < self.brushes@.len() && self.brushes@[i] == *b && b.id == id && forall|j: int|
                        0 <= j < i ==> #[trigger] self.brushes@[j].id != id,
                None => forall|j: int| 0 <= j < self.brushes@.len() ==> #[trigger] self.brushes@[j].id != id,
            },
    {
        match self.brush_position(id) {
            Some(i) => Some(&self.brushes[i]),
            None => None,
        }
    }
}

} // verus!
