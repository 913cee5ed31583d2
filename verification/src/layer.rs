//! Layers organise a map; each holds either brushes or entities and may
//! contain nested layers.

use vstd::prelude::*;
use crate::ids::{is_random_uuid, new_random_id};

verus! {

/// What a layer holds.
#[derive(Debug, Clone, Copy, PartialEq, Eq, Structural)]
pub enum LayerType {
    Brush { is_collision: bool },
    Entity,
}

/// A named layer with visibility and lock state and nested child layers.
#[derive(Debug)]
pub struct Layer {
    pub id: u128,
    pub name: String,
    pub layer_type: LayerType,
    pub visible: bool,
    pub locked: bool,
    pub children: Vec<Layer>,
}

/// `a` and `b` are the same layer: same identifier, name, type and flags, and
/// pairwise the same child layers, all the way down.
pub open spec fn same_layer_tree(a: Layer, b: Layer) -> bool
    decreases a, 0nat,
{
    &&& a.id == b.id
    &&& a.name@ == b.name@
    &&& a.layer_type == b.layer_type
    &&& a.visible == b.visible
    &&& a.locked == b.locked
    &&& a.children@.len() == b.children@.len()
    &&& same_layers(a.children@, b.children@, a.children@.len())
}

/// The first `n` layers of `xs` and `ys` are pairwise the same layer.
pub open spec fn same_layers(xs: Seq<Layer>, ys: Seq<Layer>, n: nat) -> bool
    decreases xs, n,
{
    if n == 0 || n > xs.len() {
        n == 0
    } else {
        same_layers(xs, ys, (n - 1) as nat) && same_layer_tree(xs[n - 1], ys[n - 1])
    }
}

/// Whether the first `n` pairs match depends on the first `n` entries only.
pub proof fn lemma_same_layers_prefix(xs: Seq<Layer>, ys: Seq<Layer>, zs: Seq<Layer>, n: nat)
    requires
        n <= ys.len(),
        n <= zs.len(),
        forall|j: int| 0 <= j < n ==> ys[j] == zs[j],
    ensures
        same_layers(xs, ys, n) == same_layers(xs, zs, n),
    decreases n,
{
    if n > 0 {
        lemma_same_layers_prefix(xs, ys, zs, (n - 1) as nat);
    }
}

impl Clone for Layer {
    /// A deep copy of the layer and all layers below it.
    fn clone(&self) -> (c: Layer)
        ensures
            same_layer_tree(*self, c),
        decreases self,
    {
        let mut children: Vec<Layer> = Vec::new();
        let n = self.children.len();
        let mut i: usize = 0;
        while i < n
            invariant
                n == self.children@.len(),
                0 <= i <= n,
                children@.len() == i,
                same_layers(self.children@, children@, i as nat),
            decreases n - i,
        {
            assert(decreases_to!(self => self.children@[i as int]));
            let child = self.children[i].clone();
            let ghost before = children@;
            children.push(child);
            proof {
                lemma_same_layers_prefix(self.children@, before, children@, i as nat);
            }
            i = i + 1;
        }
        Layer {
            id: self.id,
            name: self.name.clone(),
            layer_type: self.layer_type,
            visible: self.visible,
            locked: self.locked,
            children,
        }
    }
}

impl Layer {
    /// A visible, unlocked brush layer without children, under a new random
    /// identifier.
    pub fn new_brush(name: &str, is_collision: bool) -> (l: Layer)
        ensures
            is_random_uuid(l.id),
            l.name@ == name@,
            l.layer_type == (LayerType::Brush { is_collision }),
            l.visible,
            !l.locked,
            l.children@.len() == 0,
    {
        Layer {
            id: new_random_id(),
            name: String::from_str(name),
            layer_type: LayerType::Brush { is_collision },
            visible: true,
            locked: false,
            children: Vec::new(),
        }
    }

    /// A visible, unlocked entity layer without children, under a new random
    /// identifier.
    pub fn new_entity(name: &str) -> (l: Layer)
        ensures
            is_random_uuid(l.id),
            l.name@ == name@,
            l.layer_type == LayerType::Entity,
            l.visible,
            !l.locked,
            l.children@.len() == 0,
    {
        Layer {
            id: new_random_id(),
            name: String::from_str(name),
            layer_type: LayerType::Entity,
            visible: true,
            locked: false,
            children: Vec::new(),
        }
    }
}

} // verus!
