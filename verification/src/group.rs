//! Groups gather brushes, entities and nested groups of one layer.

use vstd::prelude::*;
use crate::ids::{is_random_uuid, new_random_id};

verus! {

/// A member of a group.
#[derive(Debug)]
pub enum GroupChild {
    Group(Group),
    Brush(u128),
    Entity(u128),
}

/// A named group on a layer; its members are kept in insertion order.
#[derive(Debug)]
pub struct Group {
    pub id: u128,
    pub name: String,
    pub layer_id: u128,
    pub children: Vec<GroupChild>,
}

/// `a` and `b` are the same group: same identifier, name and layer, and
/// pairwise the same members, nested groups included.
pub open spec fn same_group(a: Group, b: Group) -> bool
    decreases a, 0nat,
{
    &&& a.id == b.id
    &&& a.name@ == b.name@
    &&& a.layer_id == b.layer_id
    &&& a.children@.len() == b.children@.len()
    &&& same_members(a.children@, b.children@, a.children@.len())
}

/// `x` and `y` are the same member.
pub open spec fn same_member(x: GroupChild, y: GroupChild) -> bool
    decreases x, 0nat,
{
    match x {
        GroupChild::Group(g) => match y {
            GroupChild::Group(h) => same_group(g, h),
            _ => false,
        },
        GroupChild::Brush(id) => y == GroupChild::Brush(id),
        GroupChild::Entity(id) => y == GroupChild::Entity(id),
    }
}

/// The first `n` members of `xs` and `ys` are pairwise the same.
pub open spec fn same_members(xs: Seq<GroupChild>, ys: Seq<GroupChild>, n: nat) -> bool
    decreases xs, n,
{
    if n == 0 || n > xs.len() {
        n == 0
    } else {
        same_members(xs, ys, (n - 1) as nat) && same_member(xs[n - 1], ys[n - 1])
    }
}

/// Whether the first `n` pairs match depends on the first `n` entries only.
pub proof fn lemma_same_members_prefix(
    xs: Seq<GroupChild>,
    ys: Seq<GroupChild>,
    zs: Seq<GroupChild>,
    n: nat,
)
    requires
        n <= ys.len(),
        n <= zs.len(),
        forall|j: int| 0 <= j < n ==> ys[j] == zs[j],
    ensures
        same_members(xs, ys, n) == same_members(xs, zs, n),
    decreases n,
{
    if n > 0 {
        lemma_same_members_prefix(xs, ys, zs, (n - 1) as nat);
    }
}

impl Clone for GroupChild {
    /// A deep copy of the member.
    fn clone(&self) -> (c: GroupChild)
        ensures
            same_member(*self, c),
        decreases self,
    {
        match self {
            GroupChild::Group(g) => GroupChild::Group(g.clone()),
            GroupChild::Brush(id) => GroupChild::Brush(*id),
            GroupChild::Entity(id) => GroupChild::Entity(*id),
        }
    }
}

impl Clone for Group {
    /// A deep copy of the group and all its members.
    fn clone(&self) -> (c: Group)
        ensures
            same_group(*self, c),
        decreases self,
    {
        let mut children: Vec<GroupChild> = Vec::new();
        let n = self.children.len();
        let mut i: usize = 0;
        while i < n
            invariant
                n == self.children@.len(),
                0 <= i <= n,
                children@.len() == i,
                same_members(self.children@, children@, i as nat),
            decreases n - i,
        {
            assert(decreases_to!(self => self.children@[i as int]));
            let child = self.children[i].clone();
            let ghost before = children@;
            children.push(child);
            proof {
                lemma_same_members_prefix(self.children@, before, children@, i as nat);
            }
            i = i + 1;
        }
        Group { id: self.id, name: self.name.clone(), layer_id: self.layer_id, children }
    }
}

impl Group {
    /// An empty group on `layer_id` under a new random identifier.
    pub fn new(name: &str, layer_id: u128) -> (g: Group)
        ensures
            is_random_uuid(g.id),
            g.name@ == name@,
            g.layer_id == layer_id,
            g.children@ == Seq::<GroupChild>::empty(),
    {
        Group { id: new_random_id(), name: String::from_str(name), layer_id, children: Vec::new() }
    }

    /// Appends the brush `brush_id` as the last member.
    pub fn add_brush(&mut self, brush_id: u128)
        ensures
            final(self).children@ == old(self).children@.push(GroupChild::Brush(brush_id)),
            final(self).id == old(self).id,
            final(self).name == old(self).name,
            final(self).layer_id == old(self).layer_id,
    {
        self.children.push(GroupChild::Brush(brush_id));
    }

    /// Appends the entity `entity_id` as the last member.
    pub fn add_entity(&mut self, entity_id: u128)
        ensures
            final(self).children@ == old(self).children@.push(GroupChild::Entity(entity_id)),
            final(self).id == old(self).id,
            final(self).name == old(self).name,
            final(self).layer_id == old(self).layer_id,
    {
        self.children.push(GroupChild::Entity(entity_id));
    }

    /// Appends `group` as the last member, nesting it inside this one.
    pub fn add_group(&mut self, group: Group)
        ensures
            final(self).children@ == old(self).children@.push(GroupChild::Group(group)),
            final(self).id == old(self).id,
            final(self).name == old(self).name,
            final(self).layer_id == old(self).layer_id,
    {
        self.children.push(GroupChild::Group(group));
    }
}

} // verus!
