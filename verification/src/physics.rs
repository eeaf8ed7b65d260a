use vstd::prelude::*;
use std::collections::HashSet;
use crate::focus::EntityId;

verus! {

broadcast use vstd::std_specs::hash::group_hash_axioms;

/// The layers of collision in the game, which decide whether two bodies collide.
#[derive(Clone, Copy, Debug, PartialEq, Eq, Structural)]
pub enum CollisionLayer {
    Character,
    Gear,
    Projectile,
    Obstacle,
}

/// The bit of a layer in a collision group.
pub open spec fn layer_bit(layer: CollisionLayer) -> u32 {
    match layer {
        CollisionLayer::Character => 1,
        CollisionLayer::Gear => 2,
        CollisionLayer::Projectile => 4,
        CollisionLayer::Obstacle => 8,
    }
}

/// The sum of the bits of the layers.
pub open spec fn layers_sum(layers: Seq<CollisionLayer>) -> nat
    decreases layers.len(),
{
    if layers.len() == 0 {
        0
    } else {
        layers_sum(layers.drop_last()) + layer_bit(layers.last()) as nat
    }
}

impl CollisionLayer {
    /// The bit of the layer.
    pub fn bits(self) -> (bits: u32)
        ensures
            bits == layer_bit(self),
    {
        match self {
            CollisionLayer::Character => 1,
            CollisionLayer::Gear => 2,
            CollisionLayer::Projectile => 4,
            CollisionLayer::Obstacle => 8,
        }
    }

    /// All the collision layers.
    pub fn all() -> (layers: Vec<CollisionLayer>)
        ensures
            layers@ == seq![
                CollisionLayer::Character,
                CollisionLayer::Gear,
                CollisionLayer::Projectile,
                CollisionLayer::Obstacle,
            ],
    {
        let mut layers: Vec<CollisionLayer> = Vec::new();
        layers.push(CollisionLayer::Character);
        layers.push(CollisionLayer::Gear);
        layers.push(CollisionLayer::Projectile);
        layers.push(CollisionLayer::Obstacle);
        proof {
            assert(layers@ =~= seq![
                CollisionLayer::Character,
                CollisionLayer::Gear,
                CollisionLayer::Projectile,
                CollisionLayer::Obstacle,
            ]);
        }
        layers
    }
}

/// The bits of the collision group made of the layers: the sum of their bits.
pub fn collision_group_bits(layers: &Vec<CollisionLayer>) -> (bits: u32)
    requires
        layers_sum(layers@) <= u32::MAX,
    ensures
        bits == layers_sum(layers@),
{
    let mut bits: u32 = 0;
    let mut i: usize = 0;
    while i < layers.len()
        invariant
            i <= layers@.len(),
            layers_sum(layers@) <= u32::MAX,
            bits == layers_sum(layers@.subrange(0, i as int)),
        decreases layers@.len() - i,
    {
        proof {
            assert(layers@.subrange(0, i + 1).drop_last() =~= layers@.subrange(0, i as int));
            lemma_layers_sum_prefix(layers@, i + 1);
        }
        bits = bits + layers[i].bits();
        i = i + 1;
    }
    proof {
        assert(layers@.subrange(0, layers@.len() as int) =~= layers@);
    }
    bits
}

proof fn lemma_layers_sum_prefix(layers: Seq<CollisionLayer>, n: int)
    requires
        0 <= n <= layers.len(),
    ensures
        layers_sum(layers.subrange(0, n)) <= layers_sum(layers),
    decreases layers.len() - n,
{
    if n < layers.len() {
        lemma_layers_sum_prefix(layers, n + 1);
        assert(layers.subrange(0, n + 1).drop_last() =~= layers.subrange(0, n));
    } else {
        assert(layers.subrange(0, n) =~= layers);
    }
}

/// The entities a body is currently in contact with.
#[derive(Debug)]
pub struct OngoingCollisions(pub HashSet<EntityId>);

impl Default for OngoingCollisions {
    /// No contact.
    fn default() -> (collisions: Self)
        ensures
            collisions.0@ == Set::<EntityId>::empty(),
    {
        OngoingCollisions(HashSet::new())
    }
}

impl OngoingCollisions {
    /// The number of entities in contact.
    pub fn len(&self) -> (n: usize)
        ensures
            n == self.0@.len(),
    {
        self.0.len()
    }

    /// Whether nothing is in contact.
    pub fn is_empty(&self) -> (empty: bool)
        ensures
            empty <==> self.0@ == Set::<EntityId>::empty(),
    {
        let empty = self.0.is_empty();
        proof {
            if !empty {
                assert(!self.0@.is_empty());
            }
        }
        empty
    }

    /// Whether the entity is in contact.
    pub fn contains(&self, entity: &EntityId) -> (b: bool)
        ensures
            b <==> self.0@.contains(*entity),
    {
        self.0.contains(entity)
    }
}

/// A contact between two entities started or stopped.
#[derive(Clone, Copy, Debug, PartialEq, Eq, Structural)]
pub enum CollisionEvent {
    Started(EntityId, EntityId),
    Stopped(EntityId, EntityId),
}

/// The contacts of entity `id` after the events, in order: a contact starting with it adds the
/// other entity, one stopping removes it.
pub open spec fn contacts_after(id: EntityId, contacts: Set<EntityId>, events: Seq<CollisionEvent>) -> Set<EntityId>
    decreases events.len(),
{
    if events.len() == 0 {
        contacts
    } else {
        let before = contacts_after(id, contacts, events.drop_last());
        match events.last() {
            CollisionEvent::Started(a, b) => {
                let with_b = if id == a { before.insert(b) } else { before };
                if id == b { with_b.insert(a) } else { with_b }
            },
            CollisionEvent::Stopped(a, b) => {
                let without_b = if id == a { before.remove(b) } else { before };
                if id == b { without_b.remove(a) } else { without_b }
            },
        }
    }
}

/// Contact is mutual, and stays so: when two bodies see each other in contact (or both do not)
/// before the contacts start and stop, they still agree afterwards.
pub proof fn lemma_contacts_stay_symmetric(
    a: EntityId,
    b: EntityId,
    contacts_a: Set<EntityId>,
    contacts_b: Set<EntityId>,
    events: Seq<CollisionEvent>,
)
    requires
        contacts_a.contains(b) <==> contacts_b.contains(a),
    ensures
        contacts_after(a, contacts_a, events).contains(b) <==> contacts_after(b, contacts_b, events).contains(a),
    decreases events.len(),
{
    if events.len() > 0 {
        lemma_contacts_stay_symmetric(a, b, contacts_a, contacts_b, events.drop_last());
    }
}

/// Keeps every body's contacts up to date with the contacts that started and stopped.
pub fn update_ongoing_collisions(events: &Vec<CollisionEvent>, bodies: &mut Vec<(EntityId, OngoingCollisions)>)
    ensures
        final(bodies)@.len() == old(bodies)@.len(),
        forall|k: int| 0 <= k < old(bodies)@.len() ==> {
            &&& (#[trigger] final(bodies)@[k]).0 == old(bodies)@[k].0
            &&& final(bodies)@[k].1 .0@ == contacts_after(old(bodies)@[k].0, old(bodies)@[k].1 .0@, events@)
        },
{
    let ghost start = bodies@;
    let mut k: usize = 0;
    while k < bodies.len()
        invariant
            k <= bodies@.len() == start.len(),
            forall|j: int| k <= j < start.len() ==> #[trigger] bodies@[j] == start[j],
            forall|j: int| 0 <= j < k ==> {
                &&& (#[trigger] bodies@[j]).0 == start[j].0
                &&& bodies@[j].1 .0@ == contacts_after(start[j].0, start[j].1 .0@, events@)
            },
        decreases start.len() - k,
    {
        let id = bodies[k].0;
        let mut contacts = OngoingCollisions::default();
        std::mem::swap(&mut contacts, &mut bodies[k].1);
        let ghost initial = contacts.0@;
        proof {
            assert(initial == start[k as int].1 .0@);
        }
        let mut i: usize = 0;
        while i < events.len()
            invariant
                i <= events@.len(),
                contacts.0@ == contacts_after(id, initial, events@.subrange(0, i as int)),
            decreases events@.len() - i,
        {
            proof {
                assert(events@.subrange(0, i + 1).drop_last() =~= events@.subrange(0, i as int));
            }
            match events[i] {
                CollisionEvent::Started(a, b) => {
                    if id == a {
                        contacts.0.insert(b);
                    }
                    if id == b {
                        contacts.0.insert(a);
                    }
                },
                CollisionEvent::Stopped(a, b) => {
                    if id == a {
                        contacts.0.remove(&b);
                    }
                    if id == b {
                        contacts.0.remove(&a);
                    }
                },
            }
            i = i + 1;
        }
        proof {
            assert(events@.subrange(0, events@.len() as int) =~= events@);
        }
        bodies.set(k, (id, contacts));
        k = k + 1;
    }
}

/// Forgets contacts with entities that were removed (removal stops no contact by itself).
pub fn cleanup_ongoing_collisions(removed: &Vec<EntityId>, bodies: &mut Vec<(EntityId, OngoingCollisions)>)
    ensures
        final(bodies)@.len() == old(bodies)@.len(),
        forall|k: int| 0 <= k < old(bodies)@.len() ==> {
            &&& (#[trigger] final(bodies)@[k]).0 == old(bodies)@[k].0
            &&& final(bodies)@[k].1 .0@ == old(bodies)@[k].1 .0@.difference(removed@.to_set())
        },
{
    let ghost start = bodies@;
    let mut k: usize = 0;
    while k < bodies.len()
        invariant
            k <= bodies@.len() == start.len(),
            forall|j: int| k <= j < start.len() ==> #[trigger] bodies@[j] == start[j],
            forall|j: int| 0 <= j < k ==> {
                &&& (#[trigger] bodies@[j]).0 == start[j].0
                &&& bodies@[j].1 .0@ == start[j].1 .0@.difference(removed@.to_set())
            },
        decreases start.len() - k,
    {
        let id = bodies[k].0;
        let mut contacts = OngoingCollisions::default();
        std::mem::swap(&mut contacts, &mut bodies[k].1);
        let ghost initial = contacts.0@;
        let mut i: usize = 0;
        while i < removed.len()
            invariant
                i <= removed@.len(),
                forall|x: EntityId| #[trigger] contacts.0@.contains(x) <==> (initial.contains(x) && !(exists|j: int|
                    0 <= j < i && removed@[j] == x)),
            decreases removed@.len() - i,
        {
            let gone = removed[i];
            contacts.0.remove(&gone);
            i = i + 1;
        }
        proof {
            assert(contacts.0@ =~= initial.difference(removed@.to_set()));
        }
        bodies.set(k, (id, contacts));
        k = k + 1;
    }
}

/// Tells which of two entities belongs to the first kind and which to the second, whatever
/// their order: the pair as given when the first is of the first kind and the second of the
/// second, swapped when it is the other way round, and nothing otherwise.
pub fn try_get_components_from_entities(
    entity_a: EntityId,
    entity_b: EntityId,
    first_has_a: bool,
    second_has_b: bool,
    first_has_b: bool,
    second_has_a: bool,
) -> (pair: Option<(EntityId, EntityId)>)
    ensures
        pair == if first_has_a && second_has_b {
            Some((entity_a, entity_b))
        } else if first_has_b && second_has_a {
            Some((entity_b, entity_a))
        } else {
            None::<(EntityId, EntityId)>
        },
{
    if first_has_a && second_has_b {
        Some((entity_a, entity_b))
    } else if first_has_b && second_has_a {
        Some((entity_b, entity_a))
    } else {
        None
    }
}

} // verus!
