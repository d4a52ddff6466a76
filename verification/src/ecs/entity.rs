use vstd::prelude::*;
use crate::ecs::storage::Bitset;
use crate::ecs::component::Component;

verus! {

/// Builds an entity of the world `W` with its components.
pub struct EntityBuilder<'a, W> {
    pub entity: Entity,
    pub world: &'a W,
    pub built: bool,
}

impl<'a, W> EntityBuilder<'a, W> {
    pub fn new(entity: Entity, world: &'a W) -> (r: Self)
        ensures
            r.entity == entity,
            r.world == world,
            !r.built,
    {
        Self { entity, world, built: false }
    }

    /// Adds a component to the entity; components are not stored yet, so the
    /// builder is handed back as it was.
    pub fn with<C: Component>(self, component: C) -> (r: Self)
        ensures
            r == self,
    {
        self
    }

    /// Finishes the entity.
    pub fn build(self) -> (r: Entity)
        ensures
            r == self.entity,
    {
        let mut builder = self;
        builder.built = true;
        builder.entity
    }
}

/// The controller for every entity keeps track of operational information.
pub struct EntityController {
    max_id: usize,
    generations: Vec<Generation>,
    alive: Bitset,
    killed: Bitset,
}

impl EntityController {
    /// How many ids have been handed out; the next id is this number.
    pub closed spec fn issued(&self) -> usize {
        self.max_id
    }

    /// How many generations are recorded.
    pub closed spec fn generation_count(&self) -> nat {
        self.generations@.len()
    }

    /// `after` is `before` once it handed out `id`: the next id is one more,
    /// and the generations and the living and killed entities are unchanged.
    pub open spec fn handed_out(before: Self, after: Self, id: usize) -> bool {
        &&& id == before.issued()
        &&& after.issued() == before.issued() + 1
        &&& after.generations() == before.generations()
        &&& after.generation_count() == before.generation_count()
        &&& after.alive() == before.alive()
        &&& after.killed() == before.killed()
    }

    /// The generation recorded for each id.
    pub closed spec fn generations(&self) -> Seq<Generation> {
        self.generations@
    }

    /// The bitset of living entities.
    pub closed spec fn alive(&self) -> Bitset {
        self.alive
    }

    /// The bitset of killed entities.
    pub closed spec fn killed(&self) -> Bitset {
        self.killed
    }

    pub fn new() -> (r: Self)
        ensures
            r.issued() == 0,
            r.generation_count() == 0,
            r.alive().layer0_len() == 0 && r.alive().layer1_len() == 0 && r.alive().max_index()
                == 0,
            r.killed().layer0_len() == 0 && r.killed().layer1_len() == 0
                && r.killed().max_index() == 0,
    {
        Self { max_id: 0, generations: Vec::new(), alive: Bitset::new(), killed: Bitset::new() }
    }

    /// Hands out the next id: ids are handed out in increasing order from zero.
    pub fn next_id(&mut self) -> (r: usize)
        requires
            old(self).issued() < usize::MAX,
        ensures
            Self::handed_out(*old(self), *final(self), r),
    {
        let next_id = self.max_id;
        self.max_id = self.max_id + 1;
        next_id
    }

    /// Creates an entity with the next id and the generation recorded for it.
    pub fn create_entity(&mut self) -> (r: Entity)
        requires
            old(self).issued() < usize::MAX,
            old(self).issued() < old(self).generation_count(),
        ensures
            r.id_spec() == old(self).issued(),
            Self::handed_out(*old(self), *final(self), r.id_spec()),
    {
        let id = self.next_id();
        let generation = self.generations[id];
        Entity { id, generation }
    }
}

impl Default for EntityController {
    fn default() -> (r: Self)
        ensures
            r.issued() == 0,
            r.generation_count() == 0,
    {
        EntityController {
            max_id: 0,
            generations: Vec::new(),
            alive: Bitset::new(),
            killed: Bitset::new(),
        }
    }
}

/// Ids handed out one after the other are distinct and increasing.
pub proof fn lemma_ids_increase(a: EntityController, b: EntityController, c: EntityController, first: usize, second: usize)
    requires
        EntityController::handed_out(a, b, first),
        EntityController::handed_out(b, c, second),
    ensures
        first < second,
        second == first + 1,
{
}

/// The user seen entity object.
pub struct Entity {
    id: usize,
    generation: Generation,
}

impl Entity {
    pub closed spec fn id_spec(&self) -> usize {
        self.id
    }

    /// The id of the entity.
    pub fn id(&self) -> (r: usize)
        ensures
            r == self.id_spec(),
    {
        self.id
    }
}

/// The resource in the world that stores all entities.
pub struct Entities {}

#[derive(Clone, Copy, Hash, Eq, Ord, PartialEq, PartialOrd)]
pub struct Generation {}

} // verus!
