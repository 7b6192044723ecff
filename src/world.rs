//! The entity store and the resource store.

use vstd::prelude::*;
use crate::timer::CountdownTimer;

verus! {

/// The identifier of an entity: its position in creation order.
#[derive(Clone, Copy, Debug, PartialEq, Eq, Structural)]
pub struct EntityId {
    pub index: usize,
}

/// An entity's tags: the marker that makes it a person, and its display name.
pub struct Entity {
    pub person: bool,
    pub name: Option<String>,
}

/// What an entity holds, with its name as characters.
pub struct EntityView {
    pub person: bool,
    pub name: Option<Seq<char>>,
}

impl View for Entity {
    type V = EntityView;

    open spec fn view(&self) -> EntityView {
        EntityView {
            person: self.person,
            name: match self.name {
                Some(s) => Some(s@),
                None => None,
            },
        }
    }
}

impl Entity {
    /// An entity tagged as a person with the given name.
    pub fn person_named(name: String) -> (r: Entity)
        ensures
            r@ == (EntityView { person: true, name: Some(name@) }),
    {
        Entity { person: true, name: Some(name) }
    }
}

/// The one error of the store: a routine asked for a resource that was never
/// registered.
#[derive(Clone, Copy, Debug, PartialEq, Eq, Structural)]
pub enum EcsError {
    ResourceNotFound,
    /// The entity store cannot take more entities.
    StoreFull,
}

/// All entities, in creation order, and the singleton resources.
pub struct World {
    entities: Vec<Entity>,
    timer: Option<CountdownTimer>,
}

pub struct WorldView {
    pub entities: Seq<EntityView>,
    pub timer: Option<CountdownTimer>,
}

impl View for World {
    type V = WorldView;

    closed spec fn view(&self) -> WorldView {
        WorldView { entities: self.entities@.map_values(|e: Entity| e@), timer: self.timer }
    }
}

/// Whether a query for persons with a name selects the entity.
pub open spec fn is_named_person(e: EntityView) -> bool {
    e.person && e.name is Some
}

/// The indices that a query for named persons yields, in creation order.
pub open spec fn named_person_indices(es: Seq<EntityView>) -> Seq<int>
    decreases es.len(),
{
    if es.len() == 0 {
        Seq::empty()
    } else if is_named_person(es.last()) {
        named_person_indices(es.drop_last()).push(es.len() - 1)
    } else {
        named_person_indices(es.drop_last())
    }
}

/// The names of the named persons, in creation order.
pub open spec fn person_names(es: Seq<EntityView>) -> Seq<Seq<char>>
    decreases es.len(),
{
    if es.len() == 0 {
        Seq::empty()
    } else if is_named_person(es.last()) {
        person_names(es.drop_last()).push(es.last().name->0)
    } else {
        person_names(es.drop_last())
    }
}

/// How many entities carry the person marker.
pub open spec fn person_count(es: Seq<EntityView>) -> nat
    decreases es.len(),
{
    if es.len() == 0 {
        0
    } else {
        person_count(es.drop_last()) + if es.last().person {
            1nat
        } else {
            0nat
        }
    }
}

impl WorldView {
    pub open spec fn empty() -> WorldView {
        WorldView { entities: Seq::empty(), timer: None }
    }
}

/// Each index that the query yields lies in the store and selects a named
/// person, and the names read through them are the persons' names.
pub proof fn lemma_indices_name_persons(es: Seq<EntityView>)
    ensures
        named_person_indices(es).len() == person_names(es).len(),
        forall|k: int|
            0 <= k < named_person_indices(es).len() ==> {
                let i = #[trigger] named_person_indices(es)[k];
                &&& 0 <= i < es.len()
                &&& is_named_person(es[i])
                &&& es[i].name->0 == person_names(es)[k]
            },
    decreases es.len(),
{
    if es.len() > 0 {
        lemma_indices_name_persons(es.drop_last());
    }
}

impl World {
    pub fn new() -> (r: World)
        ensures
            r@ == WorldView::empty(),
    {
        let r = World { entities: Vec::new(), timer: None };
        assert(r@.entities =~= Seq::<EntityView>::empty());
        r
    }

    /// Adds an entity and returns its fresh identifier.
    pub fn spawn(&mut self, e: Entity) -> (id: EntityId)
        requires
            old(self)@.entities.len() < usize::MAX,
        ensures
            id.index == old(self)@.entities.len(),
            final(self)@ == (WorldView {
                entities: old(self)@.entities.push(e@),
                timer: old(self)@.timer,
            }),
    {
        let ghost e_view = e@;
        let id = EntityId { index: self.entities.len() };
        self.entities.push(e);
        assert(self@.entities =~= old(self)@.entities.push(e_view));
        id
    }

    pub fn len(&self) -> (r: usize)
        ensures
            r == self@.entities.len(),
    {
        self.entities.len()
    }

    /// Stores the timer resource, replacing any earlier one.
    pub fn insert_timer(&mut self, t: CountdownTimer)
        ensures
            final(self)@ == (WorldView { entities: old(self)@.entities, timer: Some(t) }),
    {
        self.timer = Some(t);
    }

    /// The timer resource, if it was registered.
    pub fn timer(&self) -> (r: Result<&CountdownTimer, EcsError>)
        ensures
            match self@.timer {
                Some(t) => r == Ok::<&CountdownTimer, EcsError>(&t),
                None => r == Err::<&CountdownTimer, EcsError>(EcsError::ResourceNotFound),
            },
    {
        match &self.timer {
            Some(t) => Ok(t),
            None => Err(EcsError::ResourceNotFound),
        }
    }

    /// Advances the timer resource by `delta` nanoseconds and tells whether it
    /// reached its threshold on this tick.
    pub fn tick_timer(&mut self, delta: u64) -> (r: Result<bool, EcsError>)
        ensures
            match old(self)@.timer {
                Some(t) => {
                    &&& final(self)@ == (WorldView {
                        entities: old(self)@.entities,
                        timer: Some(crate::timer::tick_spec(t, delta)),
                    })
                    &&& r == Ok::<bool, EcsError>(crate::timer::tick_spec(t, delta).just_finished)
                },
                None => {
                    &&& final(self)@ == old(self)@
                    &&& r == Err::<bool, EcsError>(EcsError::ResourceNotFound)
                },
            },
    {
        match &mut self.timer {
            Some(t) => {
                t.tick(delta);
                Ok(t.just_finished())
            },
            None => Err(EcsError::ResourceNotFound),
        }
    }

    /// The entities that carry both the person marker and a name, in creation
    /// order.
    pub fn query_named_persons(&self) -> (ids: Vec<EntityId>)
        ensures
            ids@.len() == named_person_indices(self@.entities).len(),
            forall|k: int|
                0 <= k < ids@.len() ==> #[trigger] ids@[k].index == named_person_indices(
                    self@.entities,
                )[k],
    {
        let mut ids: Vec<EntityId> = Vec::new();
        let n = self.entities.len();
        let mut i: usize = 0;
        while i < n
            invariant
                n == self@.entities.len(),
                i <= n,
                ids@.len() == named_person_indices(self@.entities.take(i as int)).len(),
                forall|k: int|
                    0 <= k < ids@.len() ==> #[trigger] ids@[k].index == named_person_indices(
                        self@.entities.take(i as int),
                    )[k],
            decreases n - i,
        {
            let ghost es = self@.entities;
            assert(es.take(i + 1).drop_last() =~= es.take(i as int));
            let e = &self.entities[i];
            if e.person && e.name.is_some() {
                ids.push(EntityId { index: i });
            }
            i = i + 1;
        }
        assert(self@.entities.take(n as int) =~= self@.entities);
        ids
    }

    /// The name of an entity that has one.
    pub fn name_of(&self, id: EntityId) -> (r: &String)
        requires
            id.index < self@.entities.len(),
            self@.entities[id.index as int].name is Some,
        ensures
            r@ == self@.entities[id.index as int].name->0,
    {
        self.entities[id.index].name.as_ref().unwrap()
    }

    /// How many entities carry the person marker.
    pub fn count_persons(&self) -> (r: usize)
        ensures
            r == person_count(self@.entities),
    {
        let n = self.entities.len();
        let mut count: usize = 0;
        let mut i: usize = 0;
        while i < n
            invariant
                n == self@.entities.len(),
                i <= n,
                count == person_count(self@.entities.take(i as int)),
                count <= i,
            decreases n - i,
        {
            let ghost es = self@.entities;
            assert(es.take(i + 1).drop_last() =~= es.take(i as int));
            if self.entities[i].person {
                count = count + 1;
            }
            i = i + 1;
        }
        assert(self@.entities.take(n as int) =~= self@.entities);
        count
    }
}

} // verus!
