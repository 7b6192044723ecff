//! The greeting plugin: a startup routine that creates three persons and an
//! update routine that greets them each time the timer fires.

use vstd::prelude::*;
use crate::app::{App, AppView, System};
use crate::timer::{tick_spec, CountdownTimer};
use crate::world::{
    lemma_indices_name_persons, person_names, Entity, EcsError, EntityView, World, WorldView,
};

verus! {

/// The greeting period: two seconds, in nanoseconds.
pub const GREET_PERIOD_NANOS: u64 = 2_000_000_000;

/// The line that greets a person.
pub open spec fn greeting(name: Seq<char>) -> Seq<char> {
    "hello "@ + name + "!"@
}

/// The names that the startup routine gives, in creation order.
pub open spec fn people_names() -> Seq<Seq<char>> {
    seq!["Elaina Proctor"@, "Renzo Hume"@, "Zayna Nieves"@]
}

/// A person entity with the given name.
pub open spec fn named_person(name: Seq<char>) -> EntityView {
    EntityView { person: true, name: Some(name) }
}

/// The world after the startup routine: three more persons.
pub open spec fn add_people_spec(w: WorldView) -> WorldView {
    WorldView {
        entities: w.entities + people_names().map_values(|n: Seq<char>| named_person(n)),
        timer: w.timer,
    }
}

/// The world after the update routine, and the lines it produced; or the
/// error when the timer was never registered.
pub open spec fn greet_people_spec(w: WorldView, delta: u64) -> Result<
    (WorldView, Seq<Seq<char>>),
    EcsError,
> {
    match w.timer {
        None => Err(EcsError::ResourceNotFound),
        Some(t) => {
            let t2 = tick_spec(t, delta);
            Ok(
                (
                    WorldView { entities: w.entities, timer: Some(t2) },
                    if t2.just_finished {
                        person_names(w.entities).map_values(|n: Seq<char>| greeting(n))
                    } else {
                        Seq::empty()
                    },
                ),
            )
        },
    }
}

/// The characters of each line.
pub open spec fn lines_view(lines: Seq<String>) -> Seq<Seq<char>> {
    lines.map_values(|s: String| s@)
}

/// Creates the three persons.
pub fn add_people(world: &mut World)
    requires
        old(world)@.entities.len() + 3 < usize::MAX,
    ensures
        final(world)@ == add_people_spec(old(world)@),
{
    world.spawn(Entity::person_named(String::from_str("Elaina Proctor")));
    world.spawn(Entity::person_named(String::from_str("Renzo Hume")));
    world.spawn(Entity::person_named(String::from_str("Zayna Nieves")));
    assert(world@.entities =~= add_people_spec(old(world)@).entities);
}

/// Builds the greeting line for one name.
pub fn greeting_line(name: &str) -> (r: String)
    ensures
        r@ == greeting(name@),
{
    let mut line = String::from_str("hello ");
    line.append(name);
    line.append("!");
    line
}

/// Advances the timer by `delta` nanoseconds; when it fires, greets every
/// named person in creation order.
pub fn greet_people(world: &mut World, delta: u64) -> (r: Result<Vec<String>, EcsError>)
    ensures
        match greet_people_spec(old(world)@, delta) {
            Ok((w, out)) => final(world)@ == w && r is Ok && lines_view(r->Ok_0@) == out,
            Err(e) => final(world)@ == old(world)@ && r == Err::<Vec<String>, EcsError>(e),
        },
{
    let fired = match world.tick_timer(delta) {
        Ok(f) => f,
        Err(e) => {
            return Err(e);
        },
    };
    let mut lines: Vec<String> = Vec::new();
    if fired {
        let ids = world.query_named_persons();
        let ghost es = world@.entities;
        proof {
            lemma_indices_name_persons(es);
            assert forall|j: int| 0 <= j < ids@.len() implies {
                let i = (#[trigger] ids@[j]).index as int;
                &&& i < es.len()
                &&& es[i].name is Some
                &&& es[i].name->0 == person_names(es)[j]
            } by {
                let i = crate::world::named_person_indices(es)[j];
            }
        }
        let mut k: usize = 0;
        while k < ids.len()
            invariant
                world@.entities == es,
                k <= ids@.len(),
                ids@.len() == person_names(es).len(),
                forall|j: int| 0 <= j < ids@.len() ==> {
                    let i = (#[trigger] ids@[j]).index as int;
                    &&& i < es.len()
                    &&& es[i].name is Some
                    &&& es[i].name->0 == person_names(es)[j]
                },
                lines@.len() == k,
                forall|j: int| 0 <= j < k ==> (#[trigger] lines@[j])@ == greeting(person_names(es)[j]),
            decreases ids@.len() - k,
        {
            let name = world.name_of(ids[k]);
            lines.push(greeting_line(name.as_str()));
            k = k + 1;
        }
        assert(lines_view(lines@) =~= person_names(es).map_values(|n: Seq<char>| greeting(n)));
    } else {
        assert(lines_view(lines@) =~= Seq::<Seq<char>>::empty());
    }
    Ok(lines)
}

/// Registers the greeting timer, the startup routine and the update routine.
pub struct HelloPlugin;

impl HelloPlugin {
    /// The app after this plugin has been added to it.
    pub open spec fn build_spec(a: AppView) -> AppView {
        AppView {
            world: WorldView {
                entities: a.world.entities,
                timer: Some(CountdownTimer::fresh(GREET_PERIOD_NANOS, true)),
            },
            startup: a.startup.push(System::AddPeople),
            systems: a.systems.push(System::GreetPeople),
            running: a.running,
        }
    }

    pub fn build(&self, app: &mut App)
        ensures
            final(app)@ == HelloPlugin::build_spec(old(app)@),
    {
        app.insert_timer(CountdownTimer::from_nanos(GREET_PERIOD_NANOS, true));
        app.add_startup_system(System::AddPeople);
        app.add_system(System::GreetPeople);
    }
}

} // verus!
