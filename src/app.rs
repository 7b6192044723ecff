//! The scheduler: ordered startup and update routines run over one world.

use vstd::prelude::*;
use crate::hello::{add_people, add_people_spec, greet_people, greet_people_spec, lines_view};
use crate::timer::CountdownTimer;
use crate::world::{EcsError, World, WorldView};

verus! {

/// The routines that an app can schedule.
#[derive(Clone, Copy, Debug, PartialEq, Eq, Structural)]
pub enum System {
    AddPeople,
    GreetPeople,
}

/// What running one routine gives: the world after it and the lines it
/// produced, or its error. The entity store refuses to grow to `usize::MAX`.
pub open spec fn run_system_spec(w: WorldView, s: System, delta: u64) -> Result<
    (WorldView, Seq<Seq<char>>),
    EcsError,
> {
    match s {
        System::AddPeople => if w.entities.len() + 3 < usize::MAX {
            Ok((add_people_spec(w), Seq::empty()))
        } else {
            Err(EcsError::StoreFull)
        },
        System::GreetPeople => greet_people_spec(w, delta),
    }
}

/// Runs routines in order until one fails: the world after the last one that
/// ran, every line produced, and the error that stopped the run, if any.
pub open spec fn run_systems_spec(w: WorldView, ss: Seq<System>, delta: u64) -> (
    WorldView,
    Seq<Seq<char>>,
    Option<EcsError>,
)
    decreases ss.len(),
{
    if ss.len() == 0 {
        (w, Seq::empty(), None)
    } else {
        let (w1, out1, err1) = run_systems_spec(w, ss.drop_last(), delta);
        if err1 is Some {
            (w1, out1, err1)
        } else {
            match run_system_spec(w1, ss.last(), delta) {
                Ok((w2, out2)) => (w2, out1 + out2, None),
                Err(e) => (w1, out1, Some(e)),
            }
        }
    }
}

/// A world with its scheduled routines; `running` once startup has run.
pub struct App {
    world: World,
    startup: Vec<System>,
    systems: Vec<System>,
    running: bool,
}

pub struct AppView {
    pub world: WorldView,
    pub startup: Seq<System>,
    pub systems: Seq<System>,
    pub running: bool,
}

impl View for App {
    type V = AppView;

    closed spec fn view(&self) -> AppView {
        AppView {
            world: self.world@,
            startup: self.startup@,
            systems: self.systems@,
            running: self.running,
        }
    }
}

impl AppView {
    pub open spec fn empty() -> AppView {
        AppView {
            world: WorldView::empty(),
            startup: Seq::empty(),
            systems: Seq::empty(),
            running: false,
        }
    }

    /// The app after startup: the startup routines run once, with no elapsed
    /// time, and the app is running. Startup that already ran changes nothing.
    pub open spec fn startup_spec(self) -> (AppView, Result<(), EcsError>) {
        if self.running {
            (self, Ok(()))
        } else {
            let (w, _out, err) = run_systems_spec(self.world, self.startup, 0);
            (
                AppView { world: w, running: true, ..self },
                match err {
                    Some(e) => Err(e),
                    None => Ok(()),
                },
            )
        }
    }

    /// The app after one tick of `delta` nanoseconds, and the lines produced:
    /// startup first if it has not run, then each update routine in order.
    pub open spec fn update_spec(self, delta: u64) -> (AppView, Result<Seq<Seq<char>>, EcsError>) {
        let (a1, started) = self.startup_spec();
        match started {
            Err(e) => (a1, Err(e)),
            Ok(_) => {
                let (w, out, err) = run_systems_spec(a1.world, a1.systems, delta);
                (
                    AppView { world: w, ..a1 },
                    match err {
                        Some(e) => Err(e),
                        None => Ok(out),
                    },
                )
            },
        }
    }
}

/// Runs one routine.
fn run_system(world: &mut World, s: System, delta: u64) -> (r: Result<Vec<String>, EcsError>)
    ensures
        match run_system_spec(old(world)@, s, delta) {
            Ok((w, out)) => final(world)@ == w && r is Ok && lines_view(r->Ok_0@) == out,
            Err(e) => final(world)@ == old(world)@ && r == Err::<Vec<String>, EcsError>(e),
        },
{
    match s {
        System::AddPeople => {
            if world.len() < usize::MAX - 3 {
                add_people(world);
                let lines: Vec<String> = Vec::new();
                assert(lines_view(lines@) =~= Seq::<Seq<char>>::empty());
                Ok(lines)
            } else {
                Err(EcsError::StoreFull)
            }
        },
        System::GreetPeople => greet_people(world, delta),
    }
}

/// Runs routines in order until one fails, gathering their lines.
fn run_systems(world: &mut World, ss: &Vec<System>, delta: u64) -> (r: (Vec<String>, Option<EcsError>))
    ensures
        ({
            let (w, out, err) = run_systems_spec(old(world)@, ss@, delta);
            final(world)@ == w && lines_view(r.0@) == out && r.1 == err
        }),
{
    let ghost w0 = world@;
    let mut lines: Vec<String> = Vec::new();
    let mut err: Option<EcsError> = None;
    let mut i: usize = 0;
    assert(ss@.take(0) =~= Seq::<System>::empty());
    assert(lines_view(lines@) =~= Seq::<Seq<char>>::empty());
    while i < ss.len() && err.is_none()
        invariant
            i <= ss@.len(),
            err is None ==> ({
                let (w, out, e) = run_systems_spec(w0, ss@.take(i as int), delta);
                world@ == w && lines_view(lines@) == out && e is None
            }),
            err is Some ==> ({
                let (w, out, e) = run_systems_spec(w0, ss@, delta);
                world@ == w && lines_view(lines@) == out && e == err
            }),
        decreases ss@.len() - i,
    {
        assert(ss@.take(i + 1).drop_last() =~= ss@.take(i as int));
        assert(ss@.take(i + 1).last() == ss@[i as int]);
        match run_system(world, ss[i], delta) {
            Ok(mut more) => {
                let ghost before = lines@;
                let ghost added = more@;
                lines.append(&mut more);
                assert(lines_view(lines@) =~= lines_view(before) + lines_view(added));
            },
            Err(e) => {
                proof {
                    assert(run_systems_spec(w0, ss@.take(i + 1), delta) == (
                        world@,
                        lines_view(lines@),
                        Some(e),
                    ));
                    lemma_run_systems_stops(w0, ss@, delta, i as int);
                }
                err = Some(e);
            },
        }
        i = i + 1;
    }
    assert(ss@.take(ss@.len() as int) =~= ss@);
    (lines, err)
}

/// Once a run has failed, the routines after it change nothing.
proof fn lemma_run_systems_stops(w: WorldView, ss: Seq<System>, delta: u64, i: int)
    requires
        0 <= i < ss.len(),
        run_systems_spec(w, ss.take(i + 1), delta).2 is Some,
    ensures
        run_systems_spec(w, ss, delta) == run_systems_spec(w, ss.take(i + 1), delta),
    decreases ss.len(),
{
    if ss.len() > i + 1 {
        assert(ss.drop_last().take(i + 1) =~= ss.take(i + 1));
        lemma_run_systems_stops(w, ss.drop_last(), delta, i);
    } else {
        assert(ss.take(i + 1) =~= ss);
    }
}

impl App {
    pub fn new() -> (r: App)
        ensures
            r@ == AppView::empty(),
    {
        App { world: World::new(), startup: Vec::new(), systems: Vec::new(), running: false }
    }

    pub fn world(&self) -> (r: &World)
        ensures
            r@ == self@.world,
    {
        &self.world
    }

    /// Stores the timer resource, replacing any earlier one.
    pub fn insert_timer(&mut self, t: CountdownTimer)
        ensures
            final(self)@ == (AppView {
                world: WorldView { entities: old(self)@.world.entities, timer: Some(t) },
                ..old(self)@
            }),
    {
        self.world.insert_timer(t);
    }

    /// Schedules a routine to run once, at startup, after those already there.
    pub fn add_startup_system(&mut self, s: System)
        ensures
            final(self)@ == (AppView { startup: old(self)@.startup.push(s), ..old(self)@ }),
    {
        self.startup.push(s);
    }

    /// Schedules a routine to run on every tick, after those already there.
    pub fn add_system(&mut self, s: System)
        ensures
            final(self)@ == (AppView { systems: old(self)@.systems.push(s), ..old(self)@ }),
    {
        self.systems.push(s);
    }

    /// Lets a plugin register its resources and routines.
    pub fn add_plugin(&mut self, plugin: &crate::hello::HelloPlugin)
        ensures
            final(self)@ == crate::hello::HelloPlugin::build_spec(old(self)@),
    {
        plugin.build(self);
    }

    /// Runs the startup routines, once: later calls change nothing.
    pub fn startup(&mut self) -> (r: Result<(), EcsError>)
        ensures
            (final(self)@, r) == old(self)@.startup_spec(),
    {
        if self.running {
            return Ok(());
        }
        self.running = true;
        let (_lines, err) = run_systems(&mut self.world, &self.startup, 0);
        match err {
            Some(e) => Err(e),
            None => Ok(()),
        }
    }

    /// One tick of `delta` nanoseconds: startup if it has not run, then every
    /// update routine in order. Returns the lines produced.
    pub fn update(&mut self, delta: u64) -> (r: Result<Vec<String>, EcsError>)
        ensures
            final(self)@ == old(self)@.update_spec(delta).0,
            match old(self)@.update_spec(delta).1 {
                Ok(out) => r is Ok && lines_view(r->Ok_0@) == out,
                Err(e) => r == Err::<Vec<String>, EcsError>(e),
            },
    {
        match self.startup() {
            Ok(()) => {},
            Err(e) => {
                return Err(e);
            },
        }
        let (lines, err) = run_systems(&mut self.world, &self.systems, delta);
        match err {
            Some(e) => Err(e),
            None => Ok(lines),
        }
    }
}

} // verus!
