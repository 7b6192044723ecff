//! Laws of the timer and of the greeting app over any sequence of ticks.

use vstd::prelude::*;
use vstd::arithmetic::div_mod::{
    lemma_basic_div, lemma_div_plus_one, lemma_div_pos_is_pos, lemma_fundamental_div_mod,
    lemma_hoist_over_denominator, lemma_mod_multiples_vanish, lemma_mod_pos_bound,
    lemma_small_mod,
};
use crate::app::{AppView, System};
use crate::hello::{greeting, named_person, people_names, HelloPlugin, GREET_PERIOD_NANOS};
use crate::timer::{tick_spec, CountdownTimer};
use crate::world::{person_count, person_names, EntityView, WorldView};

verus! {

/// The timer after ticks of the given deltas, in order.
pub open spec fn run_timer(t: CountdownTimer, deltas: Seq<u64>) -> CountdownTimer
    decreases deltas.len(),
{
    if deltas.len() == 0 {
        t
    } else {
        tick_spec(run_timer(t, deltas.drop_last()), deltas.last())
    }
}

/// The time that the ticks add up to.
pub open spec fn total(deltas: Seq<u64>) -> int
    decreases deltas.len(),
{
    if deltas.len() == 0 {
        0
    } else {
        total(deltas.drop_last()) + deltas.last()
    }
}

/// Adding `d` to `c` passes a multiple of `t` exactly when `c`'s remainder
/// and `d` together reach `t`.
proof fn lemma_crossing(c: int, d: int, t: int)
    requires
        c >= 0,
        d >= 0,
        t > 0,
    ensures
        (c + d) % t == if c % t + d >= t {
            (c % t + d) % t
        } else {
            c % t + d
        },
        ((c + d) / t > c / t) == (c % t + d >= t),
{
    let q = c / t;
    let e = c % t;
    lemma_fundamental_div_mod(c, t);
    lemma_mod_pos_bound(c, t);
    assert(c + d == t * q + (e + d));
    lemma_mod_multiples_vanish(q, e + d, t);
    lemma_hoist_over_denominator(e + d, q, t as nat);
    assert(q * t == t * q) by (nonlinear_arith);
    if e + d < t {
        lemma_small_mod((e + d) as nat, t as nat);
        lemma_basic_div(e + d, t);
    } else {
        lemma_div_plus_one(e + d - t, t);
        lemma_div_pos_is_pos(e + d - t, t);
    }
}

/// A repeating timer keeps the total time modulo its threshold, and fires on
/// exactly the ticks that carry the total past a multiple of the threshold;
/// the first of them is the first tick whose total reaches the threshold.
pub proof fn lemma_repeating_timer_fires_at_each_multiple(threshold: u64, deltas: Seq<u64>)
    requires
        threshold > 0,
    ensures
        run_timer(CountdownTimer::fresh(threshold, true), deltas).threshold == threshold,
        run_timer(CountdownTimer::fresh(threshold, true), deltas).repeating,
        run_timer(CountdownTimer::fresh(threshold, true), deltas).elapsed == total(deltas)
            % (threshold as int),
        deltas.len() > 0 ==> (run_timer(CountdownTimer::fresh(threshold, true), deltas).just_finished
            <==> total(deltas) / (threshold as int) > total(deltas.drop_last()) / (
        threshold as int)),
    decreases deltas.len(),
{
    let t = threshold as int;
    if deltas.len() == 0 {
        assert(0int % t == 0) by {
            lemma_small_mod(0, t as nat);
        }
    } else {
        let rest = deltas.drop_last();
        lemma_repeating_timer_fires_at_each_multiple(threshold, rest);
        lemma_total_nonneg(rest);
        lemma_crossing(total(rest), deltas.last() as int, t);
    }
}

/// A one-shot timer counts the total time up to its threshold and stops there,
/// and fires on the one tick whose total first reaches the threshold.
pub proof fn lemma_one_shot_timer_fires_once(threshold: u64, deltas: Seq<u64>)
    ensures
        run_timer(CountdownTimer::fresh(threshold, false), deltas).threshold == threshold,
        !run_timer(CountdownTimer::fresh(threshold, false), deltas).repeating,
        run_timer(CountdownTimer::fresh(threshold, false), deltas).elapsed == if total(deltas)
            < threshold {
            total(deltas)
        } else {
            threshold as int
        },
        deltas.len() > 0 ==> (run_timer(CountdownTimer::fresh(threshold, false), deltas).just_finished
            <==> total(deltas.drop_last()) < threshold <= total(deltas)),
    decreases deltas.len(),
{
    if deltas.len() > 0 {
        lemma_one_shot_timer_fires_once(threshold, deltas.drop_last());
        lemma_total_nonneg(deltas.drop_last());
    }
}

proof fn lemma_total_nonneg(deltas: Seq<u64>)
    ensures
        total(deltas) >= 0,
    decreases deltas.len(),
{
    if deltas.len() > 0 {
        lemma_total_nonneg(deltas.drop_last());
    }
}

/// The greeting app once startup has run.
pub open spec fn hello_started() -> AppView {
    HelloPlugin::build_spec(AppView::empty()).startup_spec().0
}

/// The app after one update per delta, in order.
pub open spec fn run_ticks(a: AppView, deltas: Seq<u64>) -> AppView
    decreases deltas.len(),
{
    if deltas.len() == 0 {
        a
    } else {
        run_ticks(a, deltas.drop_last()).update_spec(deltas.last()).0
    }
}

/// The three persons that startup creates.
pub open spec fn hello_people() -> Seq<EntityView> {
    people_names().map_values(|n: Seq<char>| named_person(n))
}

/// The greeting app after any ticks: the three persons, the timer after those
/// ticks, and the same routines.
proof fn lemma_hello_state(deltas: Seq<u64>)
    ensures
        run_ticks(hello_started(), deltas) == (AppView {
            world: WorldView {
                entities: hello_people(),
                timer: Some(run_timer(CountdownTimer::fresh(GREET_PERIOD_NANOS, true), deltas)),
            },
            startup: seq![System::AddPeople],
            systems: seq![System::GreetPeople],
            running: true,
        }),
    decreases deltas.len(),
{
    let timer0 = CountdownTimer::fresh(GREET_PERIOD_NANOS, true);
    if deltas.len() == 0 {
        let built = HelloPlugin::build_spec(AppView::empty());
        let w0 = WorldView { entities: Seq::empty(), timer: Some(timer0) };
        assert(built.world == w0);
        assert(built.startup =~= seq![System::AddPeople]);
        assert(built.systems =~= seq![System::GreetPeople]);
        assert(built.startup.drop_last() =~= Seq::<System>::empty());
        assert(crate::app::run_systems_spec(w0, Seq::<System>::empty(), 0) == (
            w0,
            Seq::<Seq<char>>::empty(),
            None::<crate::world::EcsError>,
        ));
        assert(Seq::<EntityView>::empty() + hello_people() =~= hello_people());
        assert(crate::app::run_system_spec(w0, System::AddPeople, 0) == Ok::<
            (WorldView, Seq<Seq<char>>),
            crate::world::EcsError,
        >((WorldView { entities: hello_people(), timer: Some(timer0) }, Seq::empty())));
        assert(crate::app::run_systems_spec(w0, built.startup, 0).0 == WorldView {
            entities: hello_people(),
            timer: Some(timer0),
        });
        assert(crate::app::run_systems_spec(w0, built.startup, 0).2 is None);
    } else {
        let prev = deltas.drop_last();
        let d = deltas.last();
        lemma_hello_state(prev);
        let a = run_ticks(hello_started(), prev);
        let t = run_timer(timer0, prev);
        assert(a.startup_spec() == (a, Ok::<(), crate::world::EcsError>(())));
        assert(seq![System::GreetPeople].drop_last() =~= Seq::<System>::empty());
        let w = a.world;
        assert(crate::app::run_systems_spec(w, Seq::<System>::empty(), d) == (
            w,
            Seq::<Seq<char>>::empty(),
            None::<crate::world::EcsError>,
        ));
        let w2 = WorldView { entities: hello_people(), timer: Some(tick_spec(t, d)) };
        assert(crate::app::run_system_spec(w, System::GreetPeople, d) is Ok);
        assert(crate::app::run_system_spec(w, System::GreetPeople, d)->Ok_0.0 == w2);
        assert(crate::app::run_systems_spec(w, a.systems, d).0 == w2);
        assert(crate::app::run_systems_spec(w, a.systems, d).2 is None);
    }
}

proof fn lemma_hello_people_names()
    ensures
        person_names(hello_people()) == people_names(),
        person_count(hello_people()) == 3,
{
    let es = hello_people();
    let ns = people_names();
    let s2 = es.drop_last();
    let s1 = s2.drop_last();
    let s0 = s1.drop_last();
    assert(s0.len() == 0);
    assert(person_names(s0) == Seq::<Seq<char>>::empty());
    assert(person_count(s0) == 0);
    assert(s1.last() == named_person(ns[0]));
    assert(s2.last() == named_person(ns[1]));
    assert(es.last() == named_person(ns[2]));
    assert(person_names(s1) =~= seq![ns[0]]);
    assert(person_names(s2) =~= seq![ns[0], ns[1]]);
    assert(person_names(es) =~= ns);
    assert(person_count(s1) == 1);
    assert(person_count(s2) == 2);
}

/// After startup, whatever ticks follow, exactly three entities carry the
/// person marker.
pub proof fn lemma_person_count_stays_three(deltas: Seq<u64>)
    ensures
        person_count(run_ticks(hello_started(), deltas).world.entities) == 3,
{
    lemma_hello_state(deltas);
    lemma_hello_people_names();
}

/// After startup, whatever ticks follow, the persons' names are the three
/// names of startup, each once.
pub proof fn lemma_person_names_are_the_three(deltas: Seq<u64>)
    ensures
        person_names(run_ticks(hello_started(), deltas).world.entities) == people_names(),
        person_names(run_ticks(hello_started(), deltas).world.entities).no_duplicates(),
        person_names(run_ticks(hello_started(), deltas).world.entities).to_set() == set![
            "Elaina Proctor"@,
            "Renzo Hume"@,
            "Zayna Nieves"@,
        ],
{
    lemma_hello_state(deltas);
    lemma_hello_people_names();
    reveal_strlit("Elaina Proctor");
    reveal_strlit("Renzo Hume");
    reveal_strlit("Zayna Nieves");
    let ns = people_names();
    assert(ns[0].len() != ns[1].len() && ns[0].len() != ns[2].len() && ns[1].len() != ns[2].len());
    assert(ns.to_set() =~= set!["Elaina Proctor"@, "Renzo Hume"@, "Zayna Nieves"@]) by {
        assert forall|x: Seq<char>| ns.contains(x) implies x == ns[0] || x == ns[1] || x == ns[2] by {}
        assert(ns.contains(ns[0]) && ns.contains(ns[1]) && ns.contains(ns[2]));
    }
}

/// The tick that follows any earlier ticks: whether its timer fired, and the
/// lines it produced.
pub open spec fn next_tick(deltas: Seq<u64>, delta: u64) -> (bool, Result<Seq<Seq<char>>, crate::world::EcsError>) {
    let (a, r) = run_ticks(hello_started(), deltas).update_spec(delta);
    (a.world.timer->0.just_finished, r)
}

proof fn lemma_next_tick(deltas: Seq<u64>, delta: u64)
    ensures
        next_tick(deltas, delta).1 == Ok::<Seq<Seq<char>>, crate::world::EcsError>(
            if next_tick(deltas, delta).0 {
                people_names().map_values(|n: Seq<char>| greeting(n))
            } else {
                Seq::empty()
            },
        ),
        next_tick(deltas, delta).0 == run_timer(
            CountdownTimer::fresh(GREET_PERIOD_NANOS, true),
            deltas.push(delta),
        ).just_finished,
{
    let timer0 = CountdownTimer::fresh(GREET_PERIOD_NANOS, true);
    lemma_hello_state(deltas);
    lemma_hello_people_names();
    assert(deltas.push(delta).drop_last() =~= deltas);
    let a = run_ticks(hello_started(), deltas);
    let t = run_timer(timer0, deltas);
    let t2 = tick_spec(t, delta);
    assert(run_timer(timer0, deltas.push(delta)) == t2);
    assert(a.startup_spec() == (a, Ok::<(), crate::world::EcsError>(())));
    assert(seq![System::GreetPeople].drop_last() =~= Seq::<System>::empty());
    let w = a.world;
    assert(crate::app::run_systems_spec(w, Seq::<System>::empty(), delta) == (
        w,
        Seq::<Seq<char>>::empty(),
        None::<crate::world::EcsError>,
    ));
    let out = if t2.just_finished {
        people_names().map_values(|n: Seq<char>| greeting(n))
    } else {
        Seq::<Seq<char>>::empty()
    };
    let w2 = WorldView { entities: hello_people(), timer: Some(t2) };
    assert(crate::app::run_system_spec(w, System::GreetPeople, delta) == Ok::<
        (WorldView, Seq<Seq<char>>),
        crate::world::EcsError,
    >((w2, out)));
    assert(Seq::<Seq<char>>::empty() + out =~= out);
    assert(crate::app::run_systems_spec(w, a.systems, delta) == (
        w2,
        out,
        None::<crate::world::EcsError>,
    ));
}

/// On a tick whose timer fires, the app greets each of the three persons
/// once, in creation order, with `hello {name}!`.
pub proof fn lemma_fired_tick_greets_three(deltas: Seq<u64>, delta: u64)
    requires
        next_tick(deltas, delta).0,
    ensures
        next_tick(deltas, delta).1 is Ok,
        next_tick(deltas, delta).1->Ok_0.len() == 3,
        forall|k: int|
            0 <= k < 3 ==> #[trigger] next_tick(deltas, delta).1->Ok_0[k] == greeting(
                people_names()[k],
            ),
{
    lemma_next_tick(deltas, delta);
}

/// On a tick whose timer does not fire, the app produces no line.
pub proof fn lemma_quiet_tick_greets_nobody(deltas: Seq<u64>, delta: u64)
    requires
        !next_tick(deltas, delta).0,
    ensures
        next_tick(deltas, delta).1 == Ok::<Seq<Seq<char>>, crate::world::EcsError>(Seq::empty()),
{
    lemma_next_tick(deltas, delta);
}

/// In the greeting app, a tick fires exactly when it carries the total time
/// since startup past a multiple of the greeting period.
pub proof fn lemma_app_fires_at_each_period(deltas: Seq<u64>, delta: u64)
    ensures
        next_tick(deltas, delta).0 <==> total(deltas.push(delta)) / (GREET_PERIOD_NANOS as int)
            > total(deltas) / (GREET_PERIOD_NANOS as int),
{
    lemma_next_tick(deltas, delta);
    lemma_repeating_timer_fires_at_each_multiple(GREET_PERIOD_NANOS, deltas.push(delta));
    assert(deltas.push(delta).drop_last() =~= deltas);
}

} // verus!
