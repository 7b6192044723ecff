use hello_ecs::app::{App, System};
use hello_ecs::hello::{add_people, greet_people, greeting_line, HelloPlugin, GREET_PERIOD_NANOS};
use hello_ecs::timer::CountdownTimer;
use hello_ecs::world::{EcsError, Entity, World};

const SECOND: u64 = 1_000_000_000;

fn hello_app() -> App {
    let mut app = App::new();
    app.add_plugin(&HelloPlugin);
    app
}

fn names(world: &World) -> Vec<String> {
    world
        .query_named_persons()
        .into_iter()
        .map(|id| world.name_of(id).clone())
        .collect()
}

#[test]
fn ticks_of_one_second_greet_on_second_and_fourth() {
    let mut app = hello_app();
    let counts: Vec<usize> = (0..4).map(|_| app.update(SECOND).unwrap().len()).collect();
    assert_eq!(counts, vec![0, 3, 0, 3]);
}

#[test]
fn fired_tick_greets_each_person_in_order() {
    let mut app = hello_app();
    assert_eq!(app.update(SECOND).unwrap(), Vec::<String>::new());
    let lines = app.update(SECOND).unwrap();
    assert_eq!(
        lines,
        vec!["hello Elaina Proctor!", "hello Renzo Hume!", "hello Zayna Nieves!"]
    );
}

#[test]
fn half_second_ticks_first_fire_on_fourth() {
    let mut app = hello_app();
    let counts: Vec<usize> = (0..8).map(|_| app.update(SECOND / 2).unwrap().len()).collect();
    assert_eq!(counts, vec![0, 0, 0, 3, 0, 0, 0, 3]);
}

#[test]
fn startup_creates_three_named_persons() {
    let mut app = hello_app();
    assert_eq!(app.world().len(), 0);
    assert_eq!(app.startup(), Ok(()));
    assert_eq!(app.world().count_persons(), 3);
    assert_eq!(
        names(app.world()),
        vec!["Elaina Proctor", "Renzo Hume", "Zayna Nieves"]
    );
}

#[test]
fn person_count_unchanged_by_ticks() {
    let mut app = hello_app();
    for _ in 0..10 {
        app.update(SECOND / 3).unwrap();
        assert_eq!(app.world().count_persons(), 3);
        assert_eq!(app.world().len(), 3);
    }
    assert_eq!(
        names(app.world()),
        vec!["Elaina Proctor", "Renzo Hume", "Zayna Nieves"]
    );
}

#[test]
fn startup_runs_once() {
    let mut app = hello_app();
    app.startup().unwrap();
    app.startup().unwrap();
    app.update(SECOND).unwrap();
    assert_eq!(app.world().count_persons(), 3);
}

#[test]
fn greeting_without_timer_is_resource_not_found() {
    let mut app = App::new();
    app.add_startup_system(System::AddPeople);
    app.add_system(System::GreetPeople);
    assert_eq!(app.update(SECOND), Err(EcsError::ResourceNotFound));
    assert_eq!(app.world().count_persons(), 3);

    let mut world = World::new();
    assert_eq!(greet_people(&mut world, SECOND), Err(EcsError::ResourceNotFound));
}

#[test]
fn plugin_registers_two_second_repeating_timer() {
    let app = hello_app();
    let t = *app.world().timer().unwrap();
    assert_eq!(t, CountdownTimer::from_nanos(2 * SECOND, true));
    assert_eq!(GREET_PERIOD_NANOS, 2 * SECOND);
}

#[test]
fn greet_people_ticks_the_timer() {
    let mut world = World::new();
    world.insert_timer(CountdownTimer::from_nanos(10, true));
    add_people(&mut world);
    assert_eq!(greet_people(&mut world, 4).unwrap().len(), 0);
    assert_eq!(world.timer().unwrap().elapsed, 4);
    let lines = greet_people(&mut world, 7).unwrap();
    assert_eq!(lines[1], "hello Renzo Hume!");
    assert_eq!(world.timer().unwrap().elapsed, 1);
}

#[test]
fn greeting_line_wraps_name() {
    assert_eq!(greeting_line("Renzo Hume"), "hello Renzo Hume!");
    assert_eq!(greeting_line(""), "hello !");
}

#[test]
fn query_selects_named_persons_only() {
    let mut world = World::new();
    world.spawn(Entity { person: false, name: Some("Cat".to_string()) });
    let a = world.spawn(Entity::person_named("Ada".to_string()));
    world.spawn(Entity { person: true, name: None });
    let b = world.spawn(Entity::person_named("Bo".to_string()));
    assert_eq!(a.index, 1);
    assert_eq!(b.index, 3);
    assert_eq!(world.query_named_persons(), vec![a, b]);
    assert_eq!(world.count_persons(), 3);
    assert_eq!(names(&world), vec!["Ada", "Bo"]);
}

#[test]
fn insert_timer_replaces_earlier_one() {
    let mut world = World::new();
    assert_eq!(world.timer(), Err(EcsError::ResourceNotFound));
    world.insert_timer(CountdownTimer::from_nanos(5, false));
    world.insert_timer(CountdownTimer::from_nanos(9, true));
    assert_eq!(world.timer().unwrap().threshold, 9);
    assert_eq!(world.tick_timer(9), Ok(true));
}
