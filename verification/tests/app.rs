use magma_api::app::{App, Module};
use magma_api::error::{EventError, PlanCompilationError, ScheduleError};
use magma_api::events::{Events, Raised};
use magma_api::modules::{
    input_reactions, lone_system, sync_stage, window_reactions, DefaultModules, SyncModule,
    SyncSchedule, WindowModule,
};
use magma_api::plan::SystemEntry;
use magma_api::schedule::{AppSchedule, PostUpdate, PreUpdate, Startup, Update};
use magma_api::world::{Store, System};
use magma_ecs::World;

#[derive(Clone, Debug, PartialEq)]
struct Event;

const EVENT: u64 = 1007;
const OTHER: u64 = 1008;

type Run = fn(&World, &Events<Event>) -> Vec<Raised<Event>>;

struct Sys(Run);

impl System<Event> for Sys {
    fn run(&self, store: &Store, events: &Events<Event>) -> Vec<Raised<Event>> {
        (self.0)(store.world().unwrap(), events)
    }
}

fn systems(list: &[(Run, &str, &[&str])]) -> Vec<SystemEntry<Sys>> {
    list.iter()
        .map(|(run, name, deps)| SystemEntry {
            run: Sys(*run),
            name: name.to_string(),
            deps: deps.iter().map(|d| d.to_string()).collect(),
        })
        .collect()
}

#[allow(dead_code)]
struct Transform([[i32; 4]; 4]);
#[allow(dead_code)]
struct Position((i32, i32, i32));
#[allow(dead_code)]
struct Rotation((i32, i32, i32));
#[allow(dead_code)]
struct Velocity((i32, i32, i32));

fn system_startup(world: &World, _: &Events<Event>) -> Vec<Raised<Event>> {
    for _ in 0..1000 {
        world
            .create_entity((
                Transform([[10, 10, 10, 10], [10, 10, 10, 10], [10, 10, 10, 10], [10, 10, 10, 10]]),
                Position((10, 10, 10)),
                Rotation((10, 10, 10)),
                Velocity((10, 10, 10)),
            ))
            .unwrap();
    }
    vec![]
}

fn update_resource(world: &World, _: &Events<Event>) -> Vec<Raised<Event>> {
    let mut res = world.get_resource_mut::<u32>().unwrap();
    *res += 1;
    vec![]
}

fn event_system(_: &World, _: &Events<Event>) -> Vec<Raised<Event>> {
    vec![Raised { kind: EVENT, event: Event }]
}

fn raise_other(_: &World, _: &Events<Event>) -> Vec<Raised<Event>> {
    vec![Raised { kind: OTHER, event: Event }]
}

fn test_system(world: &World, _: &Events<Event>) -> Vec<Raised<Event>> {
    assert_eq!(*world.get_resource::<u32>().unwrap(), 10);
    vec![]
}

/// Ends the setup, if it is not over yet, and hands out the world.
fn world(app: &mut App<Sys, Event>) -> &World {
    app.seal();
    app.world().unwrap()
}

fn test_runner(app: &mut App<Sys, Event>) {
    app.run_schedule::<Startup>().unwrap();
    for _ in 0..10 {
        app.run_schedule::<Update>().unwrap();
        app.process_events().unwrap();
    }
    assert_eq!(20, *world(app).get_resource::<u32>().unwrap());
}

#[test]
fn create_app() {
    let _app: App<Sys, Event> = App::new();
}

#[test]
fn add_systems() {
    let mut app: App<Sys, Event> = App::new();
    assert!(app.register_component::<u32>());
    assert!(app.register_component::<Transform>());
    assert!(app.register_component::<Position>());
    assert!(app.register_component::<Rotation>());
    assert!(app.register_component::<Velocity>());

    assert!(app.add_resource(10_u32));

    app.add_systems::<Startup>(systems(&[(system_startup, "system_startup", &[])])).unwrap();
    app.add_systems::<Update>(systems(&[(update_resource, "update_resource", &[])])).unwrap();
    test_runner(&mut app);
    assert_eq!(world(&mut app).query::<(Transform,)>().unwrap().len(), 1000);
}

#[test]
fn event_systems() {
    let mut app: App<Sys, Event> = App::new();
    app.register_event(EVENT);
    app.add_event_systems(EVENT, systems(&[(update_resource, "update_resource", &[])])).unwrap();
    assert!(app.add_resource(10_u32));

    app.add_systems::<Update>(systems(&[(event_system, "event_system", &[])])).unwrap();

    test_runner(&mut app);
}

pub struct TestModule;

impl Module<Sys, Event> for TestModule {
    fn token(&self) -> u64 {
        1000
    }

    fn id(&self) -> u64 {
        1000
    }

    fn setup(self, app: &mut App<Sys, Event>) {
        assert!(app.add_resource(10_u32));
        app.add_systems::<Startup>(systems(&[(test_system, "test_system", &[])])).unwrap();
    }
}

#[test]
fn add_module() {
    let mut app: App<Sys, Event> = App::new();
    app.add_module(TestModule);
    app.run_schedule::<Startup>().unwrap();
}

#[test]
fn module_is_set_up_once() {
    let mut app: App<Sys, Event> = App::new();
    assert!(!app.is_module_added(1000));
    app.add_module(TestModule);
    assert!(app.is_module_added(1000));
    *world(&mut app).get_resource_mut::<u32>().unwrap() = 10;
    // a second setup would fail to add the resource again and panic
    app.add_module(TestModule);
    assert_eq!(*world(&mut app).get_resource::<u32>().unwrap(), 10);
    app.run_schedule::<Startup>().unwrap();
}

#[test]
fn default_modules_add_their_parts_once() {
    let mut app: App<Sys, Event> = App::new();
    app.add_module(DefaultModules);
    app.add_module(DefaultModules);
    assert!(app.is_module_added(magma_api::modules::INPUT_MODULE));
    assert!(app.is_module_added(magma_api::modules::WINDOWING_MODULE));
    assert!(app.is_module_added(magma_api::modules::DEFAULT_MODULES));
    assert!(app.events().is_registered(magma_api::input::KEYBOARD_INPUT));
    assert!(app.events().is_registered(magma_api::window_event::WINDOW_THEME_CHANGED));
    assert!(world(&mut app)
        .get_resource::<magma_api::button_map::ButtonMap<magma_api::keyboard::KeyCode>>()
        .is_ok());
}

#[test]
fn sync_module_registers_the_sync_schedule() {
    let mut app: App<Sys, Event> = App::new();
    assert_eq!(app.run_schedule::<SyncSchedule>(), Err(ScheduleError::ScheduleNotRegistered));
    app.add_module(SyncModule);
    assert_eq!(app.run_schedule::<SyncSchedule>(), Ok(()));
    assert!(world(&mut app).get_resource::<magma_api::sync::EntityRenderEntityMap>().is_ok());
}

fn increment(world: &World, _: &Events<Event>) -> Vec<Raised<Event>> {
    *world.get_resource_mut::<u32>().unwrap() += 1;
    vec![]
}

fn expect_one(world: &World, _: &Events<Event>) -> Vec<Raised<Event>> {
    assert_eq!(*world.get_resource::<u32>().unwrap(), 1);
    vec![]
}

#[test]
fn dependency_has_run_when_dependent_runs() {
    let mut app: App<Sys, Event> = App::new();
    assert!(app.add_resource(0_u32));
    app.add_systems::<Update>(systems(&[(expect_one, "A", &["B"]), (increment, "B", &[])])).unwrap();
    app.run_schedule::<Update>().unwrap();
    assert_eq!(*world(&mut app).get_resource::<u32>().unwrap(), 1);
}

#[test]
fn frame_loop_increments_resource() {
    let mut app: App<Sys, Event> = App::new();
    assert!(app.add_resource(10_u32));
    app.add_systems::<Update>(systems(&[(increment, "inc", &[])])).unwrap();
    app.run(10).unwrap();
    assert_eq!(20, *world(&mut app).get_resource::<u32>().unwrap());
}

#[test]
fn frame_runs_all_three_phases_and_startup_once() {
    let mut app: App<Sys, Event> = App::new();
    assert!(app.add_resource(0_u32));
    app.add_systems::<Startup>(systems(&[(increment, "s", &[])])).unwrap();
    app.add_systems::<PreUpdate>(systems(&[(increment, "a", &[])])).unwrap();
    app.add_systems::<Update>(systems(&[(increment, "b", &[])])).unwrap();
    app.add_systems::<PostUpdate>(systems(&[(increment, "c", &[])])).unwrap();
    app.run(4).unwrap();
    assert_eq!(*world(&mut app).get_resource::<u32>().unwrap(), 13);
    app.update().unwrap();
    assert_eq!(*world(&mut app).get_resource::<u32>().unwrap(), 16);
    app.startup().unwrap();
    assert_eq!(*world(&mut app).get_resource::<u32>().unwrap(), 17);
}

struct Custom;

impl AppSchedule for Custom {
    fn token() -> u64 {
        199
    }

    fn tag() -> u64 {
        199
    }
}

#[test]
fn unregistered_schedule_is_rejected() {
    let mut app: App<Sys, Event> = App::new();
    assert!(!app.is_schedule_registered(199));
    assert_eq!(app.run_schedule::<Custom>(), Err(ScheduleError::ScheduleNotRegistered));
    assert_eq!(
        app.add_systems::<Custom>(systems(&[(increment, "inc", &[])])),
        Err(ScheduleError::ScheduleNotRegistered)
    );
    app.register_schedule::<Custom>();
    assert!(app.is_schedule_registered(199));
    assert_eq!(app.run_schedule::<Custom>(), Ok(()));
}

#[test]
fn registering_a_schedule_again_keeps_its_systems() {
    let mut app: App<Sys, Event> = App::new();
    assert!(app.add_resource(0_u32));
    app.register_schedule::<Custom>();
    app.add_systems::<Custom>(systems(&[(increment, "inc", &[])])).unwrap();
    app.register_schedule::<Custom>();
    app.run_schedule::<Custom>().unwrap();
    assert_eq!(*world(&mut app).get_resource::<u32>().unwrap(), 1);
}

#[test]
fn add_systems_reports_cycle_and_unknown_dependency_and_keeps_the_schedule() {
    let mut app: App<Sys, Event> = App::new();
    assert!(app.add_resource(0_u32));
    app.add_systems::<Update>(systems(&[(increment, "inc", &[])])).unwrap();
    assert_eq!(
        app.add_systems::<Update>(systems(&[(increment, "x", &["y"]), (increment, "y", &["x"])])),
        Err(ScheduleError::PlanCompilation(PlanCompilationError::CycleDetected))
    );
    assert_eq!(
        app.add_systems::<Update>(systems(&[(increment, "x", &["nobody"])])),
        Err(ScheduleError::PlanCompilation(PlanCompilationError::UnknownDependency))
    );
    app.run_schedule::<Update>().unwrap();
    assert_eq!(*world(&mut app).get_resource::<u32>().unwrap(), 1);
    app.add_systems::<Update>(systems(&[(increment, "later", &["inc"])])).unwrap();
    app.run_schedule::<Update>().unwrap();
    assert_eq!(*world(&mut app).get_resource::<u32>().unwrap(), 3);
}

#[test]
fn app_events_are_fifo_until_cleared() {
    let mut app: App<Sys, u8> = App::new();
    assert_eq!(app.push_event(EVENT, 1), Err(EventError::EventNotRegistered));
    assert_eq!(app.poll_events(EVENT), Err(EventError::EventNotRegistered));
    app.register_event(EVENT);
    app.push_event(EVENT, 1).unwrap();
    app.push_event(EVENT, 2).unwrap();
    app.push_event(EVENT, 3).unwrap();
    assert_eq!(app.poll_events(EVENT), Ok(&vec![1, 2, 3]));
    app.clear_events();
    assert_eq!(app.poll_events(EVENT), Ok(&vec![]));
}

impl System<u8> for Sys {
    fn run(&self, _: &Store, _: &Events<u8>) -> Vec<Raised<u8>> {
        vec![]
    }
}

#[test]
fn add_event_systems_needs_a_registered_kind() {
    let mut app: App<Sys, Event> = App::new();
    assert_eq!(
        app.add_event_systems(EVENT, systems(&[(increment, "inc", &[])])),
        Err(EventError::EventNotRegistered)
    );
    app.register_event(EVENT);
    assert_eq!(
        app.add_event_systems(EVENT, systems(&[(increment, "x", &["x"])])),
        Err(EventError::PlanCompilation(PlanCompilationError::CycleDetected))
    );
    assert_eq!(app.add_event_systems(EVENT, systems(&[(increment, "inc", &[])])), Ok(()));
}

#[test]
fn process_events_runs_reacting_systems_only_for_pending_kinds() {
    let mut app: App<Sys, Event> = App::new();
    assert!(app.add_resource(0_u32));
    app.register_event(EVENT);
    app.register_event(OTHER);
    app.add_event_systems(EVENT, systems(&[(increment, "inc", &[])])).unwrap();
    app.add_event_systems(OTHER, systems(&[(increment, "a", &[]), (increment, "b", &["a"])])).unwrap();
    app.process_events().unwrap();
    assert_eq!(*world(&mut app).get_resource::<u32>().unwrap(), 0);
    app.push_event(EVENT, Event).unwrap();
    app.push_event(EVENT, Event).unwrap();
    app.process_events().unwrap();
    assert_eq!(*world(&mut app).get_resource::<u32>().unwrap(), 1);
    assert_eq!(app.poll_events(EVENT), Ok(&vec![]));
    app.push_event(OTHER, Event).unwrap();
    app.process_events().unwrap();
    assert_eq!(*world(&mut app).get_resource::<u32>().unwrap(), 3);
    app.process_events().unwrap();
    assert_eq!(*world(&mut app).get_resource::<u32>().unwrap(), 3);
}

#[test]
fn registering_an_event_again_drops_its_queue_and_its_systems() {
    let mut app: App<Sys, Event> = App::new();
    assert!(app.add_resource(0_u32));
    app.register_event(EVENT);
    app.add_event_systems(EVENT, systems(&[(increment, "inc", &[])])).unwrap();
    app.push_event(EVENT, Event).unwrap();
    app.register_event(EVENT);
    assert_eq!(app.poll_events(EVENT), Ok(&vec![]));
    app.push_event(EVENT, Event).unwrap();
    app.process_events().unwrap();
    assert_eq!(*world(&mut app).get_resource::<u32>().unwrap(), 0);
}

#[test]
fn event_of_unregistered_kind_from_a_system_ends_the_run() {
    let mut app: App<Sys, Event> = App::new();
    assert!(app.add_resource(0_u32));
    app.register_event(EVENT);
    app.add_systems::<Update>(systems(&[
        (raise_other, "bad", &[]),
        (increment, "later", &["bad"]),
    ]))
    .unwrap();
    assert_eq!(app.run_schedule::<Update>(), Err(ScheduleError::EventNotRegistered));
    assert_eq!(*world(&mut app).get_resource::<u32>().unwrap(), 0);
    assert_eq!(app.update(), Err(ScheduleError::EventNotRegistered));
}

#[test]
fn raised_events_are_queued_in_system_order() {
    let mut app: App<Sys, Event> = App::new();
    app.register_event(EVENT);
    app.register_event(OTHER);
    app.add_systems::<Update>(systems(&[
        (event_system, "second", &["first"]),
        (raise_other, "first", &[]),
        (event_system, "third", &["second"]),
    ]))
    .unwrap();
    app.run_schedule::<Update>().unwrap();
    assert_eq!(app.poll_events(EVENT), Ok(&vec![Event, Event]));
    assert_eq!(app.poll_events(OTHER), Ok(&vec![Event]));
    assert_eq!(app.events().pending(), vec![EVENT, OTHER]);
}

#[test]
fn components_are_registered_only_before_the_first_run() {
    let mut app: App<Sys, Event> = App::new();
    assert!(app.world().is_none());
    assert!(!app.store().is_sealed());
    assert!(app.register_component::<Position>());
    app.run_schedule::<Update>().unwrap();
    assert!(app.store().is_sealed());
    assert!(!app.register_component::<Velocity>());
    let world = app.world().unwrap();
    assert!(world.create_entity((Position((1, 2, 3)),)).is_ok());
    assert!(world.create_entity((Velocity((1, 2, 3)),)).is_err());
}

#[test]
fn processing_events_ends_the_setup_too() {
    let mut app: App<Sys, Event> = App::new();
    app.process_events().unwrap();
    assert!(app.store().is_sealed());
    assert!(!app.register_component::<Position>());
    assert!(app.add_resource(1_u32));
    assert!(!app.add_resource(2_u32));
}

#[test]
fn window_module_registers_its_events_and_components() {
    let mut app: App<Sys, Event> = App::new();
    app.add_module(WindowModule);
    assert!(app.is_module_added(magma_api::modules::WINDOW_MODULE));
    assert!(!app.is_module_added(magma_api::modules::WINDOWING_MODULE));
    assert!(app.events().is_registered(magma_api::window_event::WINDOW_RESIZED));
    assert!(app.events().is_registered(magma_api::window_event::WINDOW_THEME_CHANGED));
    assert!(app.events().is_registered(magma_api::window_event::WINDOW_ATTRIBUTES_CHANGED));
    assert!(!app.events().is_registered(magma_api::window_event::WINDOW_CLOSED));
    assert_eq!(magma_api::modules::window_module_event_kinds().len(), 14);
    let world = world(&mut app);
    assert!(world.create_entity((magma_api::window::Window::new(),)).is_ok());
    assert!(world.create_entity((magma_api::window::ClosingWindow,)).is_ok());
    assert!(world.create_entity((magma_api::window::PrimaryMonitor,)).is_err());
}

#[test]
fn sync_stage_orders_the_two_systems() {
    let stage = sync_stage(Sys(increment), Sys(expect_one));
    assert_eq!(stage.len(), 2);
    assert_eq!(stage[0].name, "render_sync_entities");
    assert!(stage[0].deps.is_empty());
    assert_eq!(stage[1].name, "render_sync_systems");
    assert_eq!(stage[1].deps, vec!["render_sync_entities".to_string()]);

    let mut app: App<Sys, Event> = App::new();
    app.add_module(SyncModule);
    assert!(app.add_resource(0_u32));
    app.add_systems::<SyncSchedule>(stage).unwrap();
    app.run_schedule::<SyncSchedule>().unwrap();
    assert_eq!(*world(&mut app).get_resource::<u32>().unwrap(), 1);
}

#[test]
fn lone_system_has_its_name_and_no_dependencies() {
    let list = lone_system(Sys(increment), "alone");
    assert_eq!(list.len(), 1);
    assert_eq!(list[0].name, "alone");
    assert!(list[0].deps.is_empty());
}

#[test]
fn reactions_of_input_and_windows_carry_kinds_and_names() {
    let input = input_reactions(Sys(increment), Sys(increment));
    let got: Vec<(u64, String)> =
        input.iter().map(|r| (r.kind, r.systems[0].name.clone())).collect();
    assert_eq!(
        got,
        vec![
            (magma_api::input::KEYBOARD_INPUT, "keyboard_resource".to_string()),
            (magma_api::input::MOUSE_BUTTON_INPUT, "mouse_resource".to_string()),
        ]
    );
    let windows =
        window_reactions(Sys(increment), Sys(increment), Sys(increment), Sys(increment));
    let got: Vec<(u64, String)> =
        windows.iter().map(|r| (r.kind, r.systems[0].name.clone())).collect();
    assert_eq!(
        got,
        vec![
            (magma_api::window_event::WINDOW_CLOSE_REQUESTED, "winit_mark_closed".to_string()),
            (magma_api::window_event::WINDOW_RESIZED, "winit_resized".to_string()),
            (magma_api::window_event::WINDOW_MOVED, "winit_moved".to_string()),
            (magma_api::window_event::WINDOW_FOCUSED, "winit_focused".to_string()),
        ]
    );
    assert!(input.iter().chain(windows.iter()).all(|r| r.systems.len() == 1
        && r.systems[0].deps.is_empty()));

    let mut app: App<Sys, Event> = App::new();
    app.add_module(DefaultModules);
    assert!(app.add_resource(0_u32));
    for reaction in input.into_iter().chain(windows) {
        app.add_event_systems(reaction.kind, reaction.systems).unwrap();
    }
    app.push_event(magma_api::input::KEYBOARD_INPUT, Event).unwrap();
    app.push_event(magma_api::window_event::WINDOW_MOVED, Event).unwrap();
    app.process_events().unwrap();
    assert_eq!(*world(&mut app).get_resource::<u32>().unwrap(), 2);
}

#[test]
fn listed_run_starts_systems_wave_by_wave() {
    let mut app: App<Sys, Event> = App::new();
    assert!(app.add_resource(0_u32));
    app.add_systems::<Update>(systems(&[
        (expect_one, "A", &["B"]),
        (increment, "B", &[]),
        (expect_one, "C", &["B"]),
        (event_system_free, "D", &[]),
    ]))
    .unwrap();
    let run = app.run_schedule_listed::<Update>();
    assert_eq!(run.result, Ok(()));
    assert_eq!(run.waves, 2);
    assert_eq!(run.started, vec![1, 3, 0, 2]);
    assert_eq!(*world(&mut app).get_resource::<u32>().unwrap(), 1);
}

fn event_system_free(_: &World, _: &Events<Event>) -> Vec<Raised<Event>> {
    vec![]
}

#[test]
fn listed_run_ends_with_the_wave_that_raised_an_unknown_event() {
    let mut app: App<Sys, Event> = App::new();
    assert!(app.add_resource(0_u32));
    app.add_systems::<Update>(systems(&[
        (increment, "last", &["middle"]),
        (raise_other, "middle", &["first"]),
        (increment, "first", &[]),
    ]))
    .unwrap();
    let run = app.run_schedule_listed::<Update>();
    assert_eq!(run.result, Err(ScheduleError::EventNotRegistered));
    assert_eq!(run.waves, 2);
    assert_eq!(run.started, vec![2, 1]);
    assert_eq!(*world(&mut app).get_resource::<u32>().unwrap(), 1);
}

#[test]
fn listed_run_of_an_unregistered_schedule_starts_nothing() {
    let mut app: App<Sys, Event> = App::new();
    let run = app.run_schedule_listed::<Custom>();
    assert_eq!(run.result, Err(ScheduleError::ScheduleNotRegistered));
    assert_eq!(run.waves, 0);
    assert_eq!(run.started, Vec::<usize>::new());
    assert!(!app.store().is_sealed());
}

#[test]
fn dispatch_runs_the_plans_of_the_pending_kinds_once() {
    let mut app: App<Sys, Event> = App::new();
    assert!(app.add_resource(0_u32));
    app.register_event(EVENT);
    app.register_event(OTHER);
    app.add_event_systems(EVENT, systems(&[(expect_one, "after", &["inc"]), (increment, "inc", &[])]))
        .unwrap();
    app.add_event_systems(OTHER, systems(&[(increment, "other", &[])])).unwrap();
    app.add_systems::<Update>(systems(&[(increment, "update", &[])])).unwrap();
    app.push_event(EVENT, Event).unwrap();
    app.push_event(EVENT, Event).unwrap();
    app.push_event(EVENT, Event).unwrap();

    let dispatch = app.process_events_listed();
    assert_eq!(dispatch.result, Ok(()));
    assert_eq!(dispatch.kinds, vec![EVENT]);
    assert_eq!(dispatch.runs.len(), 1);
    assert_eq!(dispatch.runs[0].result, Ok(()));
    assert_eq!(dispatch.runs[0].waves, 2);
    assert_eq!(dispatch.runs[0].started, vec![1, 0]);
    assert_eq!(*world(&mut app).get_resource::<u32>().unwrap(), 1);
    assert_eq!(app.poll_events(EVENT), Ok(&vec![]));

    let dispatch = app.process_events_listed();
    assert_eq!(dispatch.result, Ok(()));
    assert_eq!(dispatch.kinds, Vec::<u64>::new());
    assert_eq!(dispatch.runs.len(), 0);
}

#[test]
fn dispatch_goes_on_behind_a_kind_whose_systems_failed() {
    let mut app: App<Sys, Event> = App::new();
    assert!(app.add_resource(0_u32));
    app.register_event(EVENT);
    app.register_event(1009);
    app.add_event_systems(EVENT, systems(&[(raise_other, "bad", &[])])).unwrap();
    app.add_event_systems(1009, systems(&[(increment, "inc", &[])])).unwrap();
    app.push_event(1009, Event).unwrap();
    app.push_event(EVENT, Event).unwrap();
    let dispatch = app.process_events_listed();
    assert_eq!(dispatch.result, Err(EventError::EventNotRegistered));
    assert_eq!(dispatch.kinds, vec![EVENT, 1009]);
    assert_eq!(dispatch.runs.len(), 2);
    assert_eq!(dispatch.runs[0].result, Err(ScheduleError::EventNotRegistered));
    assert_eq!(dispatch.runs[0].started, vec![0]);
    assert_eq!(dispatch.runs[1].result, Ok(()));
    assert_eq!(*world(&mut app).get_resource::<u32>().unwrap(), 1);
    assert_eq!(app.poll_events(1009), Ok(&vec![]));
}

#[test]
fn pending_event_without_reacting_systems_does_not_fail_the_frame() {
    let mut app: App<Sys, Event> = App::new();
    app.register_event(EVENT);
    app.push_event(EVENT, Event).unwrap();
    assert_eq!(app.update(), Ok(()));
    assert_eq!(app.poll_events(EVENT), Ok(&vec![]));
    app.push_event(EVENT, Event).unwrap();
    assert_eq!(app.process_events(), Ok(()));
    app.push_event(EVENT, Event).unwrap();
    assert_eq!(app.run(3), Ok(()));
}

#[test]
fn frame_lists_the_three_phases_and_then_the_dispatch() {
    let mut app: App<Sys, Event> = App::new();
    assert!(app.add_resource(0_u32));
    app.register_event(EVENT);
    app.add_systems::<Startup>(systems(&[(increment, "never", &[])])).unwrap();
    app.add_systems::<PreUpdate>(systems(&[(increment, "pre", &[])])).unwrap();
    app.add_systems::<Update>(systems(&[(event_system, "raise", &["inc"]), (increment, "inc", &[])]))
        .unwrap();
    app.add_event_systems(EVENT, systems(&[(increment, "react", &[])])).unwrap();

    let frame = app.update_listed();
    assert_eq!(frame.result, Ok(()));
    assert_eq!(frame.phases.len(), 3);
    assert_eq!(frame.phases[0].started, vec![0]);
    assert_eq!(frame.phases[1].started, vec![1, 0]);
    assert_eq!(frame.phases[1].waves, 2);
    assert_eq!(frame.phases[2].started, Vec::<usize>::new());
    assert!(frame.phases.iter().all(|run| run.result == Ok(())));
    let dispatch = frame.dispatch.unwrap();
    assert_eq!(dispatch.kinds, vec![EVENT]);
    assert_eq!(dispatch.runs.len(), 1);
    assert_eq!(dispatch.runs[0].started, vec![0]);
    assert_eq!(*world(&mut app).get_resource::<u32>().unwrap(), 3);
}

#[test]
fn frame_ends_behind_the_phase_that_failed() {
    let mut app: App<Sys, Event> = App::new();
    assert!(app.add_resource(0_u32));
    app.add_systems::<PreUpdate>(systems(&[(increment, "pre", &[])])).unwrap();
    app.add_systems::<Update>(systems(&[(raise_other, "bad", &[])])).unwrap();
    app.add_systems::<PostUpdate>(systems(&[(increment, "post", &[])])).unwrap();
    let frame = app.update_listed();
    assert_eq!(frame.result, Err(ScheduleError::EventNotRegistered));
    assert_eq!(frame.phases.len(), 2);
    assert_eq!(frame.phases[0].result, Ok(()));
    assert_eq!(frame.phases[1].result, Err(ScheduleError::EventNotRegistered));
    assert_eq!(frame.phases[1].started, vec![0]);
    assert!(frame.dispatch.is_none());
    assert_eq!(*world(&mut app).get_resource::<u32>().unwrap(), 1);
}

#[test]
fn run_lists_startup_once_and_then_every_frame() {
    let mut app: App<Sys, Event> = App::new();
    assert!(app.add_resource(0_u32));
    app.add_systems::<Startup>(systems(&[(increment, "start", &[])])).unwrap();
    app.add_systems::<Update>(systems(&[(increment, "inc", &[])])).unwrap();
    let session = app.run_listed(10);
    assert_eq!(session.result, Ok(()));
    assert_eq!(session.startup.started, vec![0]);
    assert_eq!(session.frames.len(), 10);
    for frame in session.frames.iter() {
        assert_eq!(frame.result, Ok(()));
        assert_eq!(frame.phases.len(), 3);
        assert_eq!(frame.phases[0].started, Vec::<usize>::new());
        assert_eq!(frame.phases[1].started, vec![0]);
        assert_eq!(frame.phases[2].started, Vec::<usize>::new());
        assert_eq!(frame.dispatch.as_ref().unwrap().runs.len(), 0);
    }
    assert_eq!(*world(&mut app).get_resource::<u32>().unwrap(), 11);

    let session = app.run_listed(0);
    assert_eq!(session.result, Ok(()));
    assert_eq!(session.frames.len(), 0);
    assert_eq!(*world(&mut app).get_resource::<u32>().unwrap(), 12);
}

#[test]
fn run_ends_with_the_frame_that_failed_or_with_startup() {
    let mut app: App<Sys, Event> = App::new();
    app.add_systems::<PostUpdate>(systems(&[(raise_other, "bad", &[])])).unwrap();
    let session = app.run_listed(5);
    assert_eq!(session.result, Err(ScheduleError::EventNotRegistered));
    assert_eq!(session.startup.result, Ok(()));
    assert_eq!(session.frames.len(), 1);
    assert_eq!(session.frames[0].phases.len(), 3);
    assert!(session.frames[0].dispatch.is_none());

    let mut app: App<Sys, Event> = App::new();
    app.add_systems::<Startup>(systems(&[(raise_other, "bad", &[])])).unwrap();
    let session = app.run_listed(5);
    assert_eq!(session.result, Err(ScheduleError::EventNotRegistered));
    assert_eq!(session.startup.result, Err(ScheduleError::EventNotRegistered));
    assert_eq!(session.frames.len(), 0);
}

#[test]
fn default_app_is_a_new_app() {
    let mut app: App<Sys, Event> = App::default();
    assert!(app.is_schedule_registered(Update::tag()));
    assert!(app.is_schedule_registered(Startup::tag()));
    assert!(!app.is_module_added(1000));
    assert!(!app.store().is_sealed());
    assert_eq!(app.run(2), Ok(()));
}
