use magma_api::app::App;
use magma_api::button_map::{Button, ButtonMap};
use magma_api::entity::Entity;
use magma_api::events::{Events, Raised};
use magma_api::error::StoreError;
use magma_api::input::{
    apply_keyboard_inputs, apply_mouse_inputs, update_keyboard_resource, update_mouse_resource,
    ButtonState, KeyboardInput, MouseButton, MouseButtonInput, MouseScrollUnit, KEYBOARD_INPUT,
    MOUSE_BUTTON_INPUT, MOUSE_MOTION_INPUT, MOUSE_SCROLL_INPUT,
};
use magma_api::keyboard::{Key, KeyCode};
use magma_api::modules::InputModule;
use magma_api::plan::SystemEntry;
use magma_api::schedule::Update;
use magma_api::world::{Store, System};
use magma_ecs::World;

#[allow(dead_code)]
#[derive(Clone, Debug)]
struct MouseScrollInput {
    unit: MouseScrollUnit,
    x: f32,
    y: f32,
    window: Entity,
}

#[allow(dead_code)]
#[derive(Clone, Debug)]
struct MouseMotionInput {
    delta: magma_math::Vec2,
}

#[allow(dead_code)]
#[derive(Clone, Debug)]
enum Input {
    Keyboard(KeyboardInput),
    Button(MouseButtonInput),
    Scroll(MouseScrollInput),
    Motion(MouseMotionInput),
}

type Run = fn(&Store, &Events<Input>) -> Vec<Raised<Input>>;

struct Sys(Run);

impl System<Input> for Sys {
    fn run(&self, store: &Store, events: &Events<Input>) -> Vec<Raised<Input>> {
        (self.0)(store, events)
    }
}

/// Ends the setup, if it is not over yet, and hands out the world.
fn world(app: &mut App<Sys, Input>) -> &World {
    app.seal();
    app.world().unwrap()
}

fn entry(run: Run, name: &str) -> Vec<SystemEntry<Sys>> {
    vec![SystemEntry { run: Sys(run), name: name.to_string(), deps: vec![] }]
}

struct DummyWindow;

fn key(state: ButtonState, key_code: KeyCode, window: Entity) -> KeyboardInput {
    KeyboardInput { key: Key::Space, key_code, state, repeat: false, window }
}

fn click(state: ButtonState, button: MouseButton, window: Entity) -> MouseButtonInput {
    MouseButtonInput { button, state, repeat: false, window }
}

#[test]
fn button_map_keyboard_resource() {
    let mut app: App<Sys, Input> = App::new();
    app.add_module(InputModule);

    world(&mut app).get_resource_mut::<ButtonMap<KeyCode>>().unwrap().press(KeyCode::Comma);

    assert!(world(&mut app).get_resource::<ButtonMap<KeyCode>>().unwrap().just_pressed(KeyCode::Comma));
}

#[test]
fn button_map_mouse_resource() {
    let mut app: App<Sys, Input> = App::new();
    app.add_module(InputModule);

    world(&mut app).get_resource_mut::<ButtonMap<MouseButton>>().unwrap().press(MouseButton::Left);

    assert!(world(&mut app).get_resource::<ButtonMap<MouseButton>>().unwrap().just_pressed(MouseButton::Left));
}

#[test]
fn keyboard_input() {
    let mut app: App<Sys, Input> = App::new();
    app.add_module(InputModule);

    assert!(app.register_component::<DummyWindow>());
    let window = world(&mut app).create_entity((DummyWindow,)).unwrap();

    app.push_event(
        KEYBOARD_INPUT,
        Input::Keyboard(KeyboardInput {
            key: Key::Space,
            key_code: KeyCode::Space,
            state: ButtonState::Pressed,
            repeat: false,
            window: Entity::with_id(window.id()),
        }),
    )
    .unwrap();
}

#[test]
fn mouse_button_input() {
    let mut app: App<Sys, Input> = App::new();
    app.add_module(InputModule);

    assert!(app.register_component::<DummyWindow>());
    let window = world(&mut app).create_entity((DummyWindow,)).unwrap();

    app.push_event(
        MOUSE_BUTTON_INPUT,
        Input::Button(MouseButtonInput {
            button: MouseButton::Left,
            state: ButtonState::Pressed,
            repeat: false,
            window: Entity::with_id(window.id()),
        }),
    )
    .unwrap();
}

#[test]
fn mouse_scroll_input() {
    let mut app: App<Sys, Input> = App::new();
    app.add_module(InputModule);

    assert!(app.register_component::<DummyWindow>());
    let window = world(&mut app).create_entity((DummyWindow,)).unwrap();

    app.push_event(
        MOUSE_SCROLL_INPUT,
        Input::Scroll(MouseScrollInput {
            unit: MouseScrollUnit::Line,
            x: 0.0,
            y: 2.0,
            window: Entity::with_id(window.id()),
        }),
    )
    .unwrap();
}

#[test]
fn mouse_motion_input() {
    let mut app: App<Sys, Input> = App::new();
    app.add_module(InputModule);

    app.push_event(
        MOUSE_MOTION_INPUT,
        Input::Motion(MouseMotionInput { delta: magma_math::Vec2::new(-1.4, 3.3) }),
    )
    .unwrap();
}

fn send_events(world: &Store, _: &Events<Input>) -> Vec<Raised<Input>> {
    let window = Entity::with_id(world.world().unwrap().query::<(DummyWindow,)>().unwrap()[0].id());
    vec![
        Raised { kind: KEYBOARD_INPUT, event: Input::Keyboard(key(ButtonState::Pressed, KeyCode::Space, window)) },
        Raised { kind: KEYBOARD_INPUT, event: Input::Keyboard(key(ButtonState::Released, KeyCode::Space, window)) },
        Raised { kind: MOUSE_BUTTON_INPUT, event: Input::Button(click(ButtonState::Pressed, MouseButton::Left, window)) },
        Raised { kind: MOUSE_BUTTON_INPUT, event: Input::Button(click(ButtonState::Released, MouseButton::Left, window)) },
    ]
}

fn keyboard_system(world: &Store, events: &Events<Input>) -> Vec<Raised<Input>> {
    let inputs: Vec<KeyboardInput> = events
        .get_events(KEYBOARD_INPUT)
        .unwrap()
        .iter()
        .filter_map(|input| match input {
            Input::Keyboard(k) => Some(k.clone()),
            _ => None,
        })
        .collect();
    update_keyboard_resource(world, &inputs).unwrap();
    vec![]
}

fn mouse_system(world: &Store, events: &Events<Input>) -> Vec<Raised<Input>> {
    let inputs: Vec<MouseButtonInput> = events
        .get_events(MOUSE_BUTTON_INPUT)
        .unwrap()
        .iter()
        .filter_map(|input| match input {
            Input::Button(b) => Some(*b),
            _ => None,
        })
        .collect();
    update_mouse_resource(world, &inputs).unwrap();
    vec![]
}

#[test]
fn keyboard_mouse_systems() {
    let mut app: App<Sys, Input> = App::new();
    app.add_module(InputModule);
    app.add_event_systems(KEYBOARD_INPUT, entry(keyboard_system, "keyboard_resource")).unwrap();
    app.add_event_systems(MOUSE_BUTTON_INPUT, entry(mouse_system, "mouse_resource")).unwrap();
    app.add_systems::<Update>(entry(send_events, "send_events")).unwrap();
    assert!(app.register_component::<DummyWindow>());
    world(&mut app).create_entity((DummyWindow,)).unwrap();
    app.run_schedule::<Update>().unwrap();
    app.process_events().unwrap();
    let world = app.world().unwrap();
    assert!(
        world.get_resource::<ButtonMap<KeyCode>>().unwrap().just_released(KeyCode::Space)
            || world.get_resource::<ButtonMap<MouseButton>>().unwrap().just_released(MouseButton::Left)
    );
    assert!(world.get_resource::<ButtonMap<KeyCode>>().unwrap().just_released(KeyCode::Space));
    assert!(world.get_resource::<ButtonMap<KeyCode>>().unwrap().just_pressed(KeyCode::Space));
    assert!(!world.get_resource::<ButtonMap<KeyCode>>().unwrap().pressed(KeyCode::Space));
    assert!(world.get_resource::<ButtonMap<MouseButton>>().unwrap().just_released(MouseButton::Left));
}

fn sorted(keys: &Vec<KeyCode>) -> Vec<u64> {
    let mut codes: Vec<u64> = keys.iter().map(|k| k.code()).collect();
    codes.sort();
    codes
}

#[test]
fn press_counts_as_just_pressed_only_when_the_button_was_up() {
    let mut map: ButtonMap<KeyCode> = ButtonMap::new();
    map.press(KeyCode::KeyA);
    assert!(map.pressed(KeyCode::KeyA));
    assert!(map.just_pressed(KeyCode::KeyA));
    assert!(!map.just_released(KeyCode::KeyA));
    map.clear();
    assert!(map.pressed(KeyCode::KeyA));
    assert!(!map.just_pressed(KeyCode::KeyA));
    map.press(KeyCode::KeyA);
    assert!(!map.just_pressed(KeyCode::KeyA));
    assert_eq!(map.get_pressed().len(), 1);
}

#[test]
fn release_counts_as_just_released_only_when_the_button_was_down() {
    let mut map: ButtonMap<KeyCode> = ButtonMap::new();
    map.release(KeyCode::KeyA);
    assert!(!map.just_released(KeyCode::KeyA));
    map.press(KeyCode::KeyA);
    map.release(KeyCode::KeyA);
    assert!(!map.pressed(KeyCode::KeyA));
    assert!(map.just_released(KeyCode::KeyA));
    assert!(map.just_pressed(KeyCode::KeyA));
    assert_eq!(map.get_just_released(), &vec![KeyCode::KeyA]);
    assert_eq!(map.get_pressed(), &Vec::<KeyCode>::new());
}

#[test]
fn release_all_moves_held_buttons_to_just_released() {
    let mut map: ButtonMap<KeyCode> = ButtonMap::new();
    map.press(KeyCode::KeyA);
    map.press(KeyCode::KeyB);
    map.release(KeyCode::KeyA);
    map.press(KeyCode::KeyC);
    map.release_all();
    assert_eq!(map.get_pressed().len(), 0);
    assert_eq!(
        sorted(map.get_just_released()),
        sorted(&vec![KeyCode::KeyA, KeyCode::KeyB, KeyCode::KeyC])
    );
    assert_eq!(map.get_just_pressed().len(), 3);
}

#[test]
fn reset_and_clear() {
    let mut map: ButtonMap<MouseButton> = ButtonMap::default();
    map.press(MouseButton::Left);
    map.press(MouseButton::Other(7));
    map.release(MouseButton::Left);
    map.clear();
    assert!(map.pressed(MouseButton::Other(7)));
    assert!(!map.just_pressed(MouseButton::Other(7)));
    assert!(!map.just_released(MouseButton::Left));
    map.press(MouseButton::Right);
    map.reset();
    assert!(!map.pressed(MouseButton::Other(7)));
    assert!(!map.pressed(MouseButton::Right));
    assert!(!map.just_pressed(MouseButton::Right));
    assert_eq!(map.get_pressed().len(), 0);
}

#[test]
fn any_and_all() {
    let mut map: ButtonMap<MouseButton> = ButtonMap::new();
    map.press(MouseButton::Left);
    map.press(MouseButton::Other(1));
    map.release(MouseButton::Other(1));
    let both = vec![MouseButton::Left, MouseButton::Other(1)];
    assert!(map.any_pressed(&both));
    assert!(!map.all_pressed(&both));
    assert!(map.all_pressed(&vec![MouseButton::Left]));
    assert!(map.all_pressed(&vec![]));
    assert!(!map.any_pressed(&vec![]));
    assert!(map.all_just_pressed(&both));
    assert!(map.any_just_pressed(&vec![MouseButton::Right, MouseButton::Left]));
    assert!(!map.any_just_pressed(&vec![MouseButton::Right]));
    assert!(map.any_just_released(&both));
    assert!(!map.all_just_released(&both));
    assert!(map.all_just_released(&vec![MouseButton::Other(1)]));
    assert!(!map.any_just_released(&vec![MouseButton::Other(2)]));
}

#[test]
fn mouse_button_codes_tell_buttons_apart() {
    assert_eq!(MouseButton::Left.code(), 0);
    assert_eq!(MouseButton::Back.code(), 4);
    assert_eq!(MouseButton::Other(0).code(), 5);
    assert_eq!(MouseButton::Other(65535).code(), 65540);
    assert_eq!(KeyCode::Unidentified.code(), 0);
    assert_ne!(KeyCode::KeyA.code(), KeyCode::KeyB.code());
    assert_eq!(ButtonState::default(), ButtonState::Released);
}

#[test]
fn keyboard_inputs_are_applied_in_order_after_forgetting() {
    let mut map: ButtonMap<KeyCode> = ButtonMap::new();
    let w = Entity::with_id(0);
    map.press(KeyCode::KeyA);
    map.press(KeyCode::KeyB);
    apply_keyboard_inputs(
        &mut map,
        &vec![
            key(ButtonState::Released, KeyCode::KeyA, w),
            key(ButtonState::Pressed, KeyCode::KeyC, w),
            key(ButtonState::Pressed, KeyCode::KeyB, w),
            key(ButtonState::Released, KeyCode::KeyC, w),
            key(ButtonState::Pressed, KeyCode::KeyD, w),
        ],
    );
    assert_eq!(sorted(map.get_pressed()), sorted(&vec![KeyCode::KeyB, KeyCode::KeyD]));
    assert_eq!(sorted(map.get_just_pressed()), sorted(&vec![KeyCode::KeyC, KeyCode::KeyD]));
    assert_eq!(sorted(map.get_just_released()), sorted(&vec![KeyCode::KeyA, KeyCode::KeyC]));
    apply_keyboard_inputs(&mut map, &vec![]);
    assert_eq!(map.get_just_pressed().len(), 0);
    assert_eq!(map.get_just_released().len(), 0);
    assert_eq!(map.get_pressed().len(), 2);
}

#[test]
fn mouse_inputs_are_applied_in_order_after_forgetting() {
    let mut map: ButtonMap<MouseButton> = ButtonMap::new();
    let w = Entity::with_id(0);
    apply_mouse_inputs(
        &mut map,
        &vec![
            click(ButtonState::Pressed, MouseButton::Left, w),
            click(ButtonState::Released, MouseButton::Left, w),
            click(ButtonState::Pressed, MouseButton::Middle, w),
        ],
    );
    assert!(map.just_pressed(MouseButton::Left));
    assert!(map.just_released(MouseButton::Left));
    assert!(!map.pressed(MouseButton::Left));
    assert!(map.pressed(MouseButton::Middle));
}

#[test]
fn update_resources_in_the_world() {
    let mut world = Store::new();
    let w = Entity::with_id(0);
    assert_eq!(update_keyboard_resource(&world, &vec![]), Err(StoreError));
    assert_eq!(update_mouse_resource(&world, &vec![]), Err(StoreError));
    let mut keys: ButtonMap<KeyCode> = ButtonMap::new();
    keys.press(KeyCode::KeyA);
    assert!(world.add_resource(keys));
    assert!(world.add_resource(ButtonMap::<MouseButton>::new()));
    // a store that is not sealed is not asked
    assert_eq!(update_keyboard_resource(&world, &vec![]), Err(StoreError));
    assert_eq!(update_mouse_resource(&world, &vec![]), Err(StoreError));
    world.seal();
    update_keyboard_resource(&world, &vec![key(ButtonState::Pressed, KeyCode::KeyB, w)]).unwrap();
    update_mouse_resource(&world, &vec![click(ButtonState::Pressed, MouseButton::Right, w)]).unwrap();
    let keys = world.world().unwrap().get_resource::<ButtonMap<KeyCode>>().unwrap();
    assert!(keys.pressed(KeyCode::KeyA));
    assert!(!keys.just_pressed(KeyCode::KeyA));
    assert!(keys.just_pressed(KeyCode::KeyB));
    assert!(world
        .world()
        .unwrap()
        .get_resource::<ButtonMap<MouseButton>>()
        .unwrap()
        .pressed(MouseButton::Right));
}
