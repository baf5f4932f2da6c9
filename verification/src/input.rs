//! Input devices: the events they send and the systems that keep the
//! button maps.

use vstd::prelude::*;
use crate::button_map::{Button, ButtonMap, ButtonModel};
use crate::entity::Entity;
use crate::error::StoreError;
use crate::keyboard::{Key, KeyCode};
use crate::world::{swap_resource, Store};

verus! {

/// The kind of `KeyboardInput` events.
pub const KEYBOARD_INPUT: u64 = 200;

/// The kind of `MouseButtonInput` events.
pub const MOUSE_BUTTON_INPUT: u64 = 201;

/// The kind of the events that tell of the mouse's scroll wheel.
pub const MOUSE_SCROLL_INPUT: u64 = 202;

/// The kind of the events that tell of the mouse's motion.
pub const MOUSE_MOTION_INPUT: u64 = 203;

/// Describes the state of a key or button.
#[derive(Clone, Copy, PartialEq, Eq, Structural, PartialOrd, Ord, Hash, Debug)]
pub enum ButtonState {
    /// The key/button is currently pressed.
    Pressed,
    /// The key/button was released.
    Released,
}

impl Default for ButtonState {
    fn default() -> (state: ButtonState)
        ensures
            state == ButtonState::Released,
    {
        ButtonState::Released
    }
}

/// Mouse buttons.
#[derive(Clone, Copy, PartialEq, Eq, Structural, Hash, Debug)]
pub enum MouseButton {
    Left,
    Right,
    Middle,
    Forward,
    Back,
    Other(u16),
}

impl Button for MouseButton {
    open spec fn spec_code(&self) -> u64 {
        match self {
            MouseButton::Left => 0,
            MouseButton::Right => 1,
            MouseButton::Middle => 2,
            MouseButton::Forward => 3,
            MouseButton::Back => 4,
            MouseButton::Other(id) => (5 + *id) as u64,
        }
    }

    fn code(&self) -> (code: u64) {
        match self {
            MouseButton::Left => 0,
            MouseButton::Right => 1,
            MouseButton::Middle => 2,
            MouseButton::Forward => 3,
            MouseButton::Back => 4,
            MouseButton::Other(id) => {
                let wide: u64 = (*id).into();
                5 + wide
            },
        }
    }

    proof fn lemma_code_identifies(a: Self, b: Self) {
    }
}

/// Indicates the unit of a mouse scroll event.
#[derive(Clone, Copy, PartialEq, Eq, Structural, Hash, Debug)]
pub enum MouseScrollUnit {
    /// The scroll event counts lines or rows.
    Line,
    /// The scroll event counts pixels.
    Pixel,
}

/// Event emitted for keyboard input.
#[derive(Clone, PartialEq, Eq, Debug)]
pub struct KeyboardInput {
    /// Key name.
    pub key: Key,
    /// Key code.
    pub key_code: KeyCode,
    /// The current state of the key.
    pub state: ButtonState,
    /// Whether the event comes from a key that is held down and repeats.
    pub repeat: bool,
    /// The window which emitted the event.
    pub window: Entity,
}

/// Event emitted when a mouse button is pressed.
#[derive(Clone, Copy, PartialEq, Eq, Debug)]
pub struct MouseButtonInput {
    /// The button of the mouse.
    pub button: MouseButton,
    /// The current state of the button.
    pub state: ButtonState,
    /// Whether the event comes from a button that is held down and repeats.
    pub repeat: bool,
    /// The window which emitted the event.
    pub window: Entity,
}

/// The state after the buttons of `changes` went down or up, one after the other.
pub open spec fn applied<T>(model: ButtonModel<T>, changes: Seq<(T, ButtonState)>) -> ButtonModel<T>
    decreases changes.len(),
{
    if changes.len() == 0 {
        model
    } else {
        let before = applied(model, changes.drop_last());
        match changes.last().1 {
            ButtonState::Pressed => before.press(changes.last().0),
            ButtonState::Released => before.release(changes.last().0),
        }
    }
}

/// What keyboard events tell of key codes.
pub open spec fn keyboard_changes(inputs: Seq<KeyboardInput>) -> Seq<(KeyCode, ButtonState)> {
    Seq::new(inputs.len(), |i: int| (inputs[i].key_code, inputs[i].state))
}

/// What mouse button events tell of buttons.
pub open spec fn mouse_changes(inputs: Seq<MouseButtonInput>) -> Seq<(MouseButton, ButtonState)> {
    Seq::new(inputs.len(), |i: int| (inputs[i].button, inputs[i].state))
}

/// Brings the key map up to date with the keyboard events of the frame:
/// what was just pressed or released is forgotten, then every event presses
/// or releases its key code, in the order of the events.
pub fn apply_keyboard_inputs(map: &mut ButtonMap<KeyCode>, inputs: &Vec<KeyboardInput>)
    ensures
        old(map).wf() ==> final(map).wf(),
        final(map).model() == applied(old(map).model().clear(), keyboard_changes(inputs@)),
{
    map.clear();
    let ghost changes = keyboard_changes(inputs@);
    let mut i: usize = 0;
    proof {
        assert(changes.take(0) =~= Seq::<(KeyCode, ButtonState)>::empty());
    }
    while i < inputs.len()
        invariant
            i <= inputs.len(),
            old(map).wf() ==> map.wf(),
            changes == keyboard_changes(inputs@),
            map.model() == applied(old(map).model().clear(), changes.take(i as int)),
        decreases inputs.len() - i,
    {
        proof {
            assert(changes.take(i + 1).drop_last() =~= changes.take(i as int));
            assert(changes.take(i + 1).last() == (inputs@[i as int].key_code, inputs@[i as int].state));
        }
        match inputs[i].state {
            ButtonState::Pressed => map.press(inputs[i].key_code),
            ButtonState::Released => map.release(inputs[i].key_code),
        }
        i += 1;
    }
    proof {
        assert(changes.take(i as int) =~= changes);
    }
}

/// Brings the mouse button map up to date with the mouse button events of
/// the frame, as `apply_keyboard_inputs` does for keys.
pub fn apply_mouse_inputs(map: &mut ButtonMap<MouseButton>, inputs: &Vec<MouseButtonInput>)
    ensures
        old(map).wf() ==> final(map).wf(),
        final(map).model() == applied(old(map).model().clear(), mouse_changes(inputs@)),
{
    map.clear();
    let ghost changes = mouse_changes(inputs@);
    let mut i: usize = 0;
    proof {
        assert(changes.take(0) =~= Seq::<(MouseButton, ButtonState)>::empty());
    }
    while i < inputs.len()
        invariant
            i <= inputs.len(),
            old(map).wf() ==> map.wf(),
            changes == mouse_changes(inputs@),
            map.model() == applied(old(map).model().clear(), changes.take(i as int)),
        decreases inputs.len() - i,
    {
        proof {
            assert(changes.take(i + 1).drop_last() =~= changes.take(i as int));
            assert(changes.take(i + 1).last() == (inputs@[i as int].button, inputs@[i as int].state));
        }
        match inputs[i].state {
            ButtonState::Pressed => map.press(inputs[i].button),
            ButtonState::Released => map.release(inputs[i].button),
        }
        i += 1;
    }
    proof {
        assert(changes.take(i as int) =~= changes);
    }
}

/// Brings the key map that `world` holds as a resource up to date with
/// `inputs`, the keyboard events of the frame, as `apply_keyboard_inputs`
/// says. Fails, and changes nothing, where the world holds no key map or
/// the store is not sealed.
pub fn update_keyboard_resource(world: &Store, inputs: &Vec<KeyboardInput>) -> (r: Result<
    (),
    StoreError,
>)
    ensures
        !world.sealed() ==> r.is_err(),
{
    if !world.is_sealed() {
        return Err(StoreError);
    }
    match swap_resource(world, ButtonMap::<KeyCode>::new()) {
        None => Err(StoreError),
        Some(held) => {
            let mut map = held;
            apply_keyboard_inputs(&mut map, inputs);
            swap_resource(world, map);
            Ok(())
        },
    }
}

/// Brings the mouse button map that `world` holds as a resource up to date
/// with `inputs`, the mouse button events of the frame, as
/// `apply_mouse_inputs` says. Fails, and changes nothing, where the world
/// holds no mouse button map or the store is not sealed.
pub fn update_mouse_resource(world: &Store, inputs: &Vec<MouseButtonInput>) -> (r: Result<
    (),
    StoreError,
>)
    ensures
        !world.sealed() ==> r.is_err(),
{
    if !world.is_sealed() {
        return Err(StoreError);
    }
    match swap_resource(world, ButtonMap::<MouseButton>::new()) {
        None => Err(StoreError),
        Some(held) => {
            let mut map = held;
            apply_mouse_inputs(&mut map, inputs);
            swap_resource(world, map);
            Ok(())
        },
    }
}

} // verus!
