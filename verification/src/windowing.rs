//! What the windowing backend decides from plain values: how windows react
//! to their events, which windows to close, create, update or drop, where a
//! centered window stands and which video mode a monitor is put into.

use vstd::prelude::*;
use crate::entity::Entity;
use crate::error::StoreError;
use crate::sync::{common, contains_entity};
use crate::window::ClosingWindow;
use crate::world::{despawn, entities_with, load_component, put_component, Store};
use crate::window::{ivec2, ivec2_of, Window, WindowPosition, WindowResolution, WindowView};
use crate::window_event::{
    WindowCloseRequested, WindowClosed, WindowFocused, WindowMoved, WindowResized,
};

verus! {

/// A window took the size of a resize event, unless the window handles its
/// events itself. The change does not count as a change of attributes.
pub fn resize_window(window: &mut Window, event: &WindowResized)
    ensures
        final(window)@ == if old(window)@.default_event_handling {
            WindowView {
                resolution: WindowResolution { width: event.width, height: event.height },
                changed_attr: false,
                ..old(window)@
            }
        } else {
            old(window)@
        },
{
    if window.default_event_handling() {
        window.set_resolution(WindowResolution::new(event.width, event.height));
        window.mark_unchanged();
    }
}

/// A window took the position of a move event, unless the window handles
/// its events itself. The change does not count as a change of attributes.
pub fn move_window(window: &mut Window, event: &WindowMoved)
    ensures
        final(window)@ == if old(window)@.default_event_handling {
            WindowView {
                position: WindowPosition::Pos(event.position),
                changed_attr: false,
                ..old(window)@
            }
        } else {
            old(window)@
        },
{
    if window.default_event_handling() {
        window.set_position(WindowPosition::Pos(event.position));
        window.mark_unchanged();
    }
}

/// A window took the focus of a focus event, unless the window handles its
/// events itself. The change does not count as a change of attributes.
pub fn focus_window(window: &mut Window, event: &WindowFocused)
    ensures
        final(window)@ == if old(window)@.default_event_handling {
            WindowView { focused: event.focus, changed_attr: false, ..old(window)@ }
        } else {
            old(window)@
        },
{
    if window.default_event_handling() {
        window.set_focused(event.focus);
        window.mark_unchanged();
    }
}

/// A window entity and whether the backend handles its events.
#[derive(Clone, Copy, PartialEq, Eq, Structural, Debug)]
pub struct HandledWindow {
    pub window: Entity,
    pub default_event_handling: bool,
}

/// One of `requests` asks to close `window`.
pub open spec fn asked_to_close(requests: Seq<WindowCloseRequested>, window: Entity) -> bool {
    exists|i: int| 0 <= i < requests.len() && requests[i].window == window
}

/// Whether one of `requests` asks to close `window`.
pub fn close_requested(requests: &Vec<WindowCloseRequested>, window: Entity) -> (b: bool)
    ensures
        b == asked_to_close(requests@, window),
{
    let mut i: usize = 0;
    while i < requests.len()
        invariant
            i <= requests.len(),
            forall|j: int| 0 <= j < i ==> requests@[j].window != window,
        decreases requests.len() - i,
    {
        if requests[i].window == window {
            return true;
        }
        i += 1;
    }
    false
}

/// The windows to mark as closing: those of `windows`, in their order, that
/// a request asks to close and whose events the backend handles.
pub fn windows_to_close(
    requests: &Vec<WindowCloseRequested>,
    windows: &Vec<HandledWindow>,
) -> (closing: Vec<Entity>)
    ensures
        closing@ == windows@.filter(
            |w: HandledWindow| w.default_event_handling && asked_to_close(requests@, w.window),
        ).map_values(|w: HandledWindow| w.window),
        forall|k: int| 0 <= k < closing@.len() ==> asked_to_close(requests@, #[trigger] closing@[k]),
{
    let ghost wanted = |w: HandledWindow|
        w.default_event_handling && asked_to_close(requests@, w.window);
    let ghost entity = |w: HandledWindow| w.window;
    let mut closing: Vec<Entity> = Vec::new();
    let mut k: usize = 0;
    proof {
        assert(windows@.take(0) =~= Seq::<HandledWindow>::empty());
        assert(windows@.take(0).filter(wanted).map_values(entity) =~= Seq::<Entity>::empty());
    }
    while k < windows.len()
        invariant
            k <= windows.len(),
            wanted == |w: HandledWindow|
                w.default_event_handling && asked_to_close(requests@, w.window),
            entity == |w: HandledWindow| w.window,
            closing@ == windows@.take(k as int).filter(wanted).map_values(entity),
            forall|j: int|
                0 <= j < closing@.len() ==> asked_to_close(requests@, #[trigger] closing@[j]),
        decreases windows.len() - k,
    {
        let w = windows[k];
        let ghost before = windows@.take(k as int).filter(wanted);
        proof {
            let next = windows@.take(k + 1);
            assert(next.drop_last() =~= windows@.take(k as int));
            assert(next.last() == w);
            reveal(Seq::filter);
        }
        if w.default_event_handling && close_requested(requests, w.window) {
            closing.push(w.window);
            proof {
                assert(before.push(w).map_values(entity) =~= before.map_values(entity).push(w.window));
            }
        }
        k += 1;
    }
    proof {
        assert(windows@.take(k as int) =~= windows@);
    }
    closing
}

/// The events that tell that the windows of `closing` were closed, one for
/// each window, in their order.
pub fn closed_events(closing: &Vec<Entity>) -> (closed: Vec<WindowClosed>)
    ensures
        closed@ == closing@.map_values(|window: Entity| (WindowClosed { window })),
{
    let ghost event = |window: Entity| (WindowClosed { window });
    let mut closed: Vec<WindowClosed> = Vec::new();
    let mut i: usize = 0;
    while i < closing.len()
        invariant
            i <= closing.len(),
            event == |window: Entity| (WindowClosed { window }),
            closed@ =~= closing@.take(i as int).map_values(event),
        decreases closing.len() - i,
    {
        closed.push(WindowClosed { window: closing[i] });
        proof {
            assert(closing@.take(i + 1) =~= closing@.take(i as int).push(closing@[i as int]));
        }
        i += 1;
    }
    proof {
        assert(closing@.take(i as int) =~= closing@);
    }
    closed
}

/// What the backend does with a window component before a frame.
#[derive(Clone, Copy, PartialEq, Eq, Structural, Debug)]
pub enum WindowAction {
    /// The component has no backend window yet: create one.
    Create,
    /// The component's attributes changed: bring the backend window up to date.
    Update,
    /// Nothing to do.
    Keep,
}

/// What the backend does with `window` before a frame.
pub fn window_action(window: &Window) -> (action: WindowAction)
    ensures
        action == if !window@.has_window {
            WindowAction::Create
        } else if window@.changed_attr {
            WindowAction::Update
        } else {
            WindowAction::Keep
        },
{
    if !window.is_created() {
        WindowAction::Create
    } else if window.is_changed() {
        WindowAction::Update
    } else {
        WindowAction::Keep
    }
}

/// What the backend does after it has looked at the window components.
pub enum FrameDecision {
    /// No window component is left: leave the event loop.
    Exit,
    /// Go on, after dropping the backend windows of these entities.
    Continue(Vec<Entity>),
}

/// Decides how the frame goes on. `live` are the entities that carry a
/// window component, `backend` the entities that have a backend window.
/// Without live windows the loop is left. Where fewer windows live than
/// the backend has, the backend windows whose entity is not live are dropped.
pub fn decide_frame(live: &Vec<Entity>, backend: &Vec<Entity>) -> (decision: FrameDecision)
    ensures
        match decision {
            FrameDecision::Exit => live@.len() == 0,
            FrameDecision::Continue(drop) => live@.len() > 0 && drop@ == if live@.len()
                < backend@.len() {
                backend@.filter(|e: Entity| !live@.contains(e))
            } else {
                Seq::<Entity>::empty()
            },
        },
{
    if live.len() == 0 {
        return FrameDecision::Exit;
    }
    let mut drop: Vec<Entity> = Vec::new();
    if live.len() < backend.len() {
        let ghost gone = |e: Entity| !live@.contains(e);
        let mut i: usize = 0;
        proof {
            assert(backend@.take(0) =~= Seq::<Entity>::empty());
        }
        while i < backend.len()
            invariant
                i <= backend.len(),
                gone == |e: Entity| !live@.contains(e),
                drop@ == backend@.take(i as int).filter(gone),
            decreases backend.len() - i,
        {
            proof {
                let next = backend@.take(i + 1);
                assert(next.drop_last() =~= backend@.take(i as int));
                assert(next.last() == backend@[i as int]);
                reveal(Seq::filter);
            }
            if !contains_entity(live, backend[i]) {
                drop.push(backend[i]);
            }
            i += 1;
        }
        proof {
            assert(backend@.take(i as int) =~= backend@);
        }
    }
    FrameDecision::Continue(drop)
}

/// A length in pixels as a signed number, as a conversion that keeps the
/// bits gives it.
pub open spec fn signed(length: u32) -> int {
    if length <= i32::MAX {
        length as int
    } else {
        length - 0x1_0000_0000
    }
}

/// A length in pixels as a signed number.
fn to_signed(length: u32) -> (n: i32)
    ensures
        n == signed(length),
{
    if length <= 0x7fff_ffff {
        length as i32
    } else {
        let wide: i64 = length as i64;
        (wide - 0x1_0000_0000) as i32
    }
}

/// Half of `n`, rounded towards zero.
pub open spec fn half(n: int) -> int {
    if n >= 0 {
        n / 2
    } else {
        -((-n) / 2)
    }
}

/// Half of `n`, rounded towards zero.
fn halved(n: i32) -> (h: i32)
    ensures
        h == half(n as int),
{
    let wide: i64 = n as i64;
    if wide >= 0 {
        (wide / 2) as i32
    } else {
        (-((-wide) / 2)) as i32
    }
}

/// The coordinate at which a window of extent `window` is centered on a
/// monitor of extent `monitor`.
pub open spec fn centered(monitor: u32, window: u32) -> int {
    half(signed(monitor)) - half(signed(window))
}

/// The position at which a window of `resolution` is centered on a monitor
/// of the given size.
pub fn center_position(
    monitor_width: u32,
    monitor_height: u32,
    resolution: WindowResolution,
) -> (position: WindowPosition)
    ensures
        position == WindowPosition::Pos(
            ivec2_of(
                centered(monitor_width, resolution.width) as i32,
                centered(monitor_height, resolution.height) as i32,
            ),
        ),
{
    let x = halved(to_signed(monitor_width)) - halved(to_signed(resolution.width()));
    let y = halved(to_signed(monitor_height)) - halved(to_signed(resolution.height()));
    WindowPosition::Pos(ivec2(x, y))
}

/// A video mode that a monitor offers.
#[derive(Clone, Copy, PartialEq, Eq, Structural, Debug)]
pub struct VideoModeInfo {
    pub width: u32,
    pub height: u32,
    pub bit_depth: u16,
    pub refresh_rate_millihertz: u32,
}

/// `mode` has the monitor's own size and refresh rate.
pub open spec fn fits_monitor(
    mode: VideoModeInfo,
    width: u32,
    height: u32,
    refresh: Option<u32>,
) -> bool {
    mode.width == width && mode.height == height && refresh == Some(mode.refresh_rate_millihertz)
}

/// The video mode for a window that takes the monitor's current mode: of
/// the modes with the monitor's size and refresh rate the one with the
/// greatest bit depth, and of several such the last. `None` where no mode fits.
pub fn current_video_mode(
    modes: &Vec<VideoModeInfo>,
    width: u32,
    height: u32,
    refresh: Option<u32>,
) -> (at: Option<usize>)
    ensures
        match at {
            Some(i) => i < modes@.len() && fits_monitor(modes@[i as int], width, height, refresh)
                && (forall|j: int|
                0 <= j < modes@.len() && fits_monitor(modes@[j], width, height, refresh)
                    ==> modes@[j].bit_depth <= modes@[i as int].bit_depth) && (forall|j: int|
                i < j < modes@.len() && fits_monitor(modes@[j], width, height, refresh)
                    ==> modes@[j].bit_depth < modes@[i as int].bit_depth),
            None => forall|j: int|
                0 <= j < modes@.len() ==> !fits_monitor(modes@[j], width, height, refresh),
        },
{
    let mut best: Option<usize> = None;
    let mut k: usize = 0;
    while k < modes.len()
        invariant
            k <= modes.len(),
            match best {
                Some(i) => i < k && fits_monitor(modes@[i as int], width, height, refresh)
                    && (forall|j: int|
                    0 <= j < k && fits_monitor(modes@[j], width, height, refresh)
                        ==> modes@[j].bit_depth <= modes@[i as int].bit_depth) && (forall|j: int|
                    i < j < k && fits_monitor(modes@[j], width, height, refresh)
                        ==> modes@[j].bit_depth < modes@[i as int].bit_depth),
                None => forall|j: int|
                    0 <= j < k ==> !fits_monitor(modes@[j], width, height, refresh),
            },
        decreases modes.len() - k,
    {
        let mode = modes[k];
        let fits = mode.width == width && mode.height == height && match refresh {
            Some(rate) => rate == mode.refresh_rate_millihertz,
            None => false,
        };
        if fits {
            match best {
                Some(i) => {
                    if modes[i].bit_depth <= mode.bit_depth {
                        best = Some(k);
                    }
                },
                None => {
                    best = Some(k);
                },
            }
        }
        k += 1;
    }
    best
}

/// The first video mode with exactly the given size, refresh rate and bit
/// depth. `None` where the monitor offers no such mode.
pub fn specific_video_mode(modes: &Vec<VideoModeInfo>, wanted: VideoModeInfo) -> (at: Option<usize>)
    ensures
        match at {
            Some(i) => i < modes@.len() && modes@[i as int] == wanted && forall|j: int|
                0 <= j < i ==> modes@[j] != wanted,
            None => !modes@.contains(wanted),
        },
{
    let mut k: usize = 0;
    while k < modes.len()
        invariant
            k <= modes.len(),
            forall|j: int| 0 <= j < k ==> modes@[j] != wanted,
        decreases modes.len() - k,
    {
        if modes[k] == wanted {
            return Some(k);
        }
        k += 1;
    }
    None
}

/// Lets the windows of `world` take the sizes of `events`, event by event,
/// as `resize_window` says. Stops at an event whose entity carries no
/// window; without events the store is not asked and nothing can fail.
pub fn resized(world: &Store, events: &Vec<WindowResized>) -> (r: Result<(), StoreError>)
    ensures
        events@.len() == 0 ==> r.is_ok(),
        events@.len() > 0 && !world.sealed() ==> r.is_err(),
{
    let mut i: usize = 0;
    while i < events.len()
        invariant
            i <= events.len(),
            !world.sealed() ==> i == 0,
        decreases events.len() - i,
    {
        if !world.is_sealed() {
            return Err(StoreError);
        }
        match load_component::<Window>(world, events[i].window) {
            None => {
                return Err(StoreError);
            },
            Some(held) => {
                let mut window = held;
                resize_window(&mut window, &events[i]);
                if !put_component(world, events[i].window, window) {
                    return Err(StoreError);
                }
            },
        }
        i += 1;
    }
    Ok(())
}

/// Lets the windows of `world` take the positions of `events`, event by
/// event, as `move_window` says. Stops at an event whose entity carries no
/// window; without events the store is not asked and nothing can fail.
pub fn moved(world: &Store, events: &Vec<WindowMoved>) -> (r: Result<(), StoreError>)
    ensures
        events@.len() == 0 ==> r.is_ok(),
        events@.len() > 0 && !world.sealed() ==> r.is_err(),
{
    let mut i: usize = 0;
    while i < events.len()
        invariant
            i <= events.len(),
            !world.sealed() ==> i == 0,
        decreases events.len() - i,
    {
        if !world.is_sealed() {
            return Err(StoreError);
        }
        match load_component::<Window>(world, events[i].window) {
            None => {
                return Err(StoreError);
            },
            Some(held) => {
                let mut window = held;
                move_window(&mut window, &events[i]);
                if !put_component(world, events[i].window, window) {
                    return Err(StoreError);
                }
            },
        }
        i += 1;
    }
    Ok(())
}

/// Lets the windows of `world` take the focus of `events`, event by event,
/// as `focus_window` says. Stops at an event whose entity carries no
/// window; without events the store is not asked and nothing can fail.
pub fn focused(world: &Store, events: &Vec<WindowFocused>) -> (r: Result<(), StoreError>)
    ensures
        events@.len() == 0 ==> r.is_ok(),
        events@.len() > 0 && !world.sealed() ==> r.is_err(),
{
    let mut i: usize = 0;
    while i < events.len()
        invariant
            i <= events.len(),
            !world.sealed() ==> i == 0,
        decreases events.len() - i,
    {
        if !world.is_sealed() {
            return Err(StoreError);
        }
        match load_component::<Window>(world, events[i].window) {
            None => {
                return Err(StoreError);
            },
            Some(held) => {
                let mut window = held;
                focus_window(&mut window, &events[i]);
                if !put_component(world, events[i].window, window) {
                    return Err(StoreError);
                }
            },
        }
        i += 1;
    }
    Ok(())
}

/// Marks as closing the windows of `world` that `requests` ask to close and
/// whose events the backend handles, as `windows_to_close` says. Returns
/// the marked windows: each of them is asked for by one of the requests.
/// Without requests the store is not asked, and nothing is marked.
pub fn mark_closed_windows(world: &Store, requests: &Vec<WindowCloseRequested>) -> (r: Result<
    Vec<Entity>,
    StoreError,
>)
    ensures
        match r {
            Ok(closing) => forall|k: int|
                0 <= k < closing@.len() ==> asked_to_close(requests@, #[trigger] closing@[k]),
            Err(_) => requests@.len() > 0,
        },
        requests@.len() > 0 && !world.sealed() ==> r.is_err(),
        requests@.len() == 0 ==> match r {
            Ok(closing) => closing@.len() == 0,
            Err(_) => false,
        },
{
    if requests.len() == 0 {
        return Ok(Vec::new());
    }
    if !world.is_sealed() {
        return Err(StoreError);
    }
    let entities = match entities_with::<Window>(world) {
        Some(found) => found,
        None => {
            return Err(StoreError);
        },
    };
    let mut windows: Vec<HandledWindow> = Vec::new();
    let mut i: usize = 0;
    while i < entities.len()
        invariant
            i <= entities.len(),
            requests@.len() > 0,
            world.sealed(),
        decreases entities.len() - i,
    {
        match load_component::<Window>(world, entities[i]) {
            None => {
                return Err(StoreError);
            },
            Some(window) => {
                windows.push(
                    HandledWindow {
                        window: entities[i],
                        default_event_handling: window.default_event_handling(),
                    },
                );
            },
        }
        i += 1;
    }
    let closing = windows_to_close(requests, &windows);
    let mut k: usize = 0;
    while k < closing.len()
        invariant
            k <= closing.len(),
            requests@.len() > 0,
            world.sealed(),
            forall|j: int|
                0 <= j < closing@.len() ==> asked_to_close(requests@, #[trigger] closing@[j]),
        decreases closing.len() - k,
    {
        if !put_component(world, closing[k], ClosingWindow) {
            return Err(StoreError);
        }
        k += 1;
    }
    Ok(closing)
}

/// Deletes from `world` the entities that carry a window marked as closing
/// and returns the events that tell so, as `closed_events` says. A store
/// that is not sealed holds no window and is not asked.
pub fn delete_pending_windows(world: &Store) -> (r: Result<Vec<WindowClosed>, StoreError>)
    ensures
        !world.sealed() ==> r.is_err(),
{
    if !world.is_sealed() {
        return Err(StoreError);
    }
    let closing = match entities_with::<ClosingWindow>(world) {
        Some(found) => found,
        None => {
            return Err(StoreError);
        },
    };
    let windows = match entities_with::<Window>(world) {
        Some(found) => found,
        None => {
            return Err(StoreError);
        },
    };
    let pending = common(&closing, &windows);
    let mut i: usize = 0;
    while i < pending.len()
        invariant
            i <= pending.len(),
        decreases pending.len() - i,
    {
        if !despawn(world, pending[i]) {
            return Err(StoreError);
        }
        i += 1;
    }
    Ok(closed_events(&pending))
}

} // verus!
