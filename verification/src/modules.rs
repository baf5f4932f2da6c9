//! The modules that the library brings.

use vstd::prelude::*;
use crate::app::{App, Module};
use crate::button_map::ButtonMap;
use crate::entity::Entity;
use crate::input::{
    MouseButton, KEYBOARD_INPUT, MOUSE_BUTTON_INPUT, MOUSE_MOTION_INPUT, MOUSE_SCROLL_INPUT,
};
use crate::keyboard::KeyCode;
use crate::schedule::AppSchedule;
use crate::sync::{EntityRenderEntityMap, SyncToRenderWorld};
use crate::window::{ClosingWindow, PrimaryMonitor, Window};
use crate::plan::{graph_of, names_model, SystemEntry};
use crate::window_event::{
    CURSOR_ENTERED, CURSOR_LEFT, CURSOR_MOVED, FILE_DRAG_DROP, REDRAW_REQUESTED,
    WINDOW_ATTRIBUTES_CHANGED, WINDOW_CLOSED, WINDOW_CLOSE_REQUESTED, WINDOW_CREATED,
    WINDOW_DESTROYED, WINDOW_FOCUSED, WINDOW_MOVED, WINDOW_OCCLUSION, WINDOW_RESIZED,
    WINDOW_THEME_CHANGED,
};

verus! {

/// The phase in which the render world is brought up to date.
pub struct SyncSchedule;

impl AppSchedule for SyncSchedule {
    open spec fn token() -> u64 {
        4
    }

    fn tag() -> (tag: u64) {
        4
    }
}

/// The token of `InputModule`.
pub const INPUT_MODULE: u64 = 1;

/// The token of `WindowingModule`.
pub const WINDOWING_MODULE: u64 = 2;

/// The token of `WinitModule`.
pub const WINIT_MODULE: u64 = 3;

/// The token of `SyncModule`.
pub const SYNC_MODULE: u64 = 4;

/// The token of `RenderModule`.
pub const RENDER_MODULE: u64 = 5;

/// The token of `DefaultModules`.
pub const DEFAULT_MODULES: u64 = 6;

/// The token of `WindowModule`.
pub const WINDOW_MODULE: u64 = 7;

/// The kinds of the events that input devices send.
pub open spec fn input_event_kinds_model() -> Seq<u64> {
    seq![KEYBOARD_INPUT, MOUSE_BUTTON_INPUT, MOUSE_SCROLL_INPUT, MOUSE_MOTION_INPUT]
}

/// The kinds of the events that input devices send.
pub fn input_event_kinds() -> (kinds: Vec<u64>)
    ensures
        kinds@ == input_event_kinds_model(),
{
    let mut kinds: Vec<u64> = Vec::new();
    kinds.push(KEYBOARD_INPUT);
    kinds.push(MOUSE_BUTTON_INPUT);
    kinds.push(MOUSE_SCROLL_INPUT);
    kinds.push(MOUSE_MOTION_INPUT);
    assert(kinds@ =~= input_event_kinds_model());
    kinds
}

/// The input module for the app: the event kinds of keyboard and mouse,
/// and the button maps of both as resources.
#[derive(Clone, Copy, PartialEq, Eq, PartialOrd, Ord, Hash, Debug, Default)]
pub struct InputModule;

impl<S, E> Module<S, E> for InputModule {
    open spec fn token(&self) -> u64 {
        INPUT_MODULE
    }

    fn id(&self) -> (id: u64) {
        INPUT_MODULE
    }

    open spec fn configured(&self, before: App<S, E>, after: App<S, E>) -> bool {
        &&& forall|i: int|
            0 <= i < input_event_kinds_model().len() ==> after.has_event(
                #[trigger] input_event_kinds_model()[i],
            )
        &&& after.events_from(before, input_event_kinds_model())
        &&& after.modules() == before.modules()
        &&& after.same_schedules(before)
        &&& after.store().sealed() == before.store().sealed()
    }

    fn setup(self, app: &mut App<S, E>) {
        let ghost a0 = *app;
        let kinds = input_event_kinds();
        app.register_events(&kinds);
        let ghost a1 = *app;
        app.add_resource(ButtonMap::<KeyCode>::new());
        let ghost a2 = *app;
        app.add_resource(ButtonMap::<MouseButton>::new());
        proof {
            a2.lemma_keeps(a1, a0);
            app.lemma_keeps(a2, a0);
            a2.lemma_keeps(a1, a1);
            app.lemma_keeps(a2, a1);
            assert forall|i: int| 0 <= i < input_event_kinds_model().len() implies app.has_event(
                #[trigger] input_event_kinds_model()[i],
            ) by {
                assert(a1.has_event(kinds@[i]));
            }
            assert forall|tag: u64| app.schedule(tag) == a0.schedule(tag) by {
                assert(a2.schedule(tag) == a1.schedule(tag));
            }
            assert forall|kind: u64| #[trigger] app.has_event(kind) implies a0.has_event(kind)
                || input_event_kinds_model().contains(kind) by {
                assert(a2.has_event(kind));
                assert(a1.has_event(kind));
            }
        }
    }
}

/// The kinds of the events that windows send.
pub open spec fn window_event_kinds_model() -> Seq<u64> {
    seq![
        WINDOW_RESIZED,
        REDRAW_REQUESTED,
        WINDOW_CREATED,
        WINDOW_CLOSE_REQUESTED,
        WINDOW_CLOSED,
        WINDOW_DESTROYED,
        CURSOR_MOVED,
        CURSOR_ENTERED,
        CURSOR_LEFT,
        WINDOW_FOCUSED,
        WINDOW_OCCLUSION,
        FILE_DRAG_DROP,
        WINDOW_MOVED,
        WINDOW_THEME_CHANGED,
    ]
}

/// The kinds of the events that windows send.
pub fn window_event_kinds() -> (kinds: Vec<u64>)
    ensures
        kinds@ == window_event_kinds_model(),
{
    let mut kinds: Vec<u64> = Vec::new();
    kinds.push(WINDOW_RESIZED);
    kinds.push(REDRAW_REQUESTED);
    kinds.push(WINDOW_CREATED);
    kinds.push(WINDOW_CLOSE_REQUESTED);
    kinds.push(WINDOW_CLOSED);
    kinds.push(WINDOW_DESTROYED);
    kinds.push(CURSOR_MOVED);
    kinds.push(CURSOR_ENTERED);
    kinds.push(CURSOR_LEFT);
    kinds.push(WINDOW_FOCUSED);
    kinds.push(WINDOW_OCCLUSION);
    kinds.push(FILE_DRAG_DROP);
    kinds.push(WINDOW_MOVED);
    kinds.push(WINDOW_THEME_CHANGED);
    assert(kinds@ =~= window_event_kinds_model());
    kinds
}

/// The windowing module for the app: the window components and the event
/// kinds of windows.
pub struct WindowingModule;

impl<S, E> Module<S, E> for WindowingModule {
    open spec fn token(&self) -> u64 {
        WINDOWING_MODULE
    }

    fn id(&self) -> (id: u64) {
        WINDOWING_MODULE
    }

    open spec fn configured(&self, before: App<S, E>, after: App<S, E>) -> bool {
        &&& forall|i: int|
            0 <= i < window_event_kinds_model().len() ==> after.has_event(
                #[trigger] window_event_kinds_model()[i],
            )
        &&& after.events_from(before, window_event_kinds_model())
        &&& after.modules() == before.modules()
        &&& after.same_schedules(before)
        &&& after.store().sealed() == before.store().sealed()
    }

    fn setup(self, app: &mut App<S, E>) {
        let ghost a0 = *app;
        let _ = app.register_component::<PrimaryMonitor>();
        let ghost a1 = *app;
        let _ = app.register_component::<Window>();
        let ghost a2 = *app;
        let _ = app.register_component::<ClosingWindow>();
        let ghost a3 = *app;
        let kinds = window_event_kinds();
        app.register_events(&kinds);
        proof {
            a2.lemma_keeps(a1, a0);
            a3.lemma_keeps(a2, a0);
            app.lemma_keeps(a3, a0);
            assert forall|tag: u64| app.schedule(tag) == a0.schedule(tag) by {
                assert(a1.schedule(tag) == a0.schedule(tag));
                assert(a2.schedule(tag) == a1.schedule(tag));
                assert(a3.schedule(tag) == a2.schedule(tag));
            }
        }
    }
}

/// The kinds of the events of `WindowModule`: those that windows send, but
/// for the one that tells that a window was closed, and the one by which a
/// window tells that its component was changed.
pub open spec fn window_module_event_kinds_model() -> Seq<u64> {
    seq![
        WINDOW_RESIZED,
        REDRAW_REQUESTED,
        WINDOW_CREATED,
        WINDOW_CLOSE_REQUESTED,
        WINDOW_DESTROYED,
        CURSOR_MOVED,
        CURSOR_ENTERED,
        CURSOR_LEFT,
        WINDOW_FOCUSED,
        WINDOW_OCCLUSION,
        FILE_DRAG_DROP,
        WINDOW_MOVED,
        WINDOW_THEME_CHANGED,
        WINDOW_ATTRIBUTES_CHANGED,
    ]
}

/// The kinds of the events of `WindowModule`.
pub fn window_module_event_kinds() -> (kinds: Vec<u64>)
    ensures
        kinds@ == window_module_event_kinds_model(),
{
    let mut kinds: Vec<u64> = Vec::new();
    kinds.push(WINDOW_RESIZED);
    kinds.push(REDRAW_REQUESTED);
    kinds.push(WINDOW_CREATED);
    kinds.push(WINDOW_CLOSE_REQUESTED);
    kinds.push(WINDOW_DESTROYED);
    kinds.push(CURSOR_MOVED);
    kinds.push(CURSOR_ENTERED);
    kinds.push(CURSOR_LEFT);
    kinds.push(WINDOW_FOCUSED);
    kinds.push(WINDOW_OCCLUSION);
    kinds.push(FILE_DRAG_DROP);
    kinds.push(WINDOW_MOVED);
    kinds.push(WINDOW_THEME_CHANGED);
    kinds.push(WINDOW_ATTRIBUTES_CHANGED);
    assert(kinds@ =~= window_module_event_kinds_model());
    kinds
}

/// The window module for the app: the components of a window and of a
/// window that is closing, and the event kinds of `WindowModule`. It knows
/// no monitors and does not register the closing of a window as an event.
pub struct WindowModule;

impl<S, E> Module<S, E> for WindowModule {
    open spec fn token(&self) -> u64 {
        WINDOW_MODULE
    }

    fn id(&self) -> (id: u64) {
        WINDOW_MODULE
    }

    open spec fn configured(&self, before: App<S, E>, after: App<S, E>) -> bool {
        &&& forall|i: int|
            0 <= i < window_module_event_kinds_model().len() ==> after.has_event(
                #[trigger] window_module_event_kinds_model()[i],
            )
        &&& after.events_from(before, window_module_event_kinds_model())
        &&& after.modules() == before.modules()
        &&& after.same_schedules(before)
        &&& after.store().sealed() == before.store().sealed()
    }

    fn setup(self, app: &mut App<S, E>) {
        let ghost a0 = *app;
        let _ = app.register_component::<Window>();
        let ghost a1 = *app;
        let _ = app.register_component::<ClosingWindow>();
        let ghost a2 = *app;
        let kinds = window_module_event_kinds();
        app.register_events(&kinds);
        proof {
            a2.lemma_keeps(a1, a0);
            app.lemma_keeps(a2, a0);
            assert forall|tag: u64| app.schedule(tag) == a0.schedule(tag) by {
                assert(a1.schedule(tag) == a0.schedule(tag));
                assert(a2.schedule(tag) == a1.schedule(tag));
            }
        }
    }
}

/// `after` is what adding a module with the token `token` made of `before`,
/// where the module is set up as `configured` says.
pub open spec fn added<S, E, M: Module<S, E>>(
    module: M,
    before: App<S, E>,
    after: App<S, E>,
) -> bool {
    &&& before.has_module(module.token()) ==> after.same_state(before) && after.store()
        == before.store()
    &&& !before.has_module(module.token()) ==> exists|mid: App<S, E>|
        mid.wf() && #[trigger] mid.recorded(before, module.token()) && module.configured(
            mid,
            after,
        )
}

/// What adding the windowing module leaves as it was.
proof fn lemma_windowing_added<S, E>(before: App<S, E>, after: App<S, E>)
    requires
        added(WindowingModule, before, after),
        after.has_module(WINDOWING_MODULE),
    ensures
        forall|id: u64| #[trigger]
            after.has_module(id) ==> before.has_module(id) || id == WINDOWING_MODULE,
        after.events_from(before, window_event_kinds_model()),
        after.same_schedules(before),
        after.store().sealed() == before.store().sealed(),
{
    if !before.has_module(WINDOWING_MODULE) {
        let mid = choose|mid: App<S, E>|
            mid.wf() && #[trigger] mid.recorded(before, WINDOWING_MODULE)
                && WindowingModule.configured(mid, after);
        assert forall|tag: u64| after.schedule(tag) == before.schedule(tag) by {
            assert(after.schedule(tag) == mid.schedule(tag));
        }
        assert forall|id: u64| #[trigger] after.has_module(id) implies before.has_module(id)
            || id == WINDOWING_MODULE by {
            let at = after.modules().index_of(id);
            if at < before.modules().len() {
                assert(before.modules()[at] == id);
            }
        }
    }
}

/// What adding the input module leaves as it was.
proof fn lemma_input_added<S, E>(before: App<S, E>, after: App<S, E>)
    requires
        added(InputModule, before, after),
        after.has_module(INPUT_MODULE),
    ensures
        forall|id: u64| #[trigger]
            after.has_module(id) ==> before.has_module(id) || id == INPUT_MODULE,
        after.events_from(before, input_event_kinds_model()),
        after.same_schedules(before),
        after.store().sealed() == before.store().sealed(),
{
    if !before.has_module(INPUT_MODULE) {
        let mid = choose|mid: App<S, E>|
            mid.wf() && #[trigger] mid.recorded(before, INPUT_MODULE) && InputModule.configured(
                mid,
                after,
            );
        assert forall|tag: u64| after.schedule(tag) == before.schedule(tag) by {
            assert(after.schedule(tag) == mid.schedule(tag));
        }
        assert forall|id: u64| #[trigger] after.has_module(id) implies before.has_module(id)
            || id == INPUT_MODULE by {
            let at = after.modules().index_of(id);
            if at < before.modules().len() {
                assert(before.modules()[at] == id);
            }
        }
    }
}

/// What adding the module of the winit backend leaves as it was.
proof fn lemma_winit_added<S, E>(before: App<S, E>, after: App<S, E>)
    requires
        added(WinitModule, before, after),
        after.has_module(WINIT_MODULE),
    ensures
        forall|id: u64| #[trigger]
            after.has_module(id) ==> before.has_module(id) || id == WINIT_MODULE || id
                == WINDOWING_MODULE,
        after.events_from(before, window_event_kinds_model()),
        after.same_schedules(before),
        after.store().sealed() == before.store().sealed(),
{
    if !before.has_module(WINIT_MODULE) {
        let mid = choose|mid: App<S, E>|
            mid.wf() && #[trigger] mid.recorded(before, WINIT_MODULE) && WinitModule.configured(
                mid,
                after,
            );
        assert forall|tag: u64| after.schedule(tag) == before.schedule(tag) by {
            assert(after.schedule(tag) == mid.schedule(tag));
        }
        assert forall|id: u64| #[trigger] after.has_module(id) implies before.has_module(id)
            || id == WINIT_MODULE || id == WINDOWING_MODULE by {
            if id != WINDOWING_MODULE {
                assert(mid.has_module(id));
                let at = mid.modules().index_of(id);
                if at < before.modules().len() {
                    assert(before.modules()[at] == id);
                }
            }
        }
    }
}

/// What adding the module of the Sync phase leaves as it was.
proof fn lemma_sync_added<S, E>(before: App<S, E>, after: App<S, E>)
    requires
        added(SyncModule, before, after),
        after.has_module(SYNC_MODULE),
    ensures
        forall|id: u64| #[trigger]
            after.has_module(id) ==> before.has_module(id) || id == SYNC_MODULE,
        after.schedules_with(before, SyncSchedule::token()),
        forall|kind: u64| after.has_event(kind) <==> before.has_event(kind),
        after.store().sealed() == before.store().sealed(),
{
    if !before.has_module(SYNC_MODULE) {
        let mid = choose|mid: App<S, E>|
            mid.wf() && #[trigger] mid.recorded(before, SYNC_MODULE) && SyncModule.configured(
                mid,
                after,
            );
        assert forall|t: u64| #[trigger] before.has_schedule(t) implies after.has_schedule(t)
            && after.schedule(t) == before.schedule(t) by {
            assert(mid.has_schedule(t));
            assert(after.schedule(t) == mid.schedule(t));
        }
        assert forall|t: u64| #[trigger] after.has_schedule(t) implies t == SyncSchedule::token()
            || before.has_schedule(t) by {
            assert(t == SyncSchedule::token() || mid.has_schedule(t));
        }
        assert forall|id: u64| #[trigger] after.has_module(id) implies before.has_module(id)
            || id == SYNC_MODULE by {
            let at = after.modules().index_of(id);
            if at < before.modules().len() {
                assert(before.modules()[at] == id);
            }
        }
    }
}

/// The module of the winit backend: windowing, to which the backend adds
/// its own systems and its event loop.
pub struct WinitModule;

impl<S, E> Module<S, E> for WinitModule {
    open spec fn token(&self) -> u64 {
        WINIT_MODULE
    }

    fn id(&self) -> (id: u64) {
        WINIT_MODULE
    }

    open spec fn configured(&self, before: App<S, E>, after: App<S, E>) -> bool {
        &&& after.has_module(WINDOWING_MODULE)
        &&& forall|id: u64| #[trigger]
            after.has_module(id) ==> before.has_module(id) || id == WINDOWING_MODULE
        &&& after.events_from(before, window_event_kinds_model())
        &&& after.same_schedules(before)
        &&& after.store().sealed() == before.store().sealed()
    }

    fn setup(self, app: &mut App<S, E>) {
        let ghost a0 = *app;
        app.add_module(WindowingModule);
        proof {
            lemma_windowing_added(a0, *app);
        }
    }
}

/// Module for syncing entities to the render world: the Sync schedule, the
/// mirror marker and the map of mirrors as a resource.
pub struct SyncModule;

impl<S, E> Module<S, E> for SyncModule {
    open spec fn token(&self) -> u64 {
        SYNC_MODULE
    }

    fn id(&self) -> (id: u64) {
        SYNC_MODULE
    }

    open spec fn configured(&self, before: App<S, E>, after: App<S, E>) -> bool {
        &&& after.has_schedule(SyncSchedule::token())
        &&& after.schedules_with(before, SyncSchedule::token())
        &&& after.modules() == before.modules()
        &&& after.event_kinds() == before.event_kinds()
        &&& after.queues() == before.queues()
        &&& forall|kind: u64| after.event_schedule(kind) == before.event_schedule(kind)
        &&& after.store().sealed() == before.store().sealed()
    }

    fn setup(self, app: &mut App<S, E>) {
        let ghost a0 = *app;
        app.register_schedule::<SyncSchedule>();
        let ghost a1 = *app;
        let _ = app.register_component::<SyncToRenderWorld>();
        let ghost a2 = *app;
        app.add_resource(EntityRenderEntityMap::new());
        proof {
            a2.lemma_keeps(a1, a0);
            app.lemma_keeps(a2, a0);
            a2.lemma_keeps(a1, a1);
            app.lemma_keeps(a2, a1);
            assert(a1.has_schedule(SyncSchedule::token()));
            assert forall|t: u64| #[trigger] a0.has_schedule(t) implies app.has_schedule(t)
                && app.schedule(t) == a0.schedule(t) by {
                assert(a1.has_schedule(t));
                assert(a2.schedule(t) == a1.schedule(t));
                assert(app.schedule(t) == a2.schedule(t));
            }
            assert forall|t: u64| #[trigger] app.has_schedule(t) implies t == SyncSchedule::token()
                || a0.has_schedule(t) by {
                assert(a2.has_schedule(t));
                assert(a1.has_schedule(t));
            }
            assert forall|kind: u64| app.event_schedule(kind) == a0.event_schedule(kind) by {
                assert(a2.event_schedule(kind) == a1.event_schedule(kind));
                assert(app.event_schedule(kind) == a2.event_schedule(kind));
            }
        }
    }
}

/// The module of the renderer: the winit backend and the syncing of
/// entities, to which the renderer adds its state and its event loop.
pub struct RenderModule;

impl<S, E> Module<S, E> for RenderModule {
    open spec fn token(&self) -> u64 {
        RENDER_MODULE
    }

    fn id(&self) -> (id: u64) {
        RENDER_MODULE
    }

    open spec fn configured(&self, before: App<S, E>, after: App<S, E>) -> bool {
        &&& after.has_module(WINIT_MODULE)
        &&& after.has_module(SYNC_MODULE)
        &&& forall|id: u64| #[trigger]
            after.has_module(id) ==> before.has_module(id) || id == WINIT_MODULE || id
                == WINDOWING_MODULE || id == SYNC_MODULE
        &&& after.events_from(before, window_event_kinds_model())
        &&& after.schedules_with(before, SyncSchedule::token())
        &&& after.store().sealed() == before.store().sealed()
    }

    fn setup(self, app: &mut App<S, E>) {
        let ghost a0 = *app;
        app.add_module(WinitModule);
        let ghost a1 = *app;
        app.add_module(SyncModule);
        proof {
            app.lemma_keeps(a1, a0);
            assert(a1.has_module(WINIT_MODULE));
            lemma_winit_added(a0, a1);
            lemma_sync_added(a1, *app);
            assert forall|t: u64| #[trigger] a0.has_schedule(t) implies app.has_schedule(t)
                && app.schedule(t) == a0.schedule(t) by {
                assert(a1.schedule(t) == a0.schedule(t));
                assert(a1.has_schedule(t));
            }
            assert forall|t: u64| #[trigger] app.has_schedule(t) implies t == SyncSchedule::token()
                || a0.has_schedule(t) by {
                assert(t == SyncSchedule::token() || a1.has_schedule(t));
            }
            assert forall|kind: u64| #[trigger] app.has_event(kind) implies a0.has_event(kind)
                || window_event_kinds_model().contains(kind) by {
                assert(a1.has_event(kind));
            }
            assert forall|id: u64| #[trigger] app.has_module(id) implies a0.has_module(id) || id
                == WINIT_MODULE || id == WINDOWING_MODULE || id == SYNC_MODULE by {
                if a1.has_module(id) {
                    assert(a0.has_module(id) || id == WINIT_MODULE || id == WINDOWING_MODULE);
                }
            }
        }
    }
}

/// The modules that most applications want: input and windowing.
pub struct DefaultModules;

impl<S, E> Module<S, E> for DefaultModules {
    open spec fn token(&self) -> u64 {
        DEFAULT_MODULES
    }

    fn id(&self) -> (id: u64) {
        DEFAULT_MODULES
    }

    open spec fn configured(&self, before: App<S, E>, after: App<S, E>) -> bool {
        &&& after.has_module(INPUT_MODULE)
        &&& after.has_module(WINDOWING_MODULE)
        &&& forall|id: u64| #[trigger]
            after.has_module(id) ==> before.has_module(id) || id == INPUT_MODULE || id
                == WINDOWING_MODULE
        &&& after.events_from(before, input_event_kinds_model() + window_event_kinds_model())
        &&& after.same_schedules(before)
        &&& after.store().sealed() == before.store().sealed()
    }

    fn setup(self, app: &mut App<S, E>) {
        let ghost a0 = *app;
        app.add_module(InputModule);
        let ghost a1 = *app;
        app.add_module(WindowingModule);
        proof {
            app.lemma_keeps(a1, a0);
            assert(a1.has_module(INPUT_MODULE));
            lemma_input_added(a0, a1);
            lemma_windowing_added(a1, *app);
            assert forall|tag: u64| app.schedule(tag) == a0.schedule(tag) by {
                assert(a1.schedule(tag) == a0.schedule(tag));
            }
            let kinds = input_event_kinds_model() + window_event_kinds_model();
            assert forall|kind: u64| #[trigger] app.has_event(kind) implies a0.has_event(kind)
                || kinds.contains(kind) by {
                if !a1.has_event(kind) {
                    let i = window_event_kinds_model().index_of(kind);
                    assert(kinds[input_event_kinds_model().len() + i] == kind);
                } else if !a0.has_event(kind) {
                    let i = input_event_kinds_model().index_of(kind);
                    assert(kinds[i] == kind);
                }
            }
            assert forall|id: u64| #[trigger] app.has_module(id) implies a0.has_module(id) || id
                == INPUT_MODULE || id == WINDOWING_MODULE by {
                if a1.has_module(id) {
                    assert(a0.has_module(id) || id == INPUT_MODULE);
                }
            }
        }
    }
}

/// `list` registers the one system `run` under `name`, without
/// dependencies.
pub open spec fn is_lone<S>(list: Seq<SystemEntry<S>>, run: S, name: Seq<char>) -> bool {
    &&& list.len() == 1
    &&& list[0].run == run
    &&& list[0].name@ == name
    &&& list[0].deps@.len() == 0
}

/// The list that registers the one system `run` under `name`, without
/// dependencies. Such a list names no unknown system and has no cycle.
pub fn lone_system<S>(run: S, name: &str) -> (list: Vec<SystemEntry<S>>)
    ensures
        is_lone(list@, run, name@),
        graph_of(list@).all_known(),
        !graph_of(list@).has_cycle(),
{
    let mut list: Vec<SystemEntry<S>> = Vec::new();
    list.push(SystemEntry { run, name: name.to_owned(), deps: Vec::new() });
    proof {
        let g = graph_of(list@);
        assert(names_model(list@[0].deps@).len() == 0);
        assert forall|chain: Seq<int>| !g.closed_chain(chain) by {
            if g.closed_chain(chain) {
                assert(g.depends_on(chain[0], chain[if 1 < chain.len() { 1int } else { 0int }]));
            }
        }
    }
    list
}

/// The systems that react to the events of one kind.
pub struct Reaction<S> {
    pub kind: u64,
    pub systems: Vec<SystemEntry<S>>,
}

/// The systems by which the input module keeps its button maps:
/// `keyboard` reacts to keyboard input under the name `keyboard_resource`,
/// `mouse` to mouse button input under the name `mouse_resource`.
pub fn input_reactions<S>(keyboard: S, mouse: S) -> (reactions: Vec<Reaction<S>>)
    ensures
        reactions@.len() == 2,
        reactions@[0].kind == KEYBOARD_INPUT,
        is_lone(reactions@[0].systems@, keyboard, "keyboard_resource"@),
        reactions@[1].kind == MOUSE_BUTTON_INPUT,
        is_lone(reactions@[1].systems@, mouse, "mouse_resource"@),
{
    let mut reactions: Vec<Reaction<S>> = Vec::new();
    reactions.push(
        Reaction { kind: KEYBOARD_INPUT, systems: lone_system(keyboard, "keyboard_resource") },
    );
    reactions.push(
        Reaction { kind: MOUSE_BUTTON_INPUT, systems: lone_system(mouse, "mouse_resource") },
    );
    reactions
}

/// The systems by which the winit backend handles the events of windows:
/// `mark_closed` reacts to the request to close a window, `resized`,
/// `moved` and `focused` to what their names say, each under its name with
/// `winit_` before it.
pub fn window_reactions<S>(mark_closed: S, resized: S, moved: S, focused: S) -> (reactions: Vec<
    Reaction<S>,
>)
    ensures
        reactions@.len() == 4,
        reactions@[0].kind == WINDOW_CLOSE_REQUESTED,
        is_lone(reactions@[0].systems@, mark_closed, "winit_mark_closed"@),
        reactions@[1].kind == WINDOW_RESIZED,
        is_lone(reactions@[1].systems@, resized, "winit_resized"@),
        reactions@[2].kind == WINDOW_MOVED,
        is_lone(reactions@[2].systems@, moved, "winit_moved"@),
        reactions@[3].kind == WINDOW_FOCUSED,
        is_lone(reactions@[3].systems@, focused, "winit_focused"@),
{
    let mut reactions: Vec<Reaction<S>> = Vec::new();
    reactions.push(
        Reaction {
            kind: WINDOW_CLOSE_REQUESTED,
            systems: lone_system(mark_closed, "winit_mark_closed"),
        },
    );
    reactions.push(Reaction { kind: WINDOW_RESIZED, systems: lone_system(resized, "winit_resized") });
    reactions.push(Reaction { kind: WINDOW_MOVED, systems: lone_system(moved, "winit_moved") });
    reactions.push(Reaction { kind: WINDOW_FOCUSED, systems: lone_system(focused, "winit_focused") });
    reactions
}

/// The two systems of the Sync phase as they are registered: `entities`,
/// which pairs the marked entities with mirrors, under the name
/// `render_sync_entities`; and `systems`, which runs the systems that copy
/// components, under the name `render_sync_systems` and after the first.
/// The list names no unknown system and has no cycle.
pub fn sync_stage<S>(entities: S, systems: S) -> (stage: Vec<SystemEntry<S>>)
    ensures
        stage@.len() == 2,
        stage@[0].run == entities,
        stage@[0].name@ == "render_sync_entities"@,
        stage@[0].deps@.len() == 0,
        stage@[1].run == systems,
        stage@[1].name@ == "render_sync_systems"@,
        names_model(stage@[1].deps@) == seq!["render_sync_entities"@],
        graph_of(stage@).all_known(),
        !graph_of(stage@).has_cycle(),
{
    let mut after: Vec<String> = Vec::new();
    after.push("render_sync_entities".to_owned());
    let mut stage: Vec<SystemEntry<S>> = Vec::new();
    stage.push(
        SystemEntry { run: entities, name: "render_sync_entities".to_owned(), deps: Vec::new() },
    );
    stage.push(SystemEntry { run: systems, name: "render_sync_systems".to_owned(), deps: after });
    proof {
        reveal_strlit("render_sync_entities");
        reveal_strlit("render_sync_systems");
        let g = graph_of(stage@);
        assert(names_model(stage@[0].deps@).len() == 0);
        assert(names_model(stage@[1].deps@) =~= seq!["render_sync_entities"@]);
        assert(g.names[0] == "render_sync_entities"@);
        assert(g.names[1] == "render_sync_systems"@);
        assert(g.names[1].len() != g.names[0].len());
        assert forall|i: int, k: int|
            0 <= i < g.deps.len() && 0 <= k < g.deps[i].len() implies g.names.contains(
            #[trigger] g.deps[i][k],
        ) by {
            assert(i == 1 && k == 0);
            assert(g.deps[1][0] == g.names[0]);
        }
        assert forall|chain: Seq<int>| !g.closed_chain(chain) by {
            if g.closed_chain(chain) {
                let next = if 1 < chain.len() { 1int } else { 0int };
                assert(g.depends_on(chain[0], chain[next]));
                assert(chain[0] == 1);
                assert(g.deps[1].contains(g.names[chain[next]]));
                assert(chain[next] == 0);
                let last = if next + 1 < chain.len() { next + 1 } else { 0int };
                assert(g.depends_on(chain[next], chain[last]));
            }
        }
    }
    stage
}

/// The primary entities that carried the marker and the component `C` at
/// the last Sync phase.
pub struct SyncedEntities<C> {
    pub entities: Vec<Entity>,
    pub marker: core::marker::PhantomData<C>,
}

/// The module of one mirrored component type: the list of the entities
/// that carry it, as a resource. Every component type has a module of its
/// own, under a token of its own.
pub struct SyncComponentModule<C> {
    token: u64,
    marker: core::marker::PhantomData<C>,
}

impl<C> SyncComponentModule<C> {
    /// The module for `C` under `token`.
    pub fn new(token: u64) -> (module: SyncComponentModule<C>)
        ensures
            module.module_token() == token,
    {
        SyncComponentModule { token, marker: core::marker::PhantomData }
    }

    /// The token of the module.
    pub closed spec fn module_token(&self) -> u64 {
        self.token
    }
}

impl<S, E, C: Send + Sync + 'static> Module<S, E> for SyncComponentModule<C> {
    open spec fn token(&self) -> u64 {
        self.module_token()
    }

    fn id(&self) -> (id: u64) {
        self.token
    }

    open spec fn configured(&self, before: App<S, E>, after: App<S, E>) -> bool {
        &&& after.same_state(before)
        &&& after.store().sealed() == before.store().sealed()
    }

    fn setup(self, app: &mut App<S, E>) {
        app.add_resource(SyncedEntities::<C> { entities: Vec::new(), marker: core::marker::PhantomData });
    }
}

} // verus!
