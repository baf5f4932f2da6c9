use magma_api::app::App;
use magma_api::entity::Entity;
use magma_api::events::{Events, Raised};
use magma_api::modules::{WindowingModule, WinitModule};
use magma_api::window::{
    AlphaMode, CursorMode, MonitorSelection, PresentMode, TitlebarButtons, VideoModeSelection, Window,
    WindowMode, WindowPosition, WindowResizeLimit, WindowResolution, WindowTheme,
};
use magma_api::window_event::{
    CursorEntered, CursorLeft, CursorMoved, FileDragDrop, RedrawRequested, WindowCloseRequested,
    WindowClosed, WindowCreated, WindowDestroyed, WindowFocused, WindowMoved, WindowOcclusion,
    WindowResized, WindowThemeChanged, CURSOR_ENTERED, CURSOR_LEFT, CURSOR_MOVED, FILE_DRAG_DROP,
    REDRAW_REQUESTED, WINDOW_CLOSED, WINDOW_CLOSE_REQUESTED, WINDOW_CREATED, WINDOW_DESTROYED,
    WINDOW_FOCUSED, WINDOW_MOVED, WINDOW_OCCLUSION, WINDOW_RESIZED, WINDOW_THEME_CHANGED,
};
use magma_api::error::StoreError;
use magma_api::window::ClosingWindow;
use magma_api::windowing::{
    center_position, close_requested, closed_events, current_video_mode, decide_frame,
    delete_pending_windows, focus_window, focused, mark_closed_windows, move_window, moved,
    resize_window, resized, specific_video_mode, window_action, windows_to_close, FrameDecision,
    HandledWindow, VideoModeInfo, WindowAction,
};
use magma_api::world::{Store, System};
use magma_ecs::World;
use magma_math::{IVec2, UVec2};
use std::path::PathBuf;

#[allow(dead_code)]
#[derive(Clone, Debug)]
enum Ev {
    Resized(WindowResized),
    Redraw(RedrawRequested),
    Created(WindowCreated),
    CloseRequested(WindowCloseRequested),
    Closed(WindowClosed),
    Destroyed(WindowDestroyed),
    CursorMoved(CursorMoved),
    CursorEntered(CursorEntered),
    CursorLeft(CursorLeft),
    Focused(WindowFocused),
    Occlusion(WindowOcclusion),
    FileDragDrop(FileDragDrop),
    Moved(WindowMoved),
    ThemeChanged(WindowThemeChanged),
}

struct Sys;

impl System<Ev> for Sys {
    fn run(&self, _: &Store, _: &Events<Ev>) -> Vec<Raised<Ev>> {
        vec![]
    }
}

/// Ends the setup, if it is not over yet, and hands out the world.
fn world(app: &mut App<Sys, Ev>) -> &World {
    app.seal();
    app.world().unwrap()
}

fn inner(store: &Store) -> &World {
    store.world().unwrap()
}

fn app_with_window() -> (App<Sys, Ev>, Entity) {
    let mut app: App<Sys, Ev> = App::new();
    app.add_module(WindowingModule);
    let window = world(&mut app).create_entity((Window::new(),)).unwrap();
    (app, Entity::with_id(window.id()))
}

#[test]
fn create_window() {
    let mut app: App<Sys, Ev> = App::new();
    app.add_module(WindowingModule);

    let window = world(&mut app).create_entity((Window::new(),)).unwrap();
    world(&mut app).get_component_mut::<Window>(window).unwrap().set_title("Hello World!");

    assert_eq!(world(&mut app).get_component::<Window>(window).unwrap().changed_attr, true);
    assert_eq!(world(&mut app).get_component::<Window>(window).unwrap().title(), "Hello World!");
}

#[test]
fn resize_event() {
    let (mut app, window) = app_with_window();
    app.push_event(WINDOW_RESIZED, Ev::Resized(WindowResized { window, width: 1280, height: 720 })).unwrap();
}

#[test]
fn redraw_event() {
    let (mut app, _) = app_with_window();
    app.push_event(REDRAW_REQUESTED, Ev::Redraw(RedrawRequested)).unwrap();
}

#[test]
fn window_created_event() {
    let (mut app, window) = app_with_window();
    app.push_event(WINDOW_CREATED, Ev::Created(WindowCreated { window })).unwrap();
}

#[test]
fn close_requested_event() {
    let (mut app, window) = app_with_window();
    app.push_event(WINDOW_CLOSE_REQUESTED, Ev::CloseRequested(WindowCloseRequested { window })).unwrap();
}

#[test]
fn closed_event() {
    let (mut app, window) = app_with_window();
    app.push_event(WINDOW_CLOSED, Ev::Closed(WindowClosed { window })).unwrap();
}

#[test]
fn destroyed_event() {
    let (mut app, _) = app_with_window();
    app.push_event(WINDOW_DESTROYED, Ev::Destroyed(WindowDestroyed)).unwrap();
}

#[test]
fn cursor_moved_event() {
    let (mut app, window) = app_with_window();
    app.push_event(CURSOR_MOVED, Ev::CursorMoved(CursorMoved { window, position: IVec2::new(16, 16) })).unwrap();
}

#[test]
fn cursor_entered_event() {
    let (mut app, window) = app_with_window();
    app.push_event(CURSOR_ENTERED, Ev::CursorEntered(CursorEntered { window })).unwrap();
}

#[test]
fn cursor_left_event() {
    let (mut app, window) = app_with_window();
    app.push_event(CURSOR_LEFT, Ev::CursorLeft(CursorLeft { window })).unwrap();
}

#[test]
fn focused_event() {
    let (mut app, window) = app_with_window();
    app.push_event(WINDOW_FOCUSED, Ev::Focused(WindowFocused { window, focus: true })).unwrap();
}

#[test]
fn occluded_event() {
    let (mut app, window) = app_with_window();
    app.push_event(WINDOW_OCCLUSION, Ev::Occlusion(WindowOcclusion::Occluded { window })).unwrap();
}

#[test]
fn filednd_event() {
    let (mut app, window) = app_with_window();
    app.push_event(FILE_DRAG_DROP, Ev::FileDragDrop(FileDragDrop::HoverCanceled { window })).unwrap();
}

#[test]
fn moved_event() {
    let (mut app, window) = app_with_window();
    app.push_event(WINDOW_MOVED, Ev::Moved(WindowMoved { window, position: IVec2::new(100, 200) })).unwrap();
}

#[test]
fn theme_changed_event() {
    let (mut app, window) = app_with_window();
    app.push_event(
        WINDOW_THEME_CHANGED,
        Ev::ThemeChanged(WindowThemeChanged { window, theme: WindowTheme::Dark }),
    )
    .unwrap();
}

#[test]
fn dropped_file_keeps_its_path() {
    let (mut app, window) = app_with_window();
    let dropped = FileDragDrop::Dropped { window, path: PathBuf::from("~/") };
    app.push_event(FILE_DRAG_DROP, Ev::FileDragDrop(dropped.clone())).unwrap();
    match &app.poll_events(FILE_DRAG_DROP).unwrap()[0] {
        Ev::FileDragDrop(event) => assert_eq!(*event, dropped),
        _ => panic!("another event was queued"),
    }
}

#[test]
fn winit_module_brings_windowing() {
    let mut app: App<Sys, Ev> = App::new();
    app.add_module(WinitModule);
    assert!(app.is_module_added(magma_api::modules::WINDOWING_MODULE));
    assert!(app.events().is_registered(WINDOW_RESIZED));
    assert_eq!(app.events().pending(), Vec::<u64>::new());
}

#[test]
fn default_window() {
    let window = Window::new();
    assert_eq!(window.title(), "Magma Window");
    assert_eq!(window.name(), None);
    assert_eq!(window.position(), WindowPosition::Auto);
    assert_eq!(window.resolution(), WindowResolution::new(1280, 720));
    assert!(window.resizable());
    assert_eq!(window.resize_limit(), WindowResizeLimit::new(144, 256, u32::MAX, u32::MAX));
    assert_eq!(window.mode(), WindowMode::Windowed);
    assert_eq!(window.cursor_mode(), CursorMode::Free);
    assert!(window.cursor_visible());
    assert!(window.decorations());
    assert_eq!(window.titlebar_buttons(), TitlebarButtons::all_enabled());
    assert_eq!(window.present_mode(), PresentMode::Fifo);
    assert_eq!(window.alpha_mode(), AlphaMode::Auto);
    assert!(!window.transparent());
    assert!(window.focused());
    assert!(window.default_event_handling());
    assert_eq!(window.window_theme(), WindowTheme::Auto);
    assert_eq!(window.desired_maximum_frame_latency(), Some(2));
    assert!(!window.has_window);
    assert!(!window.changed_attr);
    assert_eq!(window, Window::default());
}

#[test]
fn builders_set_one_attribute_and_do_not_mark_a_change() {
    let window = Window::new()
        .with_title("Test Window")
        .with_name("main")
        .with_position(WindowPosition::Center)
        .with_resolution(WindowResolution::new(800, 600))
        .with_resizable(false)
        .with_resize_limit(WindowResizeLimit::new(1, 2, 3, 4))
        .with_mode(WindowMode::BorderlessFullscreen(MonitorSelection::Primary))
        .with_cursor_mode(CursorMode::Locked)
        .with_cursor_visible(false)
        .with_decorations(false)
        .with_titlebar_buttons(TitlebarButtons::new(true, false, true))
        .with_present_mode(PresentMode::Mailbox)
        .with_alpha_mode(AlphaMode::Opaque)
        .with_transparent(true)
        .with_focused(false)
        .with_default_event_handling(false)
        .with_window_theme(WindowTheme::Light)
        .with_desired_maximum_frame_latency(Some(3));
    assert_eq!(window.title(), "Test Window");
    assert_eq!(window.name(), Some("main".to_string()));
    assert_eq!(window.position(), WindowPosition::Center);
    assert_eq!(window.resolution().width(), 800);
    assert_eq!(window.resolution().height(), 600);
    assert!(!window.resizable());
    assert_eq!(window.resize_limit().max_height(), 4);
    assert_eq!(window.mode(), WindowMode::BorderlessFullscreen(MonitorSelection::Primary));
    assert_eq!(window.cursor_mode(), CursorMode::Locked);
    assert!(!window.cursor_visible());
    assert!(!window.decorations());
    assert!(!window.titlebar_buttons().maximize());
    assert_eq!(window.present_mode(), PresentMode::Mailbox);
    assert_eq!(window.alpha_mode(), AlphaMode::Opaque);
    assert!(window.transparent());
    assert!(!window.focused());
    assert!(!window.default_event_handling());
    assert_eq!(window.window_theme(), WindowTheme::Light);
    assert_eq!(window.desired_maximum_frame_latency(), Some(3));
    assert!(!window.changed_attr);
}

#[test]
fn setters_mark_a_change() {
    let mut window = Window::new();
    window.set_name("n");
    assert!(window.is_changed());
    assert_eq!(window.name(), Some("n".to_string()));
    window.mark_unchanged();
    assert!(!window.changed_attr);
    window.set_mode(WindowMode::Fullscreen(
        MonitorSelection::Entity(Entity::with_id(3)),
        VideoModeSelection::Specific { size: UVec2::new(1, 2), bit_depth: 8, refresh_rate_millihertz: 60000 },
    ));
    assert!(window.changed_attr);
    window.mark_unchanged();
    window.set_position(WindowPosition::Pos(IVec2::new(-4, 9)));
    assert_eq!(window.position(), WindowPosition::Pos(IVec2::new(-4, 9)));
    assert!(window.changed_attr);
    window.mark_unchanged();
    window.set_desired_maximum_frame_latency(Some(0));
    assert_eq!(window.desired_maximum_frame_latency(), None);
    assert!(window.changed_attr);
    let kept = window.clone().with_desired_maximum_frame_latency(None);
    assert_eq!(kept.desired_maximum_frame_latency(), None);
    window.mark_unchanged();
    window.set_resizable(false);
    window.set_resize_limit(WindowResizeLimit::default());
    window.set_cursor_mode(CursorMode::Confined);
    window.set_cursor_visible(false);
    window.set_decorations(false);
    window.set_titlebar_buttons(TitlebarButtons::new(false, false, false));
    window.set_present_mode(PresentMode::Immediate);
    window.set_alpha_mode(AlphaMode::Inherit);
    window.set_transparent(true);
    window.set_default_event_handling(false);
    window.set_window_theme(WindowTheme::Dark);
    assert_eq!(window.cursor_mode(), CursorMode::Confined);
    assert_eq!(window.present_mode(), PresentMode::Immediate);
    assert_eq!(window.alpha_mode(), AlphaMode::Inherit);
    assert_eq!(window.window_theme(), WindowTheme::Dark);
    assert!(!window.titlebar_buttons().close());
    assert!(!window.is_created());
    window.mark_created();
    assert!(window.has_window);
}

#[test]
fn sizes_and_limits() {
    let resolution = WindowResolution::new(640, 480);
    assert_eq!(resolution.size(), UVec2::new(640, 480));
    assert_eq!(WindowResolution::default().size(), UVec2::new(1280, 720));
    let mut limit = WindowResizeLimit::new(1, 2, 3, 4);
    assert_eq!((limit.min_width(), limit.min_height(), limit.max_width(), limit.max_height()), (1, 2, 3, 4));
    assert_eq!(limit.min_size(), UVec2::new(1, 2));
    assert_eq!(limit.max_size(), UVec2::new(3, 4));
    limit.set_min(10, 20);
    limit.set_max(30, 40);
    assert_eq!(limit, WindowResizeLimit::new(10, 20, 30, 40));
    assert_eq!(WindowResizeLimit::default().min_size(), UVec2::new(144, 256));
    let buttons = TitlebarButtons::default();
    assert!(buttons.minimize() && buttons.maximize() && buttons.close());
    assert_eq!(WindowPosition::default(), WindowPosition::Auto);
    assert_eq!(PresentMode::default(), PresentMode::Fifo);
    assert_eq!(MonitorSelection::default(), MonitorSelection::Current);
    assert_eq!(VideoModeSelection::default(), VideoModeSelection::Current);
}

#[test]
fn resized_moved_focused_follow_the_event_unless_the_window_handles_events_itself() {
    let w = Entity::with_id(1);
    let mut window = Window::new();
    window.set_title("t");
    resize_window(&mut window, &WindowResized { window: w, width: 10, height: 20 });
    assert_eq!(window.resolution(), WindowResolution::new(10, 20));
    assert!(!window.changed_attr);
    window.set_title("u");
    move_window(&mut window, &WindowMoved { window: w, position: IVec2::new(5, -6) });
    assert_eq!(window.position(), WindowPosition::Pos(IVec2::new(5, -6)));
    assert!(!window.changed_attr);
    focus_window(&mut window, &WindowFocused { window: w, focus: false });
    assert!(!window.focused());
    assert!(!window.changed_attr);
    assert_eq!(window.title(), "u");

    let mut own = Window::new().with_default_event_handling(false);
    own.set_title("mine");
    let before = own.clone();
    resize_window(&mut own, &WindowResized { window: w, width: 10, height: 20 });
    move_window(&mut own, &WindowMoved { window: w, position: IVec2::new(5, -6) });
    focus_window(&mut own, &WindowFocused { window: w, focus: false });
    assert_eq!(own, before);
    assert!(own.changed_attr);
}

#[test]
fn windows_are_marked_closing_when_requested_and_handled() {
    let e = |id| Entity::with_id(id);
    let requests = vec![WindowCloseRequested { window: e(2) }, WindowCloseRequested { window: e(5) }, WindowCloseRequested { window: e(9) }];
    let windows = vec![
        HandledWindow { window: e(5), default_event_handling: true },
        HandledWindow { window: e(1), default_event_handling: true },
        HandledWindow { window: e(9), default_event_handling: false },
        HandledWindow { window: e(2), default_event_handling: true },
    ];
    assert_eq!(windows_to_close(&requests, &windows), vec![e(5), e(2)]);
    assert_eq!(windows_to_close(&vec![], &windows), vec![]);
    assert!(close_requested(&requests, e(9)));
    assert!(!close_requested(&requests, e(1)));
    assert_eq!(
        closed_events(&vec![e(5), e(2)]),
        vec![WindowClosed { window: e(5) }, WindowClosed { window: e(2) }]
    );
}

#[test]
fn backend_decisions() {
    let e = |id| Entity::with_id(id);
    let mut window = Window::new();
    assert_eq!(window_action(&window), WindowAction::Create);
    window.set_title("x");
    assert_eq!(window_action(&window), WindowAction::Create);
    window.mark_created();
    assert_eq!(window_action(&window), WindowAction::Update);
    window.mark_unchanged();
    assert_eq!(window_action(&window), WindowAction::Keep);

    assert!(matches!(decide_frame(&vec![], &vec![e(1)]), FrameDecision::Exit));
    match decide_frame(&vec![e(1), e(3)], &vec![e(1), e(2), e(3), e(4)]) {
        FrameDecision::Continue(drop) => assert_eq!(drop, vec![e(2), e(4)]),
        FrameDecision::Exit => panic!("windows are left"),
    }
    match decide_frame(&vec![e(1), e(3)], &vec![e(2), e(4)]) {
        FrameDecision::Continue(drop) => assert_eq!(drop, vec![]),
        FrameDecision::Exit => panic!("windows are left"),
    }
}

#[test]
fn centered_position() {
    assert_eq!(
        center_position(1920, 1080, WindowResolution::new(1280, 720)),
        WindowPosition::Pos(IVec2::new(320, 180))
    );
    assert_eq!(
        center_position(801, 601, WindowResolution::new(1001, 3)),
        WindowPosition::Pos(IVec2::new(-100, 299))
    );
    assert_eq!(
        center_position(u32::MAX, 0, WindowResolution::new(0, u32::MAX)),
        WindowPosition::Pos(IVec2::new(0, 0))
    );
    assert_eq!(
        center_position(0x8000_0000, 4, WindowResolution::new(2, 0x8000_0001)),
        WindowPosition::Pos(IVec2::new(-1073741825, 1073741825))
    );
}

#[test]
fn video_mode_selection() {
    let mode = |width, height, bit_depth, refresh_rate_millihertz| VideoModeInfo { width, height, bit_depth, refresh_rate_millihertz };
    let modes = vec![
        mode(1920, 1080, 24, 60000),
        mode(1280, 720, 32, 60000),
        mode(1920, 1080, 32, 60000),
        mode(1920, 1080, 32, 144000),
        mode(1920, 1080, 32, 60000),
        mode(1920, 1080, 16, 60000),
    ];
    assert_eq!(current_video_mode(&modes, 1920, 1080, Some(60000)), Some(4));
    assert_eq!(current_video_mode(&modes, 1920, 1080, Some(144000)), Some(3));
    assert_eq!(current_video_mode(&modes, 1920, 1080, None), None);
    assert_eq!(current_video_mode(&modes, 800, 600, Some(60000)), None);
    assert_eq!(specific_video_mode(&modes, mode(1920, 1080, 32, 60000)), Some(2));
    assert_eq!(specific_video_mode(&modes, mode(1920, 1080, 8, 60000)), None);
}

fn window_world() -> Store {
    let mut world = Store::new();
    assert!(world.register_component::<Window>());
    assert!(world.register_component::<ClosingWindow>());
    world.seal();
    world
}

#[test]
fn window_events_change_the_windows_of_the_world() {
    let world = window_world();
    let a = inner(&world).create_entity((Window::new(),)).unwrap();
    let b = inner(&world).create_entity((Window::new().with_default_event_handling(false),)).unwrap();
    let (ea, eb) = (Entity::with_id(a.id()), Entity::with_id(b.id()));
    resized(
        &world,
        &vec![
            WindowResized { window: ea, width: 1, height: 2 },
            WindowResized { window: eb, width: 3, height: 4 },
            WindowResized { window: ea, width: 5, height: 6 },
        ],
    )
    .unwrap();
    moved(&world, &vec![WindowMoved { window: ea, position: IVec2::new(7, 8) }]).unwrap();
    focused(&world, &vec![WindowFocused { window: ea, focus: false }]).unwrap();
    {
        let window = inner(&world).get_component::<Window>(a).unwrap();
        assert_eq!(window.resolution(), WindowResolution::new(5, 6));
        assert_eq!(window.position(), WindowPosition::Pos(IVec2::new(7, 8)));
        assert!(!window.focused());
        assert!(!window.changed_attr);
    }
    assert_eq!(*inner(&world).get_component::<Window>(b).unwrap(), Window::new().with_default_event_handling(false));
    assert_eq!(
        resized(&world, &vec![WindowResized { window: Entity::with_id(40), width: 1, height: 1 }]),
        Err(StoreError)
    );
    assert_eq!(moved(&Store::new(), &vec![WindowMoved { window: ea, position: IVec2::new(0, 0) }]), Err(StoreError));
    assert_eq!(focused(&world, &vec![]), Ok(()));
    assert_eq!(resized(&Store::new(), &vec![]), Ok(()));
    assert_eq!(moved(&Store::new(), &vec![]), Ok(()));
    assert_eq!(focused(&Store::new(), &vec![]), Ok(()));
}

#[test]
fn requested_windows_are_marked_and_then_deleted() {
    let world = window_world();
    let a = inner(&world).create_entity((Window::new(),)).unwrap();
    let b = inner(&world).create_entity((Window::new().with_default_event_handling(false),)).unwrap();
    let c = inner(&world).create_entity((Window::new(),)).unwrap();
    let e = |x: magma_ecs::entities::Entity| Entity::with_id(x.id());
    let requests = vec![WindowCloseRequested { window: e(c) }, WindowCloseRequested { window: e(b) }];
    assert_eq!(mark_closed_windows(&world, &requests), Ok(vec![e(c)]));
    assert_eq!(inner(&world).query::<(ClosingWindow, Window)>().unwrap().len(), 1);
    assert_eq!(delete_pending_windows(&world), Ok(vec![WindowClosed { window: e(c) }]));
    assert_eq!(inner(&world).query::<(Window,)>().unwrap().len(), 2);
    assert_eq!(inner(&world).query::<(Window,)>().unwrap()[0].id(), a.id());
    assert_eq!(delete_pending_windows(&world), Ok(vec![]));
    assert_eq!(mark_closed_windows(&Store::new(), &requests), Err(StoreError));
    assert_eq!(mark_closed_windows(&Store::new(), &vec![]), Ok(vec![]));
    assert_eq!(delete_pending_windows(&Store::new()), Err(StoreError));
    let mut unsealed = Store::new();
    assert!(unsealed.register_component::<Window>());
    assert!(unsealed.register_component::<ClosingWindow>());
    assert_eq!(delete_pending_windows(&unsealed), Err(StoreError));
    assert_eq!(mark_closed_windows(&unsealed, &requests), Err(StoreError));
    assert_eq!(
        focused(&unsealed, &vec![WindowFocused { window: e(a), focus: true }]),
        Err(StoreError)
    );
    unsealed.seal();
    assert_eq!(delete_pending_windows(&unsealed), Ok(vec![]));
}
