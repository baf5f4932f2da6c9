//! The window component and the types that describe a window.

use vstd::prelude::*;
use magma_math::{IVec2, UVec2};
use crate::entity::Entity;

verus! {

/// The `IVec2` of glam, as magma_math exports it: two signed numbers. It is
/// carried through as it is.
#[verifier::external_type_specification]
#[verifier::external_body]
pub struct ExIVec2(magma_math::IVec2);

/// The `UVec2` of glam, as magma_math exports it: two unsigned numbers. It
/// is carried through as it is.
#[verifier::external_type_specification]
#[verifier::external_body]
pub struct ExUVec2(magma_math::UVec2);

/// The vector that `UVec2::new` makes of two numbers.
pub uninterp spec fn uvec2_of(x: u32, y: u32) -> UVec2;

/// The vector that `IVec2::new` makes of two numbers.
pub uninterp spec fn ivec2_of(x: i32, y: i32) -> IVec2;

/// `UVec2::new` of glam, as magma_math exports it: the vector with the
/// components `x` and `y`.
#[verifier::external_body]
pub(crate) fn uvec2(x: u32, y: u32) -> (v: UVec2)
    ensures
        v == uvec2_of(x, y),
{
    UVec2::new(x, y)
}

/// `IVec2::new` of glam, as magma_math exports it: the vector with the
/// components `x` and `y`.
#[verifier::external_body]
pub(crate) fn ivec2(x: i32, y: i32) -> (v: IVec2)
    ensures
        v == ivec2_of(x, y),
{
    IVec2::new(x, y)
}

/// Marks a window that has been requested to close.
#[derive(Clone, Copy, PartialEq, Eq, PartialOrd, Ord, Debug)]
pub struct ClosingWindow;

/// Marker component for the primary monitor.
#[derive(Clone, Copy, PartialEq, Eq, Debug)]
pub struct PrimaryMonitor;

/// Position of a window.
#[derive(Clone, Copy, PartialEq, Eq, Debug)]
pub enum WindowPosition {
    /// Automatically set an initial position for the window. This will be
    /// converted into `Pos` once the window has been created.
    Auto,
    /// Center the window on the screen. This will be converted to `Pos`
    /// once the window has been created.
    Center,
    /// Physical position of a window starting from the top left corner of the screen.
    Pos(IVec2),
}

impl Default for WindowPosition {
    fn default() -> (position: WindowPosition)
        ensures
            position == WindowPosition::Auto,
    {
        WindowPosition::Auto
    }
}

/// Window resolution in physical pixels.
#[derive(Clone, Copy, PartialEq, Eq, Structural, PartialOrd, Ord, Debug)]
pub struct WindowResolution {
    pub width: u32,
    pub height: u32,
}

impl Default for WindowResolution {
    fn default() -> (resolution: WindowResolution)
        ensures
            resolution.width == 1280,
            resolution.height == 720,
    {
        WindowResolution { width: 1280, height: 720 }
    }
}

impl WindowResolution {
    /// Returns a `WindowResolution` with specified physical width and height.
    pub fn new(width: u32, height: u32) -> (resolution: WindowResolution)
        ensures
            resolution.width == width,
            resolution.height == height,
    {
        WindowResolution { width, height }
    }

    /// Get the physical width.
    pub fn width(&self) -> (width: u32)
        ensures
            width == self.width,
    {
        self.width
    }

    /// Get the physical height.
    pub fn height(&self) -> (height: u32)
        ensures
            height == self.height,
    {
        self.height
    }

    /// Get the physical size as a `UVec2`.
    pub fn size(&self) -> (size: UVec2)
        ensures
            size == uvec2_of(self.width, self.height),
    {
        uvec2(self.width, self.height)
    }

}

/// Resize limit of a window.
#[derive(Clone, Copy, PartialEq, Eq, Structural, PartialOrd, Ord, Debug)]
pub struct WindowResizeLimit {
    pub min_width: u32,
    pub min_height: u32,
    pub max_width: u32,
    pub max_height: u32,
}

impl Default for WindowResizeLimit {
    fn default() -> (limit: WindowResizeLimit)
        ensures
            limit.min_width == 144,
            limit.min_height == 256,
            limit.max_width == u32::MAX,
            limit.max_height == u32::MAX,
    {
        WindowResizeLimit { min_width: 144, min_height: 256, max_width: u32::MAX, max_height: u32::MAX }
    }
}

impl WindowResizeLimit {
    /// Returns a `WindowResizeLimit` with specified constraints.
    pub fn new(min_width: u32, min_height: u32, max_width: u32, max_height: u32) -> (limit:
        WindowResizeLimit)
        ensures
            limit.min_width == min_width,
            limit.min_height == min_height,
            limit.max_width == max_width,
            limit.max_height == max_height,
    {
        WindowResizeLimit { min_width, min_height, max_width, max_height }
    }

    /// Get the minimum width.
    pub fn min_width(&self) -> (width: u32)
        ensures
            width == self.min_width,
    {
        self.min_width
    }

    /// Get the minimum height.
    pub fn min_height(&self) -> (height: u32)
        ensures
            height == self.min_height,
    {
        self.min_height
    }

    /// Get the maximum width.
    pub fn max_width(&self) -> (width: u32)
        ensures
            width == self.max_width,
    {
        self.max_width
    }

    /// Get the maximum height.
    pub fn max_height(&self) -> (height: u32)
        ensures
            height == self.max_height,
    {
        self.max_height
    }

    /// Get the minimum size as a `UVec2`.
    pub fn min_size(&self) -> (size: UVec2)
        ensures
            size == uvec2_of(self.min_width, self.min_height),
    {
        uvec2(self.min_width, self.min_height)
    }

    /// Get the maximum size as a `UVec2`.
    pub fn max_size(&self) -> (size: UVec2)
        ensures
            size == uvec2_of(self.max_width, self.max_height),
    {
        uvec2(self.max_width, self.max_height)
    }

    /// Set the minimum width and height.
    pub fn set_min(&mut self, width: u32, height: u32)
        ensures
            final(self).min_width == width,
            final(self).min_height == height,
            final(self).max_width == old(self).max_width,
            final(self).max_height == old(self).max_height,
    {
        self.min_width = width;
        self.min_height = height;
    }

    /// Set the maximum width and height.
    pub fn set_max(&mut self, width: u32, height: u32)
        ensures
            final(self).max_width == width,
            final(self).max_height == height,
            final(self).min_width == old(self).min_width,
            final(self).min_height == old(self).min_height,
    {
        self.max_width = width;
        self.max_height = height;
    }
}

/// The monitor to use for a window.
#[derive(Clone, Copy, PartialEq, Eq, Structural, PartialOrd, Ord, Debug)]
pub enum MonitorSelection {
    /// Use the currently focused monitor.
    Current,
    /// Use the system's primary monitor.
    Primary,
    /// Specify monitor by its entity.
    Entity(Entity),
}

impl Default for MonitorSelection {
    fn default() -> (selection: MonitorSelection)
        ensures
            selection == MonitorSelection::Current,
    {
        MonitorSelection::Current
    }
}

/// Specifies the window's video mode.
#[derive(Clone, Copy, PartialEq, Eq, Debug)]
pub enum VideoModeSelection {
    /// Use the current monitor's video mode.
    Current,
    /// Specify a video mode to use.
    Specific { size: UVec2, bit_depth: u16, refresh_rate_millihertz: u32 },
}

impl Default for VideoModeSelection {
    fn default() -> (selection: VideoModeSelection)
        ensures
            selection == VideoModeSelection::Current,
    {
        VideoModeSelection::Current
    }
}

/// The windowing mode of the window.
#[derive(Clone, Copy, PartialEq, Eq, Debug)]
pub enum WindowMode {
    /// The window should be the size of its resolution.
    Windowed,
    /// The window along with its resolution gets upscaled to fit the screen.
    BorderlessFullscreen(MonitorSelection),
    /// True fullscreen mode. The window occupies the whole screen, its
    /// resolution is not modified.
    Fullscreen(MonitorSelection, VideoModeSelection),
}

impl Default for WindowMode {
    fn default() -> (mode: WindowMode)
        ensures
            mode == WindowMode::Windowed,
    {
        WindowMode::Windowed
    }
}

/// The theme variant to use.
#[derive(Clone, Copy, PartialEq, Eq, Structural, PartialOrd, Ord, Hash, Debug)]
pub enum WindowTheme {
    /// The window will use the system's global theme variant.
    Auto,
    /// Use the light theme variant.
    Light,
    /// Use the dark theme variant.
    Dark,
}

impl Default for WindowTheme {
    fn default() -> (theme: WindowTheme)
        ensures
            theme == WindowTheme::Auto,
    {
        WindowTheme::Auto
    }
}

/// The window's cursor mode.
#[derive(Clone, Copy, PartialEq, Eq, Structural, PartialOrd, Ord, Debug)]
pub enum CursorMode {
    /// The cursor can freely move in and outside the window.
    Free,
    /// The cursor will be confined to the window. Where the platform does
    /// not support this, the cursor is locked instead.
    Confined,
    /// The cursor will be locked in one place. Where the platform does not
    /// support this, the cursor is confined instead.
    Locked,
}

impl Default for CursorMode {
    fn default() -> (mode: CursorMode)
        ensures
            mode == CursorMode::Free,
    {
        CursorMode::Free
    }
}

/// The window's present mode.
#[derive(Clone, Copy, PartialEq, Eq, Structural, PartialOrd, Ord, Debug)]
pub enum PresentMode {
    /// Chooses `RelaxedFifo`, then `Fifo`, whichever is available.
    Vsync,
    /// Chooses `Immediate`, then `Mailbox`, whichever is available.
    NoVsync,
    /// Frames wait in a queue of about three and are shown one per
    /// vertical blank. No tearing.
    Fifo,
    /// As `Fifo`, but a frame that arrives late is shown at once. May tear.
    RelaxedFifo,
    /// A queue of one frame; a newer frame replaces the one that waits. No tearing.
    Mailbox,
    /// Frames are not queued but shown at once. May tear.
    Immediate,
}

impl Default for PresentMode {
    fn default() -> (mode: PresentMode)
        ensures
            mode == PresentMode::Fifo,
    {
        PresentMode::Fifo
    }
}

/// The window's alpha mode.
#[derive(Clone, Copy, PartialEq, Eq, Structural, PartialOrd, Ord, Debug)]
pub enum AlphaMode {
    /// Automatically determine alpha mode.
    Auto,
    /// The window will always be opaque.
    Opaque,
    /// The alpha channel is respected; the other channels are already multiplied by it.
    PreMultiplied,
    /// The alpha channel is respected; the other channels are not multiplied by it.
    PostMultiplied,
    /// The alpha channel of textures is unknown for compositing.
    Inherit,
}

impl Default for AlphaMode {
    fn default() -> (mode: AlphaMode)
        ensures
            mode == AlphaMode::Auto,
    {
        AlphaMode::Auto
    }
}

/// Used for specifying which titlebar buttons should be enabled on a window.
#[derive(Clone, Copy, PartialEq, Eq, Structural, PartialOrd, Ord, Debug)]
pub struct TitlebarButtons {
    pub minimize: bool,
    pub maximize: bool,
    pub close: bool,
}

impl Default for TitlebarButtons {
    fn default() -> (buttons: TitlebarButtons)
        ensures
            buttons.minimize,
            buttons.maximize,
            buttons.close,
    {
        TitlebarButtons { minimize: true, maximize: true, close: true }
    }
}

impl TitlebarButtons {
    /// Get `TitlebarButtons` with specified buttons activated.
    pub fn new(minimize: bool, maximize: bool, close: bool) -> (buttons: TitlebarButtons)
        ensures
            buttons.minimize == minimize,
            buttons.maximize == maximize,
            buttons.close == close,
    {
        TitlebarButtons { minimize, maximize, close }
    }

    /// Get `TitlebarButtons` with all buttons enabled.
    pub fn all_enabled() -> (buttons: TitlebarButtons)
        ensures
            buttons.minimize,
            buttons.maximize,
            buttons.close,
    {
        TitlebarButtons { minimize: true, maximize: true, close: true }
    }

    /// Is the minimize button enabled?
    pub fn minimize(&self) -> (enabled: bool)
        ensures
            enabled == self.minimize,
    {
        self.minimize
    }

    /// Is the maximize button enabled?
    pub fn maximize(&self) -> (enabled: bool)
        ensures
            enabled == self.maximize,
    {
        self.maximize
    }

    /// Is the close button enabled?
    pub fn close(&self) -> (enabled: bool)
        ensures
            enabled == self.close,
    {
        self.close
    }
}

/// The state of a window component.
pub struct WindowView {
    pub title: Seq<char>,
    pub name: Option<Seq<char>>,
    pub position: WindowPosition,
    pub resolution: WindowResolution,
    pub resizable: bool,
    pub resize_limit: WindowResizeLimit,
    pub mode: WindowMode,
    pub cursor_mode: CursorMode,
    pub cursor_visible: bool,
    pub decorations: bool,
    pub titlebar_buttons: TitlebarButtons,
    pub present_mode: PresentMode,
    pub alpha_mode: AlphaMode,
    pub transparent: bool,
    pub focused: bool,
    pub default_event_handling: bool,
    pub window_theme: WindowTheme,
    pub desired_maximum_frame_latency: Option<u32>,
    pub has_window: bool,
    pub changed_attr: bool,
}

/// The Window Component.
#[derive(Clone, PartialEq, Eq, Debug)]
pub struct Window {
    title: String,
    name: Option<String>,
    position: WindowPosition,
    resolution: WindowResolution,
    resizable: bool,
    resize_limit: WindowResizeLimit,
    mode: WindowMode,
    cursor_mode: CursorMode,
    cursor_visible: bool,
    decorations: bool,
    titlebar_buttons: TitlebarButtons,
    present_mode: PresentMode,
    alpha_mode: AlphaMode,
    transparent: bool,
    focused: bool,
    default_event_handling: bool,
    window_theme: WindowTheme,
    desired_maximum_frame_latency: Option<u32>,
    /// True if the backend has created a window for this component.
    pub has_window: bool,
    /// True if this component was modified in the current update. This does
    /// not include changes that the backend makes to sync windows.
    pub changed_attr: bool,
}

impl View for Window {
    type V = WindowView;

    closed spec fn view(&self) -> WindowView {
        WindowView {
            title: self.title@,
            name: match self.name {
                Some(name) => Some(name@),
                None => None,
            },
            position: self.position,
            resolution: self.resolution,
            resizable: self.resizable,
            resize_limit: self.resize_limit,
            mode: self.mode,
            cursor_mode: self.cursor_mode,
            cursor_visible: self.cursor_visible,
            decorations: self.decorations,
            titlebar_buttons: self.titlebar_buttons,
            present_mode: self.present_mode,
            alpha_mode: self.alpha_mode,
            transparent: self.transparent,
            focused: self.focused,
            default_event_handling: self.default_event_handling,
            window_theme: self.window_theme,
            desired_maximum_frame_latency: self.desired_maximum_frame_latency,
            has_window: self.has_window,
            changed_attr: self.changed_attr,
        }
    }
}

/// The state of a window as it is first made.
pub open spec fn default_window() -> WindowView {
    WindowView {
        title: "Magma Window"@,
        name: None,
        position: WindowPosition::Auto,
        resolution: (WindowResolution { width: 1280, height: 720 }),
        resizable: true,
        resize_limit: (WindowResizeLimit {
            min_width: 144,
            min_height: 256,
            max_width: u32::MAX,
            max_height: u32::MAX,
        }),
        mode: WindowMode::Windowed,
        cursor_mode: CursorMode::Free,
        cursor_visible: true,
        decorations: true,
        titlebar_buttons: (TitlebarButtons { minimize: true, maximize: true, close: true }),
        present_mode: PresentMode::Fifo,
        alpha_mode: AlphaMode::Auto,
        transparent: false,
        focused: true,
        default_event_handling: true,
        window_theme: WindowTheme::Auto,
        desired_maximum_frame_latency: Some(2u32),
        has_window: false,
        changed_attr: false,
    }
}

impl Default for Window {
    fn default() -> (window: Window)
        ensures
            window@ == default_window(),
            window.wf(),
    {
        Window {
            title: "Magma Window".to_owned(),
            name: None,
            position: WindowPosition::Auto,
            resolution: WindowResolution::new(1280, 720),
            resizable: true,
            resize_limit: WindowResizeLimit::new(144, 256, u32::MAX, u32::MAX),
            mode: WindowMode::Windowed,
            cursor_mode: CursorMode::Free,
            cursor_visible: true,
            decorations: true,
            titlebar_buttons: TitlebarButtons::new(true, true, true),
            present_mode: PresentMode::Fifo,
            alpha_mode: AlphaMode::Auto,
            transparent: false,
            focused: true,
            default_event_handling: true,
            window_theme: WindowTheme::Auto,
            desired_maximum_frame_latency: Some(2),
            has_window: false,
            changed_attr: false,
        }
    }
}

impl Window {
    /// The desired maximum frame latency, where there is one, is not zero.
    pub open spec fn wf(&self) -> bool {
        self@.desired_maximum_frame_latency != Some(0u32)
    }

    /// A window with the default attributes.
    pub fn new() -> (window: Window)
        ensures
            window@ == default_window(),
            window.wf(),
    {
        Window::default()
    }

    /// Create the window with a custom title.
    pub fn with_title(self, title: &str) -> (window: Window)
        ensures
            window@ == (WindowView { title: title@, ..self@ }),
    {
        let mut window = self;
        window.title = title.to_owned();
        window
    }

    /// Get the window's display title.
    pub fn title(&self) -> (title: String)
        ensures
            title@ == self@.title,
    {
        self.title.clone()
    }

    /// Set the window's display title.
    pub fn set_title(&mut self, title: &str)
        ensures
            final(self)@ == (WindowView { title: title@, changed_attr: true, ..old(self)@ }),
    {
        self.title = title.to_owned();
        self.changed_attr = true;
    }

    /// Create the window with a custom (optional) name.
    pub fn with_name(self, name: &str) -> (window: Window)
        ensures
            window@ == (WindowView { name: Some(name@), ..self@ }),
    {
        let mut window = self;
        window.name = Some(name.to_owned());
        window
    }

    /// Get the window's name.
    pub fn name(&self) -> (name: Option<String>)
        ensures
            match name {
                Some(n) => self@.name == Some(n@),
                None => self@.name.is_none(),
            },
    {
        match &self.name {
            Some(name) => Some(name.clone()),
            None => None,
        }
    }

    /// Set the window's optional name.
    pub fn set_name(&mut self, name: &str)
        ensures
            final(self)@ == (WindowView { name: Some(name@), changed_attr: true, ..old(self)@ }),
    {
        self.name = Some(name.to_owned());
        self.changed_attr = true;
    }

    /// Create the window with specified `WindowPosition`.
    pub fn with_position(self, position: WindowPosition) -> (window: Window)
        ensures
            window@ == (WindowView { position, ..self@ }),
    {
        let mut window = self;
        window.position = position;
        window
    }

    /// Get the current `WindowPosition`.
    pub fn position(&self) -> (position: WindowPosition)
        ensures
            position == self@.position,
    {
        self.position
    }

    /// Set the `WindowPosition`.
    pub fn set_position(&mut self, position: WindowPosition)
        ensures
            final(self)@ == (WindowView { position, changed_attr: true, ..old(self)@ }),
    {
        self.position = position;
        self.changed_attr = true;
    }

    /// Create the window with specified `WindowResolution`.
    pub fn with_resolution(self, resolution: WindowResolution) -> (window: Window)
        ensures
            window@ == (WindowView { resolution, ..self@ }),
    {
        let mut window = self;
        window.resolution = resolution;
        window
    }

    /// Get the current `WindowResolution`.
    pub fn resolution(&self) -> (resolution: WindowResolution)
        ensures
            resolution == self@.resolution,
    {
        self.resolution
    }

    /// Set the `WindowResolution`.
    pub fn set_resolution(&mut self, resolution: WindowResolution)
        ensures
            final(self)@ == (WindowView { resolution, changed_attr: true, ..old(self)@ }),
    {
        self.resolution = resolution;
        self.changed_attr = true;
    }

    /// Set if the window should be resizable on creation.
    pub fn with_resizable(self, resizable: bool) -> (window: Window)
        ensures
            window@ == (WindowView { resizable, ..self@ }),
    {
        let mut window = self;
        window.resizable = resizable;
        window
    }

    /// Is the window resizable?
    pub fn resizable(&self) -> (resizable: bool)
        ensures
            resizable == self@.resizable,
    {
        self.resizable
    }

    /// Set if the window should be resizable.
    pub fn set_resizable(&mut self, resizable: bool)
        ensures
            final(self)@ == (WindowView { resizable, changed_attr: true, ..old(self)@ }),
    {
        self.resizable = resizable;
        self.changed_attr = true;
    }

    /// Create the window with specified `WindowResizeLimit`.
    pub fn with_resize_limit(self, resize_limit: WindowResizeLimit) -> (window: Window)
        ensures
            window@ == (WindowView { resize_limit, ..self@ }),
    {
        let mut window = self;
        window.resize_limit = resize_limit;
        window
    }

    /// Get the current `WindowResizeLimit`.
    pub fn resize_limit(&self) -> (resize_limit: WindowResizeLimit)
        ensures
            resize_limit == self@.resize_limit,
    {
        self.resize_limit
    }

    /// Set the `WindowResizeLimit`.
    pub fn set_resize_limit(&mut self, resize_limit: WindowResizeLimit)
        ensures
            final(self)@ == (WindowView { resize_limit, changed_attr: true, ..old(self)@ }),
    {
        self.resize_limit = resize_limit;
        self.changed_attr = true;
    }

    /// Create the window with specified `WindowMode`.
    pub fn with_mode(self, mode: WindowMode) -> (window: Window)
        ensures
            window@ == (WindowView { mode, ..self@ }),
    {
        let mut window = self;
        window.mode = mode;
        window
    }

    /// Get the current `WindowMode`.
    pub fn mode(&self) -> (mode: WindowMode)
        ensures
            mode == self@.mode,
    {
        self.mode
    }

    /// Set the `WindowMode`.
    pub fn set_mode(&mut self, mode: WindowMode)
        ensures
            final(self)@ == (WindowView { mode, changed_attr: true, ..old(self)@ }),
    {
        self.mode = mode;
        self.changed_attr = true;
    }

    /// Create the window with specified `CursorMode`.
    pub fn with_cursor_mode(self, cursor_mode: CursorMode) -> (window: Window)
        ensures
            window@ == (WindowView { cursor_mode, ..self@ }),
    {
        let mut window = self;
        window.cursor_mode = cursor_mode;
        window
    }

    /// Get the current `CursorMode`.
    pub fn cursor_mode(&self) -> (cursor_mode: CursorMode)
        ensures
            cursor_mode == self@.cursor_mode,
    {
        self.cursor_mode
    }

    /// Set the `CursorMode`.
    pub fn set_cursor_mode(&mut self, cursor_mode: CursorMode)
        ensures
            final(self)@ == (WindowView { cursor_mode, changed_attr: true, ..old(self)@ }),
    {
        self.cursor_mode = cursor_mode;
        self.changed_attr = true;
    }

    /// Set if the cursor should be visible at window creation.
    pub fn with_cursor_visible(self, cursor_visible: bool) -> (window: Window)
        ensures
            window@ == (WindowView { cursor_visible, ..self@ }),
    {
        let mut window = self;
        window.cursor_visible = cursor_visible;
        window
    }

    /// Is the cursor visible?
    pub fn cursor_visible(&self) -> (cursor_visible: bool)
        ensures
            cursor_visible == self@.cursor_visible,
    {
        self.cursor_visible
    }

    /// Set if the cursor should be visible.
    pub fn set_cursor_visible(&mut self, cursor_visible: bool)
        ensures
            final(self)@ == (WindowView { cursor_visible, changed_attr: true, ..old(self)@ }),
    {
        self.cursor_visible = cursor_visible;
        self.changed_attr = true;
    }

    /// Set if window decorations should be enabled at window creation.
    pub fn with_decorations(self, decorations: bool) -> (window: Window)
        ensures
            window@ == (WindowView { decorations, ..self@ }),
    {
        let mut window = self;
        window.decorations = decorations;
        window
    }

    /// Are window decorations enabled?
    pub fn decorations(&self) -> (decorations: bool)
        ensures
            decorations == self@.decorations,
    {
        self.decorations
    }

    /// Set if window decorations should be enabled.
    pub fn set_decorations(&mut self, decorations: bool)
        ensures
            final(self)@ == (WindowView { decorations, changed_attr: true, ..old(self)@ }),
    {
        self.decorations = decorations;
        self.changed_attr = true;
    }

    /// Set which `TitlebarButtons` should be enabled at window creation.
    pub fn with_titlebar_buttons(self, titlebar_buttons: TitlebarButtons) -> (window: Window)
        ensures
            window@ == (WindowView { titlebar_buttons, ..self@ }),
    {
        let mut window = self;
        window.titlebar_buttons = titlebar_buttons;
        window
    }

    /// Get enabled `TitlebarButtons`.
    pub fn titlebar_buttons(&self) -> (titlebar_buttons: TitlebarButtons)
        ensures
            titlebar_buttons == self@.titlebar_buttons,
    {
        self.titlebar_buttons
    }

    /// Set which `TitlebarButtons` should be enabled.
    pub fn set_titlebar_buttons(&mut self, titlebar_buttons: TitlebarButtons)
        ensures
            final(self)@ == (WindowView { titlebar_buttons, changed_attr: true, ..old(self)@ }),
    {
        self.titlebar_buttons = titlebar_buttons;
        self.changed_attr = true;
    }

    /// Create the window with specified `PresentMode`.
    pub fn with_present_mode(self, present_mode: PresentMode) -> (window: Window)
        ensures
            window@ == (WindowView { present_mode, ..self@ }),
    {
        let mut window = self;
        window.present_mode = present_mode;
        window
    }

    /// Get the current `PresentMode`.
    pub fn present_mode(&self) -> (present_mode: PresentMode)
        ensures
            present_mode == self@.present_mode,
    {
        self.present_mode
    }

    /// Set the `PresentMode`.
    pub fn set_present_mode(&mut self, present_mode: PresentMode)
        ensures
            final(self)@ == (WindowView { present_mode, changed_attr: true, ..old(self)@ }),
    {
        self.present_mode = present_mode;
        self.changed_attr = true;
    }

    /// Create the window with specified `AlphaMode`.
    pub fn with_alpha_mode(self, alpha_mode: AlphaMode) -> (window: Window)
        ensures
            window@ == (WindowView { alpha_mode, ..self@ }),
    {
        let mut window = self;
        window.alpha_mode = alpha_mode;
        window
    }

    /// Get the current `AlphaMode`.
    pub fn alpha_mode(&self) -> (alpha_mode: AlphaMode)
        ensures
            alpha_mode == self@.alpha_mode,
    {
        self.alpha_mode
    }

    /// Set the `AlphaMode`.
    pub fn set_alpha_mode(&mut self, alpha_mode: AlphaMode)
        ensures
            final(self)@ == (WindowView { alpha_mode, changed_attr: true, ..old(self)@ }),
    {
        self.alpha_mode = alpha_mode;
        self.changed_attr = true;
    }

    /// Set if the window should be transparent at window creation.
    pub fn with_transparent(self, transparent: bool) -> (window: Window)
        ensures
            window@ == (WindowView { transparent, ..self@ }),
    {
        let mut window = self;
        window.transparent = transparent;
        window
    }

    /// Is the window transparent?
    pub fn transparent(&self) -> (transparent: bool)
        ensures
            transparent == self@.transparent,
    {
        self.transparent
    }

    /// Set if the window should be transparent.
    pub fn set_transparent(&mut self, transparent: bool)
        ensures
            final(self)@ == (WindowView { transparent, changed_attr: true, ..old(self)@ }),
    {
        self.transparent = transparent;
        self.changed_attr = true;
    }

    /// Create the window with specified focus.
    pub fn with_focused(self, focused: bool) -> (window: Window)
        ensures
            window@ == (WindowView { focused, ..self@ }),
    {
        let mut window = self;
        window.focused = focused;
        window
    }

    /// Is the window focused?
    pub fn focused(&self) -> (focused: bool)
        ensures
            focused == self@.focused,
    {
        self.focused
    }

    /// Set if the window should be focused.
    pub fn set_focused(&mut self, focused: bool)
        ensures
            final(self)@ == (WindowView { focused, changed_attr: true, ..old(self)@ }),
    {
        self.focused = focused;
        self.changed_attr = true;
    }

    /// Set if default event handling should be enabled at window creation.
    pub fn with_default_event_handling(self, default_event_handling: bool) -> (window: Window)
        ensures
            window@ == (WindowView { default_event_handling, ..self@ }),
    {
        let mut window = self;
        window.default_event_handling = default_event_handling;
        window
    }

    /// Is default event handling enabled for this window?
    pub fn default_event_handling(&self) -> (default_event_handling: bool)
        ensures
            default_event_handling == self@.default_event_handling,
    {
        self.default_event_handling
    }

    /// Set if default event handling should be enabled.
    pub fn set_default_event_handling(&mut self, default_event_handling: bool)
        ensures
            final(self)@
                == (WindowView { default_event_handling, changed_attr: true, ..old(self)@ }),
    {
        self.default_event_handling = default_event_handling;
        self.changed_attr = true;
    }

    /// Create the window with specified `WindowTheme`.
    pub fn with_window_theme(self, window_theme: WindowTheme) -> (window: Window)
        ensures
            window@ == (WindowView { window_theme, ..self@ }),
    {
        let mut window = self;
        window.window_theme = window_theme;
        window
    }

    /// Get the current `WindowTheme`.
    pub fn window_theme(&self) -> (window_theme: WindowTheme)
        ensures
            window_theme == self@.window_theme,
    {
        self.window_theme
    }

    /// Set the `WindowTheme`.
    pub fn set_window_theme(&mut self, window_theme: WindowTheme)
        ensures
            final(self)@ == (WindowView { window_theme, changed_attr: true, ..old(self)@ }),
    {
        self.window_theme = window_theme;
        self.changed_attr = true;
    }

    /// Forgets that the attributes changed: the backend is up to date.
    pub fn mark_unchanged(&mut self)
        ensures
            final(self)@ == (WindowView { changed_attr: false, ..old(self)@ }),
    {
        self.changed_attr = false;
    }

    /// Records that the backend has created a window for this component.
    pub fn mark_created(&mut self)
        ensures
            final(self)@ == (WindowView { has_window: true, ..old(self)@ }),
    {
        self.has_window = true;
    }

    /// Did the attributes change since the backend was last brought up to date?
    pub fn is_changed(&self) -> (changed: bool)
        ensures
            changed == self@.changed_attr,
    {
        self.changed_attr
    }

    /// Has the backend created a window for this component?
    pub fn is_created(&self) -> (created: bool)
        ensures
            created == self@.has_window,
    {
        self.has_window
    }

    /// Create the window with a desired maximum frame latency. A latency of
    /// zero counts as none.
    pub fn with_desired_maximum_frame_latency(
        self,
        desired_maximum_frame_latency: Option<u32>,
    ) -> (window: Window)
        ensures
            window.wf(),
            window@ == (WindowView {
                desired_maximum_frame_latency: nonzero(desired_maximum_frame_latency),
                ..self@
            }),
    {
        let mut window = self;
        window.desired_maximum_frame_latency = keep_nonzero(desired_maximum_frame_latency);
        window
    }

    /// Get the desired maximum frame latency.
    pub fn desired_maximum_frame_latency(&self) -> (latency: Option<u32>)
        ensures
            latency == self@.desired_maximum_frame_latency,
    {
        self.desired_maximum_frame_latency
    }

    /// Set the desired maximum frame latency. A latency of zero counts as none.
    pub fn set_desired_maximum_frame_latency(&mut self, desired_maximum_frame_latency: Option<u32>)
        ensures
            final(self).wf(),
            final(self)@ == (WindowView {
                desired_maximum_frame_latency: nonzero(desired_maximum_frame_latency),
                changed_attr: true,
                ..old(self)@
            }),
    {
        self.desired_maximum_frame_latency = keep_nonzero(desired_maximum_frame_latency);
        self.changed_attr = true;
    }
}

/// `latency` unless it is zero.
pub open spec fn nonzero(latency: Option<u32>) -> Option<u32> {
    if latency == Some(0u32) {
        None
    } else {
        latency
    }
}

/// `latency` unless it is zero.
fn keep_nonzero(latency: Option<u32>) -> (kept: Option<u32>)
    ensures
        kept == nonzero(latency),
{
    match latency {
        Some(0) => None,
        other => other,
    }
}

} // verus!
