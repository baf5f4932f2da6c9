//! Window related events.

use vstd::prelude::*;
use magma_math::IVec2;
use std::path::PathBuf;
use crate::entity::Entity;
use crate::window::WindowTheme;

verus! {

/// The `PathBuf` of std: the path of a file. It is carried through as it is.
#[verifier::external_type_specification]
#[verifier::external_body]
pub struct ExPathBuf(std::path::PathBuf);

/// `clone` of std's `PathBuf`: the copy is the same path.
pub assume_specification[ <PathBuf as Clone>::clone ](path: &PathBuf) -> (copy: PathBuf)
    ensures
        copy == *path,
;

/// The kind of `WindowResized` events.
pub const WINDOW_RESIZED: u64 = 100;

/// The kind of `RedrawRequested` events.
pub const REDRAW_REQUESTED: u64 = 101;

/// The kind of `WindowCreated` events.
pub const WINDOW_CREATED: u64 = 102;

/// The kind of `WindowCloseRequested` events.
pub const WINDOW_CLOSE_REQUESTED: u64 = 103;

/// The kind of `WindowClosed` events.
pub const WINDOW_CLOSED: u64 = 104;

/// The kind of `WindowDestroyed` events.
pub const WINDOW_DESTROYED: u64 = 105;

/// The kind of `CursorMoved` events.
pub const CURSOR_MOVED: u64 = 106;

/// The kind of `CursorEntered` events.
pub const CURSOR_ENTERED: u64 = 107;

/// The kind of `CursorLeft` events.
pub const CURSOR_LEFT: u64 = 108;

/// The kind of `WindowFocused` events.
pub const WINDOW_FOCUSED: u64 = 109;

/// The kind of `WindowOcclusion` events.
pub const WINDOW_OCCLUSION: u64 = 110;

/// The kind of `FileDragDrop` events.
pub const FILE_DRAG_DROP: u64 = 111;

/// The kind of `WindowMoved` events.
pub const WINDOW_MOVED: u64 = 112;

/// The kind of `WindowThemeChanged` events.
pub const WINDOW_THEME_CHANGED: u64 = 113;

/// The kind of the event by which a window tells that its component was
/// changed and the window of the backend is to follow.
pub const WINDOW_ATTRIBUTES_CHANGED: u64 = 114;

/// An event for signaling a window resize.
#[derive(Clone, Copy, PartialEq, Eq, Structural, PartialOrd, Ord, Hash, Debug, Default)]
pub struct WindowResized {
    pub window: Entity,
    pub width: u32,
    pub height: u32,
}

/// An event signaling a requested redraw of the whole application.
#[derive(Clone, Copy, PartialEq, Eq, Structural, PartialOrd, Ord, Hash, Debug, Default)]
pub struct RedrawRequested;

/// An event signaling a window has been created.
#[derive(Clone, Copy, PartialEq, Eq, Structural, PartialOrd, Ord, Hash, Debug, Default)]
pub struct WindowCreated {
    pub window: Entity,
}

/// An event signaling that a window has been requested to close. The window
/// lives one more update cycle, marked as closing.
#[derive(Clone, Copy, PartialEq, Eq, Structural, PartialOrd, Ord, Hash, Debug, Default)]
pub struct WindowCloseRequested {
    pub window: Entity,
}

/// An event signaling a window has been closed. The corresponding entity no
/// longer exists at the time this is emitted.
#[derive(Clone, Copy, PartialEq, Eq, Structural, PartialOrd, Ord, Hash, Debug, Default)]
pub struct WindowClosed {
    pub window: Entity,
}

/// An event signaling a window has been destroyed.
#[derive(Clone, Copy, PartialEq, Eq, Structural, PartialOrd, Ord, Hash, Debug, Default)]
pub struct WindowDestroyed;

/// An event signaling that the cursor has moved within a window.
#[derive(Clone, Copy, PartialEq, Eq, Hash, Debug, Default)]
pub struct CursorMoved {
    pub window: Entity,
    pub position: IVec2,
}

/// An event signaling the cursor has entered a window.
#[derive(Clone, Copy, PartialEq, Eq, Structural, PartialOrd, Ord, Hash, Debug, Default)]
pub struct CursorEntered {
    pub window: Entity,
}

/// An event signaling the cursor has left a window.
#[derive(Clone, Copy, PartialEq, Eq, Structural, PartialOrd, Ord, Hash, Debug, Default)]
pub struct CursorLeft {
    pub window: Entity,
}

/// An event signaling a focus change for a window.
#[derive(Clone, Copy, PartialEq, Eq, Structural, PartialOrd, Ord, Hash, Debug, Default)]
pub struct WindowFocused {
    pub window: Entity,
    pub focus: bool,
}

/// An event signaling the window's occlusion has changed.
#[derive(Clone, Copy, PartialEq, Eq, Structural, PartialOrd, Ord, Hash, Debug)]
pub enum WindowOcclusion {
    /// The window is occluded by another window.
    Occluded { window: Entity },
    /// The window is not occluded anymore.
    NotOccluded { window: Entity },
}

/// An event signaling file drag and drops.
#[derive(Clone, PartialEq, Eq, PartialOrd, Ord, Hash, Debug)]
pub enum FileDragDrop {
    /// A file has been dropped on a window.
    Dropped { window: Entity, path: PathBuf },
    /// A file is hovering over a window.
    Hovered { window: Entity, path: PathBuf },
    /// A file hover has been canceled.
    HoverCanceled { window: Entity },
}

/// An event signaling that the window has moved.
#[derive(Clone, Copy, PartialEq, Eq, Hash, Debug, Default)]
pub struct WindowMoved {
    pub window: Entity,
    pub position: IVec2,
}

/// An event signaling that the window's theme variant changed.
#[derive(Clone, Copy, PartialEq, Eq, Structural, PartialOrd, Ord, Hash, Debug, Default)]
pub struct WindowThemeChanged {
    pub window: Entity,
    pub theme: WindowTheme,
}

} // verus!
