//! The application kernel of an entity-component-system framework:
//! dependency-ordered schedules, an event bus, idempotent modules and the
//! mirroring of entities between a simulation world and a render world.

pub mod app;
pub mod button_map;
pub mod entity;
pub mod error;
pub mod events;
pub mod extracted_windows;
pub mod input;
pub mod keyboard;
pub mod modules;
pub mod plan;
pub mod schedule;
pub mod sync;
pub mod window;
pub mod window_event;
pub mod windowing;
pub mod world;
