use vstd::prelude::*;

verus! {

/// Why a set of systems could not be compiled into an execution plan.
#[derive(Clone, Copy, PartialEq, Eq, Structural, Debug)]
pub enum PlanCompilationError {
    /// A system names a dependency that no system of the same schedule carries.
    UnknownDependency,
    /// Some systems wait on each other in a circle, so none of them could ever start.
    CycleDetected,
}

/// Errors of the schedule registry.
#[derive(Clone, Copy, PartialEq, Eq, Structural, Debug)]
pub enum ScheduleError {
    /// The schedule requested is not registered.
    ScheduleNotRegistered,
    /// The schedule's systems cannot be ordered.
    PlanCompilation(PlanCompilationError),
    /// A system of the schedule raised an event of a kind that was never registered.
    EventNotRegistered,
}

/// The store of entities, components and resources refused a call: it does
/// not hold what was asked for.
#[derive(Clone, Copy, PartialEq, Eq, Structural, Debug)]
pub struct StoreError;

/// Errors of the event bus.
#[derive(Clone, Copy, PartialEq, Eq, Structural, Debug)]
pub enum EventError {
    /// The event kind was never registered.
    EventNotRegistered,
    /// The systems reacting to the event kind cannot be ordered.
    PlanCompilation(PlanCompilationError),
}

} // verus!
