//! Schedules: named phases, each with its systems and their compiled plan.

use vstd::prelude::*;
use crate::error::PlanCompilationError;
use crate::plan::{compile_plan, graph_of, Plan, SystemEntry};

verus! {

/// A phase of the application, identified by a token of its own. The
/// library's own schedules have the tokens below one hundred.
pub trait AppSchedule {
    /// The token of this schedule, as contracts speak of it.
    spec fn token() -> u64;

    /// The token of this schedule.
    fn tag() -> (tag: u64)
        ensures
            tag == Self::token(),
    ;
}

/// Runs once, before the first frame.
pub struct Startup;

/// The first phase of every frame.
pub struct PreUpdate;

/// The main phase of every frame.
pub struct Update;

/// The last phase of every frame.
pub struct PostUpdate;

impl AppSchedule for Startup {
    open spec fn token() -> u64 {
        0
    }

    fn tag() -> (tag: u64) {
        0
    }
}

impl AppSchedule for PreUpdate {
    open spec fn token() -> u64 {
        1
    }

    fn tag() -> (tag: u64) {
        1
    }
}

impl AppSchedule for Update {
    open spec fn token() -> u64 {
        2
    }

    fn tag() -> (tag: u64) {
        2
    }
}

impl AppSchedule for PostUpdate {
    open spec fn token() -> u64 {
        3
    }

    fn tag() -> (tag: u64) {
        3
    }
}

/// The systems of one phase, in registration order, and the plan compiled
/// from them.
pub struct Schedule<S> {
    systems: Vec<SystemEntry<S>>,
    plan: Plan,
}

impl<S> Schedule<S> {
    /// The registered systems, in registration order.
    pub closed spec fn systems(&self) -> Seq<SystemEntry<S>> {
        self.systems@
    }

    /// The compiled plan.
    pub closed spec fn plan(&self) -> Seq<Seq<int>> {
        self.plan@
    }

    /// The plan is the execution plan of the registered systems.
    pub open spec fn wf(&self) -> bool {
        graph_of(self.systems()).is_plan(self.plan())
    }

    /// The same systems and the same plan as `other`.
    pub open spec fn unchanged(&self, other: Schedule<S>) -> bool {
        self.systems() == other.systems() && self.plan() == other.plan()
    }

    /// A schedule without systems.
    pub fn new() -> (schedule: Schedule<S>)
        ensures
            schedule.wf(),
            schedule.systems() == Seq::<SystemEntry<S>>::empty(),
            schedule.plan() == Seq::<Seq<int>>::empty(),
    {
        Schedule { systems: Vec::new(), plan: Plan::new() }
    }

    /// Appends `entries` to the systems and compiles the plan of all systems
    /// anew. Where they cannot be ordered the schedule stays as it was.
    pub fn add_systems(&mut self, entries: Vec<SystemEntry<S>>) -> (r: Result<
        (),
        PlanCompilationError,
    >)
        requires
            old(self).wf(),
        ensures
            final(self).wf(),
            match r {
                Ok(()) => final(self).systems() == old(self).systems() + entries@ && graph_of(
                    final(self).systems(),
                ).all_known() && !graph_of(final(self).systems()).has_cycle(),
                Err(PlanCompilationError::UnknownDependency) => final(self).unchanged(*old(self))
                    && !graph_of(old(self).systems() + entries@).all_known(),
                Err(PlanCompilationError::CycleDetected) => final(self).unchanged(*old(self))
                    && graph_of(old(self).systems() + entries@).all_known() && graph_of(
                    old(self).systems() + entries@,
                ).has_cycle(),
            },
    {
        let kept = self.systems.len();
        let mut more = entries;
        self.systems.append(&mut more);
        match compile_plan(&self.systems) {
            Ok(plan) => {
                self.plan = plan;
                Ok(())
            },
            Err(e) => {
                self.systems.truncate(kept);
                assert(self.systems@ =~= old(self).systems@);
                Err(e)
            },
        }
    }

    /// The plan of the registered systems.
    pub fn compiled(&self) -> (plan: &Plan)
        ensures
            plan@ == self.plan(),
    {
        &self.plan
    }

    /// The systems of wave `w` of the plan, in the order of the wave: what is
    /// run at the same time when the plan reaches that wave.
    pub fn wave_members(&self, w: usize) -> (members: Vec<&S>)
        requires
            self.wf(),
            w < self.plan().len(),
        ensures
            members@.len() == self.plan()[w as int].len(),
            forall|p: int|
                0 <= p < members@.len() ==> 0 <= self.plan()[w as int][p] < self.systems().len()
                    && *(#[trigger] members@[p]) == self.systems()[self.plan()[w as int][p]].run,
    {
        let wave = self.plan.wave(w);
        let mut members: Vec<&S> = Vec::new();
        let mut p: usize = 0;
        while p < wave.len()
            invariant
                self.wf(),
                w < self.plan().len(),
                crate::plan::wave_model(wave@) == self.plan()[w as int],
                p <= wave.len(),
                members@.len() == p,
                forall|q: int|
                    0 <= q < p ==> 0 <= self.plan()[w as int][q] < self.systems().len() && *(
                    #[trigger] members@[q]) == self.systems()[self.plan()[w as int][q]].run,
            decreases wave.len() - p,
        {
            proof {
                assert(self.plan()[w as int][p as int] == wave@[p as int] as int);
                assert(0 <= self.plan()[w as int][p as int] < self.systems().len());
            }
            members.push(&self.systems[wave[p]].run);
            p += 1;
        }
        members
    }

    /// The number of registered systems.
    pub fn len(&self) -> (n: usize)
        ensures
            n == self.systems().len(),
    {
        self.systems.len()
    }

    /// The system registered as number `i`.
    pub fn system(&self, i: usize) -> (entry: &SystemEntry<S>)
        requires
            i < self.systems().len(),
        ensures
            *entry == self.systems()[i as int],
    {
        &self.systems[i]
    }
}

} // verus!
