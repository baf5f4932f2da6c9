//! The application: modules, the schedule registry, the event bus and the
//! frame that runs them.

use vstd::prelude::*;
use magma_ecs::World;
use crate::error::{EventError, PlanCompilationError, ScheduleError};
use crate::events::{extends, lemma_extends_twice, lemma_pending_kinds, pending_kinds, Events};
use crate::plan::laws::{
    lemma_dependency_runs_earlier, lemma_started_after_dependencies, lemma_started_once,
};
use crate::plan::{graph_of, started, wave_model, wave_of, SystemEntry};
use crate::schedule::{AppSchedule, PostUpdate, PreUpdate, Schedule, Startup, Update};
use crate::world::{run_wave, Store, System};

verus! {

/// The application. `S` is the type of its systems, `E` the type that
/// carries its events.
pub struct App<S, E> {
    store: Store,
    events: Events<E>,
    modules: Vec<u64>,
    tags: Vec<u64>,
    schedules: Vec<Schedule<S>>,
    event_schedules: Vec<Schedule<S>>,
}

impl<S, E> App<S, E> {
    /// The tokens of the modules that were added, in the order of their adding.
    pub closed spec fn modules(&self) -> Seq<u64> {
        self.modules@
    }

    /// A module with token `id` was added.
    pub open spec fn has_module(&self, id: u64) -> bool {
        self.modules().contains(id)
    }

    /// The tags of the registered schedules, in the order of registration.
    pub closed spec fn schedule_tags(&self) -> Seq<u64> {
        self.tags@
    }

    /// A schedule is registered under `tag`.
    pub open spec fn has_schedule(&self, tag: u64) -> bool {
        self.schedule_tags().contains(tag)
    }

    /// The schedule registered under `tag`.
    pub closed spec fn schedule(&self, tag: u64) -> Schedule<S> {
        self.schedules@[self.tags@.index_of(tag)]
    }

    /// The order in which a run of the schedule under `tag` starts the
    /// systems, given by their numbers in the schedule: wave by wave.
    pub open spec fn run_order(&self, tag: u64) -> Seq<int> {
        started(self.schedule(tag).plan(), self.schedule(tag).plan().len() as int)
    }

    /// `run` lists what a run of the schedule under `tag` started: the
    /// systems of the first waves of the plan, as many as `run.waves` says,
    /// and all of them where the run came to its end. Without a schedule
    /// under `tag` nothing is started.
    pub open spec fn listed(&self, tag: u64, run: Run) -> bool {
        if self.has_schedule(tag) {
            run.lists(self.schedule(tag).plan())
        } else {
            &&& run.waves == 0
            &&& wave_model(run.started@) == Seq::<int>::empty()
        }
    }

    /// No system reacts to a pending event: every kind whose queue holds an
    /// event has no reacting systems.
    pub open spec fn dispatch_is_idle(&self) -> bool {
        forall|kind: u64| #[trigger]
            pending_kinds(self.event_kinds(), self.queues()).contains(kind)
                ==> self.event_schedule(kind).plan().len() == 0
    }

    /// A frame calls no system: the three phases have no systems, and no
    /// system reacts to a pending event.
    pub open spec fn frame_is_idle(&self) -> bool {
        &&& self.schedule(PreUpdate::token()).plan().len() == 0
        &&& self.schedule(Update::token()).plan().len() == 0
        &&& self.schedule(PostUpdate::token()).plan().len() == 0
        &&& self.dispatch_is_idle()
    }

    /// `dispatch` lists what a dispatch of the pending events started: for
    /// every kind of `dispatch.kinds`, and in their order, one run of the
    /// systems that react to that kind. The dispatch succeeds exactly where
    /// every one of these runs came to its end.
    pub open spec fn reacted(&self, dispatch: Dispatch) -> bool {
        &&& dispatch.runs@.len() == dispatch.kinds@.len()
        &&& forall|i: int|
            0 <= i < dispatch.kinds@.len() ==> self.event_kinds().contains(
                #[trigger] dispatch.kinds@[i],
            )
        &&& forall|i: int|
            0 <= i < dispatch.runs@.len() ==> (#[trigger] dispatch.runs@[i]).lists(
                self.event_schedule(dispatch.kinds@[i]).plan(),
            )
        &&& dispatch.result.is_ok() <==> forall|i: int|
            0 <= i < dispatch.runs@.len() ==> (#[trigger] dispatch.runs@[i]).result.is_ok()
    }

    /// `frame` lists what a frame started: the runs of PreUpdate, Update
    /// and PostUpdate in this order, up to the first that did not come to
    /// its end; and behind three phases that came to their end, the
    /// dispatch of the pending events. The frame succeeds exactly where the
    /// dispatch was made and succeeded.
    pub open spec fn framed(&self, frame: Frame) -> bool {
        &&& 1 <= frame.phases@.len() <= 3
        &&& forall|i: int|
            0 <= i < frame.phases@.len() ==> self.listed(
                frame_phases()[i],
                #[trigger] frame.phases@[i],
            )
        &&& forall|i: int|
            0 <= i < frame.phases@.len() - 1 ==> (#[trigger] frame.phases@[i]).result.is_ok()
        &&& match frame.dispatch {
            Some(dispatch) => {
                &&& frame.phases@.len() == 3
                &&& frame.phases@[2].result.is_ok()
                &&& self.reacted(dispatch)
                &&& frame.result.is_ok() == dispatch.result.is_ok()
            },
            None => frame.phases@[frame.phases@.len() - 1].result.is_err()
                && frame.result.is_err(),
        }
    }

    /// `session` lists what a run of the application over `frames` frames
    /// started: Startup once, and behind a Startup that came to its end the
    /// frames in their order, up to the first that did not come to its end.
    /// The run succeeds exactly where Startup and all `frames` frames came
    /// to their end.
    pub open spec fn ran(&self, frames: u64, session: Session) -> bool {
        &&& self.listed(Startup::token(), session.startup)
        &&& session.frames@.len() <= frames
        &&& session.startup.result.is_err() ==> session.frames@.len() == 0
        &&& forall|i: int|
            0 <= i < session.frames@.len() ==> self.framed(#[trigger] session.frames@[i])
        &&& forall|i: int|
            0 <= i < session.frames@.len() - 1 ==> (#[trigger] session.frames@[i]).result.is_ok()
        &&& session.result.is_ok() <==> session.startup.result.is_ok() && session.frames@.len()
            == frames && (frames > 0 ==> session.frames@[frames - 1].result.is_ok())
    }

    /// The registered event kinds, in the order of registration.
    pub closed spec fn event_kinds(&self) -> Seq<u64> {
        self.events.registered()
    }

    /// The queue of every registered event kind, oldest event first.
    pub closed spec fn queues(&self) -> Map<u64, Seq<E>> {
        self.events@
    }

    /// The event kind `kind` is registered.
    pub open spec fn has_event(&self, kind: u64) -> bool {
        self.queues().dom().contains(kind)
    }

    /// The systems that react to events of `kind`.
    pub closed spec fn event_schedule(&self, kind: u64) -> Schedule<S> {
        self.event_schedules@[self.events.registered().index_of(kind)]
    }

    /// The four schedules of every application are registered.
    pub open spec fn has_default_schedules(&self) -> bool {
        &&& self.has_schedule(Startup::token())
        &&& self.has_schedule(PreUpdate::token())
        &&& self.has_schedule(Update::token())
        &&& self.has_schedule(PostUpdate::token())
    }

    /// The registries are consistent: every tag and every event kind stands
    /// for one schedule, and every schedule's plan is the plan of its systems.
    pub closed spec fn wf(&self) -> bool {
        &&& self.events.wf()
        &&& self.registry_wf()
        &&& self.event_schedules@.len() == self.events.registered().len()
        &&& forall|i: int|
            0 <= i < self.event_schedules@.len() ==> (#[trigger] self.event_schedules@[i]).wf()
        &&& self.has_default_schedules()
    }

    /// Every tag stands for one schedule, and every schedule's plan is the
    /// plan of its systems.
    spec fn registry_wf(&self) -> bool {
        &&& self.tags@.len() == self.schedules@.len()
        &&& self.tags@.no_duplicates()
        &&& forall|i: int| 0 <= i < self.schedules@.len() ==> (#[trigger] self.schedules@[i]).wf()
    }

    /// Whatever was registered in `before` is registered here: modules,
    /// schedules and event kinds are never taken away.
    pub open spec fn keeps(&self, before: App<S, E>) -> bool {
        &&& forall|id: u64| #[trigger] before.has_module(id) ==> self.has_module(id)
        &&& forall|tag: u64| #[trigger] before.has_schedule(tag) ==> self.has_schedule(tag)
        &&& forall|kind: u64| #[trigger] before.has_event(kind) ==> self.has_event(kind)
    }

    /// What `wf` says of registered schedules and event kinds.
    pub proof fn lemma_wf(&self)
        requires
            self.wf(),
        ensures
            self.has_default_schedules(),
            self.schedule_tags().no_duplicates(),
            self.event_kinds().no_duplicates(),
            forall|tag: u64| #[trigger] self.has_schedule(tag) ==> self.schedule(tag).wf(),
            forall|kind: u64| #[trigger] self.has_event(kind) ==> self.event_schedule(kind).wf(),
            forall|kind: u64| self.has_event(kind) <==> self.event_kinds().contains(kind),
    {
        self.events.lemma_registered();
        assert forall|tag: u64| #[trigger] self.has_schedule(tag) implies self.schedule(tag).wf() by {
            let i = self.tags@.index_of(tag);
            assert(self.tags@[i] == tag);
            assert(self.schedules@[i].wf());
        }
        assert forall|kind: u64| #[trigger] self.has_event(kind) implies self.event_schedule(kind).wf() by {
            assert(self.events.registered().contains(kind));
            let i = self.events.registered().index_of(kind);
            assert(self.events.registered()[i] == kind);
            assert(self.event_schedules@[i].wf());
        }
    }

    /// In the plan of a registered schedule every system stands in a later
    /// wave than each system it waits for: when it runs, they have run.
    pub proof fn lemma_dependency_order(&self, tag: u64, i: int, j: int)
        requires
            self.wf(),
            self.has_schedule(tag),
            graph_of(self.schedule(tag).systems()).depends_on(i, j),
        ensures
            0 <= wave_of(self.schedule(tag).plan(), j) < wave_of(
                self.schedule(tag).plan(),
                i,
            ) < self.schedule(tag).plan().len(),
    {
        self.lemma_wf();
        lemma_dependency_runs_earlier(
            graph_of(self.schedule(tag).systems()),
            self.schedule(tag).plan(),
            i,
            j,
        );
    }

    /// A run of a registered schedule that comes to its end starts every
    /// system of the schedule once, and after every system that it waits
    /// for: `a` and `b` are the places of `i` and of `j`, for which `i`
    /// waits, in the order of the starting.
    pub proof fn lemma_run_order(&self, tag: u64, i: int, j: int, a: int, b: int)
        requires
            self.wf(),
            self.has_schedule(tag),
            graph_of(self.schedule(tag).systems()).depends_on(i, j),
            0 <= a < self.run_order(tag).len(),
            0 <= b < self.run_order(tag).len(),
            self.run_order(tag)[a] == i,
            self.run_order(tag)[b] == j,
        ensures
            b < a,
            self.run_order(tag).contains(i),
            self.run_order(tag).contains(j),
            forall|c: int| 0 <= c < self.run_order(tag).len() && self.run_order(tag)[c] == i ==> c == a,
            forall|c: int| 0 <= c < self.run_order(tag).len() && self.run_order(tag)[c] == j ==> c == b,
    {
        self.lemma_wf();
        let g = graph_of(self.schedule(tag).systems());
        let plan = self.schedule(tag).plan();
        lemma_started_after_dependencies(g, plan, i, j, a, b);
        lemma_started_once(g, plan, i);
        lemma_started_once(g, plan, j);
    }

    /// The place of `tag` among the registered schedules.
    fn schedule_index(&self, tag: u64) -> (at: Option<usize>)
        requires
            self.registry_wf(),
        ensures
            match at {
                Some(i) => i < self.tags@.len() && self.tags@[i as int] == tag
                    && self.tags@.index_of(tag) == i,
                None => !self.has_schedule(tag),
            },
    {
        let mut i: usize = 0;
        while i < self.tags.len()
            invariant
                i <= self.tags.len(),
                self.tags@.no_duplicates(),
                forall|j: int| 0 <= j < i ==> self.tags@[j] != tag,
            decreases self.tags.len() - i,
        {
            if self.tags[i] == tag {
                proof {
                    let j = self.tags@.index_of(tag);
                    assert(self.tags@.contains(tag));
                    assert(0 <= j < self.tags@.len() && self.tags@[j] == tag);
                }
                return Some(i);
            }
            i += 1;
        }
        None
    }

    /// Registers a schedule under `tag` unless one is registered already.
    fn register_tag(&mut self, tag: u64)
        requires
            old(self).registry_wf(),
        ensures
            final(self).registry_wf(),
            final(self).store == old(self).store,
            final(self).events == old(self).events,
            final(self).modules == old(self).modules,
            final(self).event_schedules == old(self).event_schedules,
            final(self).has_schedule(tag),
            forall|t: u64| final(self).has_schedule(t) <==> t == tag || old(self).has_schedule(t),
            forall|t: u64| #[trigger]
                old(self).has_schedule(t) ==> final(self).schedule(t) == old(self).schedule(t),
            old(self).has_schedule(tag) ==>
                final(self).schedule_tags() == old(self).schedule_tags(),
            !old(self).has_schedule(tag) ==>
                final(self).schedule_tags() == old(self).schedule_tags().push(tag)
                    && final(self).schedule(tag).systems() == Seq::<SystemEntry<S>>::empty() && final(self).schedule(tag).plan() == Seq::<Seq<int>>::empty(),
    {
        match self.schedule_index(tag) {
            Some(_) => {},
            None => {
                self.tags.push(tag);
                self.schedules.push(Schedule::new());
                proof {
                    let n = old(self).tags@.len() as int;
                    assert(self.tags@[n] == tag);
                    assert forall|t: u64| #[trigger] old(self).has_schedule(t) implies
                        self.schedule(t) == old(self).schedule(t) by {
                        let i = old(self).tags@.index_of(t);
                        assert(self.tags@[i] == t);
                        assert(self.tags@.contains(t));
                        let j = self.tags@.index_of(t);
                        assert(self.tags@[j] == t);
                    }
                    assert forall|t: u64| self.has_schedule(t) <==>
                        t == tag || old(self).has_schedule(t) by {
                        if old(self).has_schedule(t) {
                            let i = old(self).tags@.index_of(t);
                            assert(self.tags@[i] == t);
                        }
                        if self.has_schedule(t) && t != tag {
                            let j = self.tags@.index_of(t);
                            assert(old(self).tags@[j] == t);
                        }
                    }
                    let j = self.tags@.index_of(tag);
                    assert(self.tags@[j] == tag);
                }
            },
        }
    }
}

impl<S, E> Default for App<S, E> {
    /// The application that `App::new` makes.
    fn default() -> (app: App<S, E>)
        ensures
            app.wf(),
            app.modules() == Seq::<u64>::empty(),
            app.queues() == Map::<u64, Seq<E>>::empty(),
            app.event_kinds() == Seq::<u64>::empty(),
            app.schedule_tags() == seq![
                Startup::token(),
                PreUpdate::token(),
                Update::token(),
                PostUpdate::token(),
            ],
            forall|tag: u64| #[trigger]
                app.has_schedule(tag) ==> app.schedule(tag).systems() == Seq::<
                    SystemEntry<S>,
                >::empty() && app.schedule(tag).plan() == Seq::<Seq<int>>::empty(),
            !app.store().sealed(),
    {
        App::new()
    }
}

impl<S, E> App<S, E> {
    /// An application with the four default schedules, all without systems,
    /// and nothing else.
    pub fn new() -> (app: App<S, E>)
        ensures
            app.wf(),
            app.modules() == Seq::<u64>::empty(),
            app.queues() == Map::<u64, Seq<E>>::empty(),
            app.event_kinds() == Seq::<u64>::empty(),
            app.schedule_tags() == seq![
                Startup::token(),
                PreUpdate::token(),
                Update::token(),
                PostUpdate::token(),
            ],
            forall|tag: u64| #[trigger]
                app.has_schedule(tag) ==> app.schedule(tag).systems() == Seq::<
                    SystemEntry<S>,
                >::empty() && app.schedule(tag).plan() == Seq::<Seq<int>>::empty(),
            !app.store().sealed(),
    {
        let mut app = App {
            store: Store::new(),
            events: Events::new(),
            modules: Vec::new(),
            tags: Vec::new(),
            schedules: Vec::new(),
            event_schedules: Vec::new(),
        };
        app.register_tag(Startup::tag());
        app.register_tag(PreUpdate::tag());
        app.register_tag(Update::tag());
        app.register_tag(PostUpdate::tag());
        proof {
            assert(app.schedule_tags() =~= seq![
                Startup::token(),
                PreUpdate::token(),
                Update::token(),
                PostUpdate::token(),
            ]);
        }
        app
    }

    /// Registers the schedule `T` with no systems. Where `T` is registered
    /// already nothing changes.
    pub fn register_schedule<T: AppSchedule>(&mut self)
        requires
            old(self).wf(),
        ensures
            final(self).wf(),
            final(self).keeps(*old(self)),
            final(self).has_schedule(T::token()),
            final(self).modules() == old(self).modules(),
            final(self).store() == old(self).store(),
            final(self).queues() == old(self).queues(),
            final(self).event_kinds() == old(self).event_kinds(),
            forall|kind: u64| final(self).event_schedule(kind) == old(self).event_schedule(kind),
            forall|t: u64| final(self).has_schedule(t) <==>
                t == T::token() || old(self).has_schedule(t),
            forall|t: u64| #[trigger]
                old(self).has_schedule(t) ==> final(self).schedule(t) == old(self).schedule(t),
            old(self).has_schedule(T::token()) ==>
                final(self).schedule_tags() == old(self).schedule_tags(),
            !old(self).has_schedule(T::token()) ==>
                final(self).schedule_tags() == old(self).schedule_tags().push(T::token())
                && final(self).schedule(T::token()).systems() == Seq::<SystemEntry<S>>::empty()
                && final(self).schedule(T::token()).plan() == Seq::<Seq<int>>::empty(),
    {
        self.register_tag(T::tag());
    }

    /// Whether a schedule is registered under `tag`.
    pub fn is_schedule_registered(&self, tag: u64) -> (b: bool)
        requires
            self.wf(),
        ensures
            b == self.has_schedule(tag),
    {
        self.schedule_index(tag).is_some()
    }

    /// Appends `systems` to the schedule `T` and compiles its plan anew.
    /// Where `T` is not registered, or the systems of `T` together with the
    /// new ones cannot be ordered, nothing changes and the error says why.
    pub fn add_systems<T: AppSchedule>(&mut self, systems: Vec<SystemEntry<S>>) -> (r: Result<
        (),
        ScheduleError,
    >)
        requires
            old(self).wf(),
        ensures
            final(self).wf(),
            final(self).keeps(*old(self)),
            final(self).modules() == old(self).modules(),
            final(self).queues() == old(self).queues(),
            final(self).event_kinds() == old(self).event_kinds(),
            final(self).schedule_tags() == old(self).schedule_tags(),
            forall|kind: u64| final(self).event_schedule(kind) == old(self).event_schedule(kind),
            forall|t: u64| #[trigger]
                old(self).has_schedule(t) && t != T::token() ==>
                    final(self).schedule(t) == old(self).schedule(t),
            match r {
                Ok(()) => old(self).has_schedule(T::token())
                    && final(self).schedule(T::token()).systems()
                        == old(self).schedule(T::token()).systems() + systems@
                    && final(self).schedule(T::token()).wf()
                    && graph_of(final(self).schedule(T::token()).systems()).all_known()
                    && !graph_of(final(self).schedule(T::token()).systems()).has_cycle(),
                Err(ScheduleError::ScheduleNotRegistered) => !old(self).has_schedule(T::token()),
                Err(ScheduleError::PlanCompilation(e)) => old(self).has_schedule(T::token())
                    && final(self).schedule(T::token()).unchanged(old(self).schedule(T::token()))
                    && rejected(old(self).schedule(T::token()).systems() + systems@, e),
                Err(ScheduleError::EventNotRegistered) => false,
            },
    {
        let tag = T::tag();
        match self.schedule_index(tag) {
            None => Err(ScheduleError::ScheduleNotRegistered),
            Some(i) => {
                let r = self.schedules[i].add_systems(systems);
                proof {
                    assert forall|t: u64| #[trigger] old(self).has_schedule(t)
                        && t != tag implies self.schedule(t) == old(self).schedule(t) by {
                        let j = self.tags@.index_of(t);
                        assert(self.tags@[j] == t);
                    }
                    assert forall|j: int| 0 <= j < self.schedules@.len() implies
                        (#[trigger] self.schedules@[j]).wf() by {
                        if j != i {
                            assert(old(self).schedules@[j].wf());
                        }
                    }
                }
                match r {
                    Ok(()) => Ok(()),
                    Err(e) => Err(ScheduleError::PlanCompilation(e)),
                }
            },
        }
    }
}

/// Why `systems` cannot be ordered: `e` is the error of their compilation.
pub open spec fn rejected<S>(systems: Seq<SystemEntry<S>>, e: PlanCompilationError) -> bool {
    match e {
        PlanCompilationError::UnknownDependency => !graph_of(systems).all_known(),
        PlanCompilationError::CycleDetected => graph_of(systems).all_known() && graph_of(
            systems,
        ).has_cycle(),
    }
}

/// What one run of a schedule did.
#[derive(PartialEq, Eq, Debug)]
pub struct Run {
    /// Whether the run came to its end.
    pub result: Result<(), ScheduleError>,
    /// The number of waves that the run started.
    pub waves: usize,
    /// The systems that the run started, by their numbers in the schedule,
    /// in the order of the starting.
    pub started: Vec<usize>,
}

impl Run {
    /// This run lists what a run of `plan` started: the systems of the
    /// first waves of the plan, as many as `waves` says; all of them where
    /// the run came to its end, and at least one wave where it did not.
    pub open spec fn lists(&self, plan: Seq<Seq<int>>) -> bool {
        &&& self.waves <= plan.len()
        &&& wave_model(self.started@) == started(plan, self.waves as int)
        &&& self.result.is_ok() ==> self.waves == plan.len()
        &&& self.result.is_err() ==> self.waves > 0
    }

    /// Whether the run came to its end.
    pub fn ended(&self) -> (b: bool)
        ensures
            b == self.result.is_ok(),
    {
        match self.result {
            Ok(()) => true,
            Err(_) => false,
        }
    }
}

/// What one dispatch of the pending events did.
#[derive(PartialEq, Eq, Debug)]
pub struct Dispatch {
    /// Whether every system that reacted raised registered kinds only.
    pub result: Result<(), EventError>,
    /// The kinds that had a pending event when the dispatch began, in the
    /// order of their registration.
    pub kinds: Vec<u64>,
    /// The runs of the reacting systems, one for every kind of `kinds`, in
    /// their order.
    pub runs: Vec<Run>,
}

impl Dispatch {
    /// Whether every system that reacted raised registered kinds only.
    pub fn succeeded(&self) -> (b: bool)
        ensures
            b == self.result.is_ok(),
    {
        match self.result {
            Ok(()) => true,
            Err(_) => false,
        }
    }
}

/// What one frame did.
#[derive(PartialEq, Eq, Debug)]
pub struct Frame {
    /// Whether the frame came to its end.
    pub result: Result<(), ScheduleError>,
    /// The runs of the phases in the order of the running: PreUpdate,
    /// Update, PostUpdate, up to the first that did not come to its end.
    pub phases: Vec<Run>,
    /// The dispatch of the pending events, which follows the three phases
    /// where all of them came to their end.
    pub dispatch: Option<Dispatch>,
}

impl Frame {
    /// Whether the frame came to its end.
    pub fn ended(&self) -> (b: bool)
        ensures
            b == self.result.is_ok(),
    {
        match self.result {
            Ok(()) => true,
            Err(_) => false,
        }
    }
}

/// What one run of the application did.
#[derive(PartialEq, Eq, Debug)]
pub struct Session {
    /// Whether Startup and every frame came to their end.
    pub result: Result<(), ScheduleError>,
    /// The run of Startup, which comes before the first frame.
    pub startup: Run,
    /// The frames in the order of the running, up to the first that did not
    /// come to its end.
    pub frames: Vec<Frame>,
}

/// The phases of a frame, in the order of the running.
pub open spec fn frame_phases() -> Seq<u64> {
    seq![PreUpdate::token(), Update::token(), PostUpdate::token()]
}

/// Runs the plan of `schedule` wave by wave, from the first wave on. After
/// each wave the events that its systems raised are queued, in the order of
/// the systems in the wave; the first event of an unregistered kind ends
/// the run. Returns, behind the result, the number of the waves that were
/// started and their systems in the order of the starting.
fn run_plan<S: System<E> + Sync, E: Send + Sync>(
    schedule: &Schedule<S>,
    store: &Store,
    events: &mut Events<E>,
) -> (r: (Result<(), EventError>, usize, Vec<usize>))
    requires
        schedule.wf(),
        old(events).wf(),
        store.sealed(),
    ensures
        final(events).wf(),
        final(events).registered() == old(events).registered(),
        extends(old(events)@, final(events)@),
        r.0.is_err() ==> r.0 == Err::<(), EventError>(EventError::EventNotRegistered),
        schedule.plan().len() == 0 ==> r.0.is_ok() && final(events)@ == old(events)@,
        r.1 <= schedule.plan().len(),
        r.0.is_ok() ==> r.1 == schedule.plan().len(),
        r.0.is_err() ==> r.1 > 0,
        wave_model(r.2@) == started(schedule.plan(), r.1 as int),
{
    let plan = schedule.compiled();
    let mut list: Vec<usize> = Vec::new();
    let mut w: usize = 0;
    proof {
        lemma_extends_same(old(events)@);
        assert(wave_model(list@) =~= started(plan@, 0));
    }
    while w < plan.len()
        invariant
            schedule.wf(),
            store.sealed(),
            plan@ == schedule.plan(),
            w <= plan@.len(),
            events.wf(),
            events.registered() == old(events).registered(),
            extends(old(events)@, events@),
            w == 0 ==> events@ == old(events)@,
            wave_model(list@) == started(plan@, w as int),
        decreases plan@.len() - w,
    {
        let members = schedule.wave_members(w);
        let raised = run_wave(&members, store, &*events);
        let wave = plan.wave(w);
        let mut p: usize = 0;
        proof {
            assert(wave_model(wave@).take(0) =~= Seq::<int>::empty());
            assert(wave_model(list@) =~= started(plan@, w as int) + wave_model(wave@).take(0));
        }
        while p < wave.len()
            invariant
                w < plan@.len(),
                p <= wave.len(),
                wave_model(wave@) == plan@[w as int],
                wave_model(list@) == started(plan@, w as int) + wave_model(wave@).take(p as int),
            decreases wave.len() - p,
        {
            let ghost before = list@;
            list.push(wave[p]);
            proof {
                assert(wave_model(list@) =~= wave_model(before).push(wave@[p as int] as int));
                assert(wave_model(wave@).take(p + 1) =~= wave_model(wave@).take(p as int).push(
                    wave@[p as int] as int,
                ));
                assert(wave_model(list@) =~= started(plan@, w as int) + wave_model(wave@).take(
                    p + 1,
                ));
            }
            p += 1;
        }
        proof {
            assert(wave_model(wave@).take(p as int) =~= wave_model(wave@));
            assert(started(plan@, w + 1) == started(plan@, w as int) + plan@[w as int]);
        }
        let ghost before = events@;
        let pushed = events.push_all(raised);
        proof {
            lemma_extends_twice(old(events)@, before, events@);
        }
        match pushed {
            Ok(()) => {},
            Err(_) => {
                return (Err(EventError::EventNotRegistered), w + 1, list);
            },
        }
        w += 1;
    }
    (Ok(()), w, list)
}

/// Queues that did not change grew by nothing.
proof fn lemma_extends_same<E>(queues: Map<u64, Seq<E>>)
    ensures
        extends(queues, queues),
{
    assert forall|kind: u64| #[trigger] queues.dom().contains(kind) implies
        queues[kind].is_prefix_of(queues[kind]) by {}
}

impl<S: System<E> + Sync, E: Send + Sync> App<S, E> {
    /// Runs the plan of the schedule registered under `tag` and lists what
    /// the run started.
    fn run_tag(&mut self, tag: u64) -> (run: Run)
        requires
            old(self).wf(),
        ensures
            final(self).wf(),
            final(self).modules == old(self).modules,
            final(self).tags == old(self).tags,
            final(self).schedules == old(self).schedules,
            final(self).event_schedules == old(self).event_schedules,
            final(self).events.registered() == old(self).events.registered(),
            extends(old(self).events@, final(self).events@),
            match run.result {
                Ok(()) => old(self).has_schedule(tag),
                Err(ScheduleError::ScheduleNotRegistered) => !old(self).has_schedule(tag)
                    && final(self).events@ == old(self).events@,
                Err(ScheduleError::EventNotRegistered) => old(self).has_schedule(tag),
                Err(ScheduleError::PlanCompilation(_)) => false,
            },
            old(self).has_schedule(tag) && old(self).schedule(tag).plan().len() == 0
                ==> run.result.is_ok() && final(self).events@ == old(self).events@,
            old(self).listed(tag, run),
            final(self).store.sealed() == (old(self).store.sealed() || old(self).has_schedule(tag)),
    {
        proof {
            lemma_extends_same(self.events@);
        }
        match self.schedule_index(tag) {
            None => {
                let run = Run {
                    result: Err(ScheduleError::ScheduleNotRegistered),
                    waves: 0,
                    started: Vec::new(),
                };
                proof {
                    assert(wave_model(run.started@) =~= Seq::<int>::empty());
                }
                run
            },
            Some(i) => {
                self.store.seal();
                let (result, waves, list) = run_plan(
                    &self.schedules[i],
                    &self.store,
                    &mut self.events,
                );
                match result {
                    Ok(()) => Run { result: Ok(()), waves, started: list },
                    Err(_) => Run {
                        result: Err(ScheduleError::EventNotRegistered),
                        waves,
                        started: list,
                    },
                }
            },
        }
    }

    /// Runs the schedule `T` as `run_schedule` does, and lists what the run
    /// started: the waves of the plan from the first on, each after the
    /// one before it was done, up to the wave in which a system raised an
    /// event of an unregistered kind, or all of them.
    pub fn run_schedule_listed<T: AppSchedule>(&mut self) -> (run: Run)
        requires
            old(self).wf(),
        ensures
            final(self).wf(),
            final(self).keeps(*old(self)),
            final(self).same_setup(*old(self)),
            extends(old(self).queues(), final(self).queues()),
            match run.result {
                Ok(()) => old(self).has_schedule(T::token()),
                Err(ScheduleError::ScheduleNotRegistered) => !old(self).has_schedule(T::token())
                    && final(self).queues() == old(self).queues(),
                Err(ScheduleError::EventNotRegistered) => old(self).has_schedule(T::token()),
                Err(ScheduleError::PlanCompilation(_)) => false,
            },
            old(self).has_schedule(T::token()) && old(self).schedule(T::token()).plan().len() == 0
                ==> run.result.is_ok() && final(self).queues() == old(self).queues(),
            old(self).listed(T::token(), run),
            run.result.is_ok() ==> wave_model(run.started@) == old(self).run_order(T::token()),
            final(self).store().sealed() == (old(self).store().sealed() || old(self).has_schedule(
                T::token(),
            )),
    {
        self.run_tag(T::tag())
    }

    /// Runs the schedule `T`: its plan wave by wave, the systems of a wave
    /// at the same time, a wave after the one before it is done. What the
    /// systems raise is appended to the event queues.
    ///
    /// Fails without running anything where `T` is not registered, and ends
    /// early where a system raises an event of an unregistered kind. The
    /// run of a registered schedule ends the setup of the store.
    pub fn run_schedule<T: AppSchedule>(&mut self) -> (r: Result<(), ScheduleError>)
        requires
            old(self).wf(),
        ensures
            final(self).wf(),
            final(self).keeps(*old(self)),
            final(self).same_setup(*old(self)),
            extends(old(self).queues(), final(self).queues()),
            match r {
                Ok(()) => old(self).has_schedule(T::token()),
                Err(ScheduleError::ScheduleNotRegistered) => !old(self).has_schedule(T::token())
                    && final(self).queues() == old(self).queues(),
                Err(ScheduleError::EventNotRegistered) => old(self).has_schedule(T::token()),
                Err(ScheduleError::PlanCompilation(_)) => false,
            },
            old(self).has_schedule(T::token()) && old(self).schedule(T::token()).plan().len() == 0
                ==> r.is_ok() && final(self).queues() == old(self).queues(),
            final(self).store().sealed() == (old(self).store().sealed() || old(self).has_schedule(
                T::token(),
            )),
            exists|run: Run| #[trigger] old(self).listed(T::token(), run) && run.result == r,
    {
        let run = self.run_schedule_listed::<T>();
        proof {
            assert(old(self).listed(T::token(), run));
        }
        run.result
    }
}

impl<S, E> App<S, E> {
    /// The same schedules as `before`, each with the same systems.
    pub open spec fn same_schedules(&self, before: App<S, E>) -> bool {
        &&& self.schedule_tags() == before.schedule_tags()
        &&& forall|tag: u64| self.schedule(tag) == before.schedule(tag)
    }

    /// The schedules of `before`, each with the same systems, and besides
    /// them at most the schedule under `tag`.
    pub open spec fn schedules_with(&self, before: App<S, E>, tag: u64) -> bool {
        &&& forall|t: u64| #[trigger] self.has_schedule(t) ==> t == tag || before.has_schedule(t)
        &&& forall|t: u64| #[trigger]
            before.has_schedule(t) ==> self.has_schedule(t) && self.schedule(t)
                == before.schedule(t)
    }

    /// Every registered event kind was registered in `before` or is one of
    /// `kinds`.
    pub open spec fn events_from(&self, before: App<S, E>, kinds: Seq<u64>) -> bool {
        forall|kind: u64| #[trigger]
            self.has_event(kind) ==> before.has_event(kind) || kinds.contains(kind)
    }

    /// The same modules, schedules, event kinds and reacting systems as `before`.
    pub open spec fn same_setup(&self, before: App<S, E>) -> bool {
        &&& self.modules() == before.modules()
        &&& self.schedule_tags() == before.schedule_tags()
        &&& self.event_kinds() == before.event_kinds()
        &&& forall|tag: u64| self.schedule(tag) == before.schedule(tag)
        &&& forall|kind: u64| self.event_schedule(kind) == before.event_schedule(kind)
    }
}

impl<S, E> App<S, E> {
    /// Registers the event kind `kind`: its queue is created empty, and no
    /// system reacts to it yet. Where the kind is registered already, its
    /// queue is emptied and the systems that reacted to it are dropped.
    pub fn register_event(&mut self, kind: u64)
        requires
            old(self).wf(),
        ensures
            final(self).wf(),
            final(self).keeps(*old(self)),
            final(self).modules() == old(self).modules(),
            final(self).store() == old(self).store(),
            final(self).schedule_tags() == old(self).schedule_tags(),
            forall|tag: u64| final(self).schedule(tag) == old(self).schedule(tag),
            final(self).queues() == old(self).queues().insert(kind, Seq::<E>::empty()),
            final(self).event_kinds() == if old(self).has_event(kind) {
                old(self).event_kinds()
            } else {
                old(self).event_kinds().push(kind)
            },
            final(self).event_schedule(kind).systems() == Seq::<SystemEntry<S>>::empty(),
            final(self).event_schedule(kind).plan() == Seq::<Seq<int>>::empty(),
            forall|k: u64| #[trigger]
                old(self).has_event(k) && k != kind ==>
                    final(self).event_schedule(k) == old(self).event_schedule(k),
    {
        proof {
            self.events.lemma_registered();
        }
        let at = self.events.position(kind);
        self.events.register_event(kind);
        match at {
            Some(i) => {
                self.event_schedules[i] = Schedule::new();
            },
            None => {
                self.event_schedules.push(Schedule::new());
            },
        }
        proof {
            self.events.lemma_registered();
            let kinds = self.events.registered();
            let n = old(self).events.registered().len() as int;
            if at.is_none() {
                assert(kinds[n] == kind);
            }
            assert(self.events@.dom().contains(kind));
            assert(kinds.contains(kind));
            let j = kinds.index_of(kind);
            assert(kinds[j] == kind);
            if old(self).events@.dom().contains(kind) {
                assert(old(self).events.registered().contains(kind));
            } else {
                if old(self).events.registered().contains(kind) {
                    assert(old(self).events@.dom().contains(kind));
                }
            }
            assert forall|k: u64| #[trigger] old(self).has_event(k)
                && k != kind implies self.event_schedule(k) == old(self).event_schedule(k) by {
                old(self).events.lemma_registered();
                assert(old(self).events@.dom().contains(k));
                assert(old(self).events.registered().contains(k));
                let a = old(self).events.registered().index_of(k);
                assert(old(self).events.registered()[a] == k);
                assert(kinds[a] == k);
                let b = kinds.index_of(k);
                assert(kinds[b] == k);
            }
            assert forall|i: int| 0 <= i < self.event_schedules@.len() implies
                (#[trigger] self.event_schedules@[i]).wf() by {
                if i < n && Some(i as usize) != at {
                    assert(old(self).event_schedules@[i].wf());
                }
            }
        }
    }

    /// Registers every kind of `kinds`, one after the other, as
    /// `register_event` does.
    pub fn register_events(&mut self, kinds: &Vec<u64>)
        requires
            old(self).wf(),
        ensures
            final(self).wf(),
            final(self).keeps(*old(self)),
            final(self).modules() == old(self).modules(),
            final(self).store() == old(self).store(),
            final(self).schedule_tags() == old(self).schedule_tags(),
            forall|tag: u64| final(self).schedule(tag) == old(self).schedule(tag),
            forall|i: int| 0 <= i < kinds@.len() ==> final(self).has_event(#[trigger] kinds@[i]),
            forall|kind: u64| #[trigger]
                final(self).has_event(kind) ==> old(self).has_event(kind) || kinds@.contains(kind),
    {
        let mut i: usize = 0;
        while i < kinds.len()
            invariant
                i <= kinds.len(),
                self.wf(),
                self.keeps(*old(self)),
                self.modules() == old(self).modules(),
                self.store() == old(self).store(),
                self.schedule_tags() == old(self).schedule_tags(),
                forall|tag: u64| self.schedule(tag) == old(self).schedule(tag),
                forall|j: int| 0 <= j < i ==> self.has_event(#[trigger] kinds@[j]),
                forall|kind: u64| #[trigger]
                    self.has_event(kind) ==> old(self).has_event(kind) || kinds@.contains(kind),
            decreases kinds.len() - i,
        {
            let ghost before = *self;
            self.register_event(kinds[i]);
            proof {
                self.lemma_keeps(before, *old(self));
                assert forall|j: int| 0 <= j < i + 1 implies
                    self.has_event(#[trigger] kinds@[j]) by {
                    if j < i {
                        assert(before.has_event(kinds@[j]));
                    }
                }
                assert forall|kind: u64| #[trigger] self.has_event(kind) implies
                    old(self).has_event(kind) || kinds@.contains(kind) by {
                    if kind != kinds@[i as int] {
                        assert(before.has_event(kind));
                    }
                }
            }
            i += 1;
        }
    }

    /// Appends `systems` to the systems that react to events of `kind` and
    /// compiles their plan anew. Where the kind is not registered, or the
    /// systems cannot be ordered, nothing changes and the error says why.
    pub fn add_event_systems(&mut self, kind: u64, systems: Vec<SystemEntry<S>>) -> (r: Result<
        (),
        EventError,
    >)
        requires
            old(self).wf(),
        ensures
            final(self).wf(),
            final(self).keeps(*old(self)),
            final(self).modules() == old(self).modules(),
            final(self).queues() == old(self).queues(),
            final(self).event_kinds() == old(self).event_kinds(),
            final(self).schedule_tags() == old(self).schedule_tags(),
            forall|tag: u64| final(self).schedule(tag) == old(self).schedule(tag),
            forall|k: u64| #[trigger]
                old(self).has_event(k) && k != kind ==>
                    final(self).event_schedule(k) == old(self).event_schedule(k),
            match r {
                Ok(()) => old(self).has_event(kind)
                    && final(self).event_schedule(kind).systems()
                        == old(self).event_schedule(kind).systems() + systems@
                    && final(self).event_schedule(kind).wf()
                    && graph_of(final(self).event_schedule(kind).systems()).all_known()
                    && !graph_of(final(self).event_schedule(kind).systems()).has_cycle(),
                Err(EventError::EventNotRegistered) => !old(self).has_event(kind),
                Err(EventError::PlanCompilation(e)) => old(self).has_event(kind)
                    && final(self).event_schedule(kind).unchanged(old(self).event_schedule(kind))
                    && rejected(old(self).event_schedule(kind).systems() + systems@, e),
            },
    {
        proof {
            self.events.lemma_registered();
        }
        match self.events.position(kind) {
            None => {
                proof {
                    if self.events@.dom().contains(kind) {
                        assert(self.events.registered().contains(kind));
                    }
                }
                Err(EventError::EventNotRegistered)
            },
            Some(i) => {
                proof {
                    assert(self.events.registered().contains(kind));
                    assert(self.events@.dom().contains(kind));
                }
                let r = self.event_schedules[i].add_systems(systems);
                proof {
                    let kinds = self.events.registered();
                    assert forall|k: u64| #[trigger] old(self).has_event(k)
                        && k != kind implies self.event_schedule(k) == old(self).event_schedule(k) by {
                        old(self).events.lemma_registered();
                        assert(old(self).events@.dom().contains(k));
                        assert(kinds.contains(k));
                        let j = kinds.index_of(k);
                        assert(kinds[j] == k);
                    }
                    assert forall|j: int| 0 <= j < self.event_schedules@.len() implies
                        (#[trigger] self.event_schedules@[j]).wf() by {
                        if j != i {
                            assert(old(self).event_schedules@[j].wf());
                        }
                    }
                }
                match r {
                    Ok(()) => Ok(()),
                    Err(e) => Err(EventError::PlanCompilation(e)),
                }
            },
        }
    }

    /// Appends `event` to the queue of `kind`, which must be registered.
    pub fn push_event(&mut self, kind: u64, event: E) -> (r: Result<(), EventError>)
        requires
            old(self).wf(),
        ensures
            final(self).wf(),
            final(self).keeps(*old(self)),
            final(self).same_setup(*old(self)),
            match r {
                Ok(()) => old(self).has_event(kind)
                    && final(self).queues() == old(self).queues().insert(
                    kind,
                    old(self).queues()[kind].push(event),
                ),
                Err(e) => e == EventError::EventNotRegistered && !old(self).has_event(kind)
                    && final(self).queues() == old(self).queues(),
            },
    {
        self.events.push_event(kind, event)
    }

    /// The queue of `kind`, oldest event first. Reading does not empty it.
    pub fn poll_events(&self, kind: u64) -> (r: Result<&Vec<E>, EventError>)
        requires
            self.wf(),
        ensures
            match r {
                Ok(queue) => self.has_event(kind) && queue@ == self.queues()[kind],
                Err(e) => e == EventError::EventNotRegistered && !self.has_event(kind),
            },
    {
        self.events.get_events(kind)
    }

    /// Empties every queue. The kinds stay registered.
    pub fn clear_events(&mut self)
        requires
            old(self).wf(),
        ensures
            final(self).wf(),
            final(self).keeps(*old(self)),
            final(self).same_setup(*old(self)),
            final(self).queues().dom() == old(self).queues().dom(),
            forall|kind: u64| #[trigger]
                final(self).has_event(kind) ==> final(self).queues()[kind] == Seq::<E>::empty(),
    {
        self.events.clear_events();
    }

    /// The event bus.
    pub fn events(&self) -> (bus: &Events<E>)
        ensures
            bus@ == self.queues(),
            bus.registered() == self.event_kinds(),
            self.wf() ==> bus.wf(),
    {
        &self.events
    }
}

impl<S: System<E> + Sync, E: Send + Sync> App<S, E> {
    /// Runs, for every event kind whose queue holds an event, the systems
    /// that react to that kind, kind after kind in the order of registration,
    /// then empties every queue, and lists what was run. The kinds are
    /// those that are pending when the dispatch begins; no other plan is
    /// run. The queues are emptied whatever the systems did; the error
    /// tells that one of them raised an event of an unregistered kind.
    /// Where no system reacts to a pending kind, the dispatch succeeds.
    pub fn process_events_listed(&mut self) -> (dispatch: Dispatch)
        requires
            old(self).wf(),
        ensures
            final(self).wf(),
            final(self).keeps(*old(self)),
            final(self).same_setup(*old(self)),
            final(self).queues().dom() == old(self).queues().dom(),
            forall|kind: u64| #[trigger]
                final(self).has_event(kind) ==> final(self).queues()[kind] == Seq::<E>::empty(),
            dispatch.result.is_err() ==> dispatch.result == Err::<(), EventError>(
                EventError::EventNotRegistered,
            ),
            old(self).dispatch_is_idle() ==> dispatch.result.is_ok(),
            dispatch.kinds@ == pending_kinds(old(self).event_kinds(), old(self).queues()),
            old(self).reacted(dispatch),
            final(self).store().sealed(),
    {
        let pending = self.events.pending();
        let mut runs: Vec<Run> = Vec::new();
        let mut failed = false;
        let ghost mut bad: int = 0;
        let mut i: usize = 0;
        self.store.seal();
        proof {
            lemma_pending_kinds(old(self).events.registered(), old(self).events@);
        }
        while i < pending.len()
            invariant
                self.wf(),
                self.store.sealed(),
                i <= pending.len(),
                self.modules == old(self).modules,
                self.tags == old(self).tags,
                self.schedules == old(self).schedules,
                self.event_schedules == old(self).event_schedules,
                self.events.registered() == old(self).events.registered(),
                self.events@.dom() == old(self).events@.dom(),
                pending@ == pending_kinds(old(self).event_kinds(), old(self).queues()),
                forall|j: int|
                    0 <= j < pending@.len() ==> old(self).event_kinds().contains(
                        #[trigger] pending@[j],
                    ),
                runs@.len() == i,
                forall|j: int|
                    0 <= j < i ==> (#[trigger] runs@[j]).lists(
                        old(self).event_schedule(pending@[j]).plan(),
                    ),
                !failed ==> forall|j: int| 0 <= j < i ==> (#[trigger] runs@[j]).result.is_ok(),
                failed ==> 0 <= bad < i && runs@[bad].result.is_err(),
                old(self).dispatch_is_idle() ==> !failed,
            decreases pending.len() - i,
        {
            let ghost before = runs@;
            proof {
                assert(pending@.contains(pending@[i as int]));
            }
            match self.events.position(pending[i]) {
                Some(at) => {
                    let (result, waves, list) = run_plan(
                        &self.event_schedules[at],
                        &self.store,
                        &mut self.events,
                    );
                    match result {
                        Ok(()) => {
                            runs.push(Run { result: Ok(()), waves, started: list });
                        },
                        Err(_) => {
                            failed = true;
                            proof {
                                bad = i as int;
                            }
                            runs.push(
                                Run {
                                    result: Err(ScheduleError::EventNotRegistered),
                                    waves,
                                    started: list,
                                },
                            );
                        },
                    }
                },
                None => {
                    // a pending kind is registered
                    proof {
                        assert(false);
                    }
                    runs.push(Run { result: Ok(()), waves: 0, started: Vec::new() });
                },
            }
            proof {
                assert(forall|j: int| 0 <= j < i ==> runs@[j] == before[j]);
            }
            i += 1;
        }
        self.events.clear_events();
        let result = if failed {
            Err(EventError::EventNotRegistered)
        } else {
            Ok(())
        };
        Dispatch { result, kinds: pending, runs }
    }

    /// Runs, for every event kind whose queue holds an event, the systems
    /// that react to that kind, kind after kind in the order of registration,
    /// then empties every queue, as `process_events_listed` does. The
    /// queues are emptied whatever the systems did; the error tells that
    /// one of them raised an event of an unregistered kind. Where no
    /// system reacts to a pending kind, the dispatch succeeds.
    pub fn process_events(&mut self) -> (r: Result<(), EventError>)
        requires
            old(self).wf(),
        ensures
            final(self).wf(),
            final(self).keeps(*old(self)),
            final(self).same_setup(*old(self)),
            final(self).queues().dom() == old(self).queues().dom(),
            forall|kind: u64| #[trigger]
                final(self).has_event(kind) ==> final(self).queues()[kind] == Seq::<E>::empty(),
            r.is_err() ==> r == Err::<(), EventError>(EventError::EventNotRegistered),
            old(self).dispatch_is_idle() ==> r.is_ok(),
            pending_kinds(old(self).event_kinds(), old(self).queues()).len() == 0 ==> r.is_ok(),
            exists|dispatch: Dispatch| #[trigger]
                old(self).reacted(dispatch) && dispatch.result == r && dispatch.kinds@
                    == pending_kinds(old(self).event_kinds(), old(self).queues()),
            final(self).store().sealed(),
    {
        let dispatch = self.process_events_listed();
        proof {
            assert(old(self).reacted(dispatch));
        }
        dispatch.result
    }

    /// Runs the Startup schedule, as `run_schedule` does. The schedule is
    /// registered in every application, so the run fails only where a system
    /// raises an event of an unregistered kind; without systems in Startup
    /// it succeeds and leaves the queues as they are.
    pub fn startup(&mut self) -> (r: Result<(), ScheduleError>)
        requires
            old(self).wf(),
        ensures
            final(self).wf(),
            final(self).keeps(*old(self)),
            final(self).same_setup(*old(self)),
            extends(old(self).queues(), final(self).queues()),
            r.is_err() ==> r == Err::<(), ScheduleError>(ScheduleError::EventNotRegistered),
            old(self).schedule(Startup::token()).plan().len() == 0 ==> r.is_ok() && final(self).queues() == old(self).queues(),
            exists|run: Run| #[trigger] old(self).listed(Startup::token(), run) && run.result == r,
            final(self).store().sealed(),
    {
        let run = self.run_tag(Startup::tag());
        proof {
            assert(old(self).listed(Startup::token(), run));
        }
        run.result
    }

    /// Runs one frame and lists what it started: PreUpdate, Update,
    /// PostUpdate, then the dispatch of the pending events; after that every
    /// queue is empty. A system that raises an event of an unregistered
    /// kind ends the frame behind its phase. A frame that calls no system
    /// succeeds.
    pub fn update_listed(&mut self) -> (frame: Frame)
        requires
            old(self).wf(),
        ensures
            final(self).wf(),
            final(self).keeps(*old(self)),
            final(self).same_setup(*old(self)),
            final(self).queues().dom() == old(self).queues().dom(),
            frame.result.is_ok() ==> forall|kind: u64| #[trigger]
                final(self).has_event(kind) ==> final(self).queues()[kind] == Seq::<E>::empty(),
            frame.result.is_err() ==> frame.result == Err::<(), ScheduleError>(
                ScheduleError::EventNotRegistered,
            ),
            old(self).frame_is_idle() ==> frame.result.is_ok(),
            old(self).framed(frame),
            old(self).schedule(PreUpdate::token()).plan().len() == 0 && old(self).schedule(
                Update::token(),
            ).plan().len() == 0 && old(self).schedule(PostUpdate::token()).plan().len() == 0
                ==> match frame.dispatch {
                Some(dispatch) => dispatch.kinds@ == pending_kinds(
                    old(self).event_kinds(),
                    old(self).queues(),
                ),
                None => false,
            },
            final(self).store().sealed(),
    {
        let mut phases: Vec<Run> = Vec::new();
        proof {
            self.lemma_wf();
        }
        let pre = self.run_tag(PreUpdate::tag());
        let ghost first = pre;
        let ghost a1 = *self;
        let ended = pre.ended();
        phases.push(pre);
        proof {
            assert(a1.same_setup(*old(self)));
            assert(old(self).listed(frame_phases()[0], phases@[0]));
        }
        if !ended {
            return Frame { result: Err(ScheduleError::EventNotRegistered), phases, dispatch: None };
        }
        let update = self.run_tag(Update::tag());
        let ghost second = update;
        let ghost a2 = *self;
        let ended = update.ended();
        phases.push(update);
        proof {
            assert(a2.same_setup(*old(self)));
            assert(a1.listed(Update::token(), second));
            assert(phases@[0] == first && phases@[1] == second);
            assert(old(self).listed(frame_phases()[1], phases@[1]));
        }
        if !ended {
            return Frame { result: Err(ScheduleError::EventNotRegistered), phases, dispatch: None };
        }
        let post = self.run_tag(PostUpdate::tag());
        let ghost third = post;
        let ghost a3 = *self;
        let ended = post.ended();
        phases.push(post);
        proof {
            assert(a3.same_setup(*old(self)));
            assert(a2.listed(PostUpdate::token(), third));
            assert(phases@[0] == first && phases@[1] == second && phases@[2] == third);
            assert(old(self).listed(frame_phases()[2], phases@[2]));
        }
        if !ended {
            return Frame { result: Err(ScheduleError::EventNotRegistered), phases, dispatch: None };
        }
        let dispatch = self.process_events_listed();
        proof {
            a3.lemma_reacted(*old(self), dispatch);
            if old(self).frame_is_idle() {
                assert(a3.queues() == old(self).queues());
                old(self).lemma_idle(a3);
            }
        }
        let result = if dispatch.succeeded() {
            Ok(())
        } else {
            Err(ScheduleError::EventNotRegistered)
        };
        Frame { result, phases, dispatch: Some(dispatch) }
    }

    /// Runs one frame, as `update_listed` does: PreUpdate, Update,
    /// PostUpdate, then the systems that react to the pending events; after
    /// that every queue is empty. A system that raises an event of an
    /// unregistered kind ends the frame behind its phase. A frame that
    /// calls no system succeeds.
    pub fn update(&mut self) -> (r: Result<(), ScheduleError>)
        requires
            old(self).wf(),
        ensures
            final(self).wf(),
            final(self).keeps(*old(self)),
            final(self).same_setup(*old(self)),
            final(self).queues().dom() == old(self).queues().dom(),
            r.is_ok() ==> forall|kind: u64| #[trigger]
                final(self).has_event(kind) ==> final(self).queues()[kind] == Seq::<E>::empty(),
            r.is_err() ==> r == Err::<(), ScheduleError>(ScheduleError::EventNotRegistered),
            old(self).frame_is_idle() ==> r.is_ok(),
            exists|frame: Frame| #[trigger] old(self).framed(frame) && frame.result == r,
            final(self).store().sealed(),
    {
        let frame = self.update_listed();
        proof {
            assert(old(self).framed(frame));
        }
        frame.result
    }

    /// Runs the application and lists what it started: Startup once, then
    /// `frames` frames. The first error ends the run. A run in which no
    /// system is called succeeds.
    pub fn run_listed(&mut self, frames: u64) -> (session: Session)
        requires
            old(self).wf(),
        ensures
            final(self).wf(),
            final(self).keeps(*old(self)),
            final(self).same_setup(*old(self)),
            final(self).queues().dom() == old(self).queues().dom(),
            session.result.is_ok() && frames > 0 ==> forall|kind: u64| #[trigger]
                final(self).has_event(kind) ==> final(self).queues()[kind] == Seq::<E>::empty(),
            session.result.is_err() ==> session.result == Err::<(), ScheduleError>(
                ScheduleError::EventNotRegistered,
            ),
            old(self).schedule(Startup::token()).plan().len() == 0 && old(self).frame_is_idle()
                ==> session.result.is_ok(),
            old(self).ran(frames, session),
            final(self).store().sealed(),
    {
        proof {
            self.lemma_wf();
        }
        let startup = self.run_tag(Startup::tag());
        let mut list: Vec<Frame> = Vec::new();
        proof {
            assert(self.same_setup(*old(self)));
            if old(self).schedule(Startup::token()).plan().len() == 0 && old(self).frame_is_idle() {
                assert(self.queues() == old(self).queues());
                old(self).lemma_idle(*self);
            }
        }
        if !startup.ended() {
            return Session {
                result: Err(ScheduleError::EventNotRegistered),
                startup,
                frames: list,
            };
        }
        let mut frame: u64 = 0;
        while frame < frames
            invariant
                self.wf(),
                frame <= frames,
                self.keeps(*old(self)),
                self.same_setup(*old(self)),
                self.queues().dom() == old(self).queues().dom(),
                self.store().sealed(),
                frame > 0 ==> forall|kind: u64| #[trigger]
                    self.has_event(kind) ==> self.queues()[kind] == Seq::<E>::empty(),
                old(self).schedule(Startup::token()).plan().len() == 0 && old(self).frame_is_idle() ==> self.frame_is_idle(),
                startup.result.is_ok(),
                old(self).listed(Startup::token(), startup),
                list@.len() == frame,
                forall|i: int| 0 <= i < list@.len() ==> old(self).framed(#[trigger] list@[i]),
                forall|i: int| 0 <= i < list@.len() ==> (#[trigger] list@[i]).result.is_ok(),
            decreases frames - frame,
        {
            let ghost before = *self;
            let ghost listed = list@;
            let next = self.update_listed();
            let ended = next.ended();
            proof {
                before.lemma_framed(*old(self), next);
                if ended && old(self).schedule(Startup::token()).plan().len() == 0 && old(self).frame_is_idle() {
                    self.lemma_idle_without_events(before);
                }
            }
            list.push(next);
            proof {
                assert(forall|i: int| 0 <= i < listed.len() ==> list@[i] == listed[i]);
            }
            if !ended {
                return Session {
                    result: Err(ScheduleError::EventNotRegistered),
                    startup,
                    frames: list,
                };
            }
            frame += 1;
        }
        Session { result: Ok(()), startup, frames: list }
    }

    /// Runs the application, as `run_listed` does: Startup once, then
    /// `frames` frames. The first error ends the run. A run in which no
    /// system is called succeeds.
    pub fn run(&mut self, frames: u64) -> (r: Result<(), ScheduleError>)
        requires
            old(self).wf(),
        ensures
            final(self).wf(),
            final(self).keeps(*old(self)),
            final(self).same_setup(*old(self)),
            final(self).queues().dom() == old(self).queues().dom(),
            r.is_ok() && frames > 0 ==> forall|kind: u64| #[trigger]
                final(self).has_event(kind) ==> final(self).queues()[kind] == Seq::<E>::empty(),
            r.is_err() ==> r == Err::<(), ScheduleError>(ScheduleError::EventNotRegistered),
            old(self).schedule(Startup::token()).plan().len() == 0 && old(self).frame_is_idle()
                ==> r.is_ok(),
            exists|session: Session| #[trigger]
                old(self).ran(frames, session) && session.result == r,
            final(self).store().sealed(),
    {
        let session = self.run_listed(frames);
        proof {
            assert(old(self).ran(frames, session));
        }
        session.result
    }
}

impl<S, E> App<S, E> {
    /// What a dispatch lists depends on the event kinds and the reacting
    /// systems alone.
    pub proof fn lemma_reacted(&self, other: App<S, E>, dispatch: Dispatch)
        requires
            self.same_setup(other),
            self.reacted(dispatch),
        ensures
            other.reacted(dispatch),
    {
        assert forall|i: int| 0 <= i < dispatch.runs@.len() implies (
        #[trigger] dispatch.runs@[i]).lists(other.event_schedule(dispatch.kinds@[i]).plan()) by {
            assert(dispatch.runs@[i].lists(self.event_schedule(dispatch.kinds@[i]).plan()));
            assert(self.event_schedule(dispatch.kinds@[i]) == other.event_schedule(
                dispatch.kinds@[i],
            ));
        }
    }

    /// What a frame lists depends on the schedules and the reacting
    /// systems alone.
    pub proof fn lemma_framed(&self, other: App<S, E>, frame: Frame)
        requires
            self.same_setup(other),
            self.framed(frame),
        ensures
            other.framed(frame),
    {
        assert forall|i: int| 0 <= i < frame.phases@.len() implies other.listed(
            frame_phases()[i],
            #[trigger] frame.phases@[i],
        ) by {
            assert(self.listed(frame_phases()[i], frame.phases@[i]));
            assert(self.schedule(frame_phases()[i]) == other.schedule(frame_phases()[i]));
        }
        match frame.dispatch {
            Some(dispatch) => {
                self.lemma_reacted(other, dispatch);
            },
            None => {},
        }
    }

    /// A dispatch runs the reacting systems of every kind whose queue holds
    /// an event when it begins, of each such kind once, and of no other
    /// kind.
    pub proof fn lemma_dispatch_once(&self, dispatch: Dispatch)
        requires
            self.wf(),
            self.reacted(dispatch),
            dispatch.kinds@ == pending_kinds(self.event_kinds(), self.queues()),
        ensures
            dispatch.kinds@.no_duplicates(),
            dispatch.runs@.len() == dispatch.kinds@.len(),
            forall|kind: u64| #[trigger]
                dispatch.kinds@.contains(kind) <==> self.has_event(kind) && self.queues()[kind].len()
                    > 0,
    {
        self.lemma_wf();
        lemma_pending_kinds(self.event_kinds(), self.queues());
    }

    /// A run of the application that came to its end ran Startup once, to
    /// its end, and then every frame to its end: in every frame PreUpdate,
    /// Update and PostUpdate, each once and to its end, in this order, and
    /// behind them the dispatch of the pending events.
    pub proof fn lemma_run_is_complete(&self, frames: u64, session: Session, i: int)
        requires
            self.wf(),
            self.ran(frames, session),
            session.result.is_ok(),
            0 <= i < frames,
        ensures
            wave_model(session.startup.started@) == self.run_order(Startup::token()),
            session.frames@.len() == frames,
            session.frames@[i].result.is_ok(),
            session.frames@[i].phases@.len() == 3,
            wave_model(session.frames@[i].phases@[0].started@) == self.run_order(
                PreUpdate::token(),
            ),
            wave_model(session.frames@[i].phases@[1].started@) == self.run_order(Update::token()),
            wave_model(session.frames@[i].phases@[2].started@) == self.run_order(
                PostUpdate::token(),
            ),
            session.frames@[i].dispatch.is_some(),
    {
        self.lemma_wf();
        let frame = session.frames@[i];
        assert(self.framed(frame));
        if i < frames - 1 {
            assert(frame.result.is_ok());
        }
        assert(self.listed(frame_phases()[0], frame.phases@[0]));
        assert(self.listed(frame_phases()[1], frame.phases@[1]));
        assert(self.listed(frame_phases()[2], frame.phases@[2]));
        assert(frame.phases@[0].result.is_ok());
        assert(frame.phases@[1].result.is_ok());
    }

    /// Whether a frame calls a system depends on the schedules, the
    /// reacting systems and the queues alone.
    pub proof fn lemma_idle(&self, other: App<S, E>)
        requires
            self.same_setup(other),
            self.queues() == other.queues(),
            self.frame_is_idle(),
        ensures
            other.frame_is_idle(),
    {
        assert(self.schedule(PreUpdate::token()) == other.schedule(PreUpdate::token()));
        assert(self.schedule(Update::token()) == other.schedule(Update::token()));
        assert(self.schedule(PostUpdate::token()) == other.schedule(PostUpdate::token()));
        assert forall|kind: u64| #[trigger]
            pending_kinds(other.event_kinds(), other.queues()).contains(
                kind,
            ) implies other.event_schedule(kind).plan().len() == 0 by {
            assert(pending_kinds(self.event_kinds(), self.queues()).contains(kind));
            assert(self.event_schedule(kind) == other.event_schedule(kind));
        }
    }

    /// With all queues empty, a frame calls a system only where one of the
    /// three phases has one.
    pub proof fn lemma_idle_without_events(&self, other: App<S, E>)
        requires
            self.same_setup(other),
            other.frame_is_idle(),
            forall|kind: u64| #[trigger]
                self.has_event(kind) ==> self.queues()[kind] == Seq::<E>::empty(),
        ensures
            self.frame_is_idle(),
    {
        assert(self.schedule(PreUpdate::token()) == other.schedule(PreUpdate::token()));
        assert(self.schedule(Update::token()) == other.schedule(Update::token()));
        assert(self.schedule(PostUpdate::token()) == other.schedule(PostUpdate::token()));
        lemma_pending_kinds(self.event_kinds(), self.queues());
        assert forall|kind: u64| #[trigger]
            self.queues().dom().contains(kind) implies self.queues()[kind].len() == 0 by {
            assert(self.has_event(kind));
        }
        assert(pending_kinds(self.event_kinds(), self.queues()).len() == 0);
    }
}

/// A unit of configuration. Its token tells one module type from another;
/// the application sets a module up once, however often it is added. The
/// library's own modules have the tokens below one thousand.
pub trait Module<S, E>: Sized {
    /// The token of this module, as contracts speak of it.
    spec fn token(&self) -> u64;

    /// The token of this module.
    fn id(&self) -> (id: u64)
        ensures
            id == self.token(),
    ;

    /// What the module's setup makes of an application: `after` is what
    /// `before` has become. A module that says nothing of its setup leaves
    /// this as it is.
    open spec fn configured(&self, before: App<S, E>, after: App<S, E>) -> bool {
        true
    }

    /// Registers what the module brings. It may add other modules. Whatever
    /// was registered before stays registered.
    fn setup(self, app: &mut App<S, E>)
        requires
            old(app).wf(),
        ensures
            final(app).wf(),
            final(app).keeps(*old(app)),
            self.configured(*old(app), *final(app)),
    ;
}

impl<S, E> App<S, E> {
    /// The store of entities, components and resources that the systems
    /// work on.
    pub closed spec fn spec_store(&self) -> &Store {
        &self.store
    }

    /// The store of entities, components and resources that the systems
    /// work on.
    #[verifier::when_used_as_spec(spec_store)]
    pub fn store(&self) -> (store: &Store)
        ensures
            store == self.store(),
    {
        &self.store
    }

    /// The world of the store, once the store is sealed.
    pub fn world(&self) -> (world: Option<&World>)
        ensures
            world.is_some() == self.store().sealed(),
    {
        self.store.world()
    }

    /// Ends the setup of the store: from now on it takes no more component
    /// types, and its world is handed out. The first run of a schedule does
    /// the same.
    pub fn seal(&mut self)
        requires
            old(self).wf(),
        ensures
            final(self).wf(),
            final(self).keeps(*old(self)),
            final(self).same_state(*old(self)),
            final(self).store().sealed(),
    {
        self.store.seal();
    }

    /// Nothing but the world may differ from `before`.
    pub open spec fn same_state(&self, before: App<S, E>) -> bool {
        self.same_setup(before) && self.queues() == before.queues()
    }

    /// Whether a module with token `id` was added.
    pub fn is_module_added(&self, id: u64) -> (b: bool)
        ensures
            b == self.has_module(id),
    {
        let mut i: usize = 0;
        while i < self.modules.len()
            invariant
                i <= self.modules.len(),
                forall|j: int| 0 <= j < i ==> self.modules@[j] != id,
            decreases self.modules.len() - i,
        {
            if self.modules[i] == id {
                return true;
            }
            i += 1;
        }
        false
    }

    /// Registers the component type `A` in the store. A sealed store
    /// refuses, and says so by `false`.
    pub fn register_component<A: Send + Sync + 'static>(&mut self) -> (registered: bool)
        requires
            old(self).wf(),
        ensures
            final(self).wf(),
            final(self).keeps(*old(self)),
            final(self).same_state(*old(self)),
            registered == !old(self).store().sealed(),
            final(self).store().sealed() == old(self).store().sealed(),
    {
        self.store.register_component::<A>()
    }

    /// Adds the resource `data` to the store. Returns whether the world took
    /// it, which it does not where it holds a resource of that type already.
    pub fn add_resource<A: Send + Sync + 'static>(&mut self, data: A) -> (taken: bool)
        requires
            old(self).wf(),
        ensures
            final(self).wf(),
            final(self).keeps(*old(self)),
            final(self).same_state(*old(self)),
            final(self).store().sealed() == old(self).store().sealed(),
    {
        self.store.add_resource(data)
    }

    /// What stays registered through two steps stays registered.
    pub proof fn lemma_keeps(&self, middle: App<S, E>, before: App<S, E>)
        requires
            self.keeps(middle),
            middle.keeps(before),
        ensures
            self.keeps(before),
    {
        assert forall|m: u64| #[trigger] before.has_module(m) implies self.has_module(m) by {
            assert(middle.has_module(m));
        }
        assert forall|t: u64| #[trigger] before.has_schedule(t) implies self.has_schedule(t) by {
            assert(middle.has_schedule(t));
        }
        assert forall|k: u64| #[trigger] before.has_event(k) implies self.has_event(k) by {
            assert(middle.has_event(k));
        }
    }

    /// This application is `before` with the token `token` recorded behind
    /// the tokens of its modules, and nothing else changed.
    pub open spec fn recorded(&self, before: App<S, E>, token: u64) -> bool {
        &&& self.modules() == before.modules().push(token)
        &&& self.schedule_tags() == before.schedule_tags()
        &&& self.event_kinds() == before.event_kinds()
        &&& self.queues() == before.queues()
        &&& self.store() == before.store()
        &&& forall|tag: u64| self.schedule(tag) == before.schedule(tag)
        &&& forall|kind: u64| self.event_schedule(kind) == before.event_schedule(kind)
    }

    /// Adds `module`: where no module with its token was added before, the
    /// token is recorded and then the module is set up, so that the
    /// application is what the module's setup makes of the application with
    /// the token recorded. Where one was, nothing happens.
    pub fn add_module<M: Module<S, E>>(&mut self, module: M)
        requires
            old(self).wf(),
        ensures
            final(self).wf(),
            final(self).keeps(*old(self)),
            final(self).has_module(module.token()),
            old(self).has_module(module.token()) ==> final(self).same_state(*old(self))
                && final(self).store() == old(self).store(),
            !old(self).has_module(module.token()) ==> exists|mid: App<S, E>|
                mid.wf() && #[trigger] mid.recorded(*old(self), module.token())
                    && module.configured(mid, *final(self)),
    {
        let id = module.id();
        if self.is_module_added(id) {
            return ;
        }
        self.modules.push(id);
        proof {
            assert(self.modules@[old(self).modules@.len() as int] == id);
            assert forall|m: u64| #[trigger] old(self).has_module(m) implies self.has_module(m) by {
                let j = old(self).modules@.index_of(m);
                assert(self.modules@[j] == m);
            }
        }
        let ghost mid = *self;
        module.setup(self);
        proof {
            assert(mid.recorded(*old(self), id));
            assert(mid.has_module(id));
            assert forall|m: u64| #[trigger] old(self).has_module(m) implies self.has_module(m) by {
                assert(mid.has_module(m));
            }
            assert forall|t: u64| #[trigger] old(self).has_schedule(t) implies self.has_schedule(t) by {
                assert(mid.has_schedule(t));
            }
            assert forall|k: u64| #[trigger] old(self).has_event(k) implies self.has_event(k) by {
                assert(mid.has_event(k));
            }
        }
    }
}

} // verus!
