//! Compilation of named systems with dependencies into ordered waves.

use vstd::prelude::*;
use crate::error::PlanCompilationError;
use self::laws::{lemma_deadlock_has_cycle, lemma_plan_excludes_cycle};
use self::resolve::resolve;
use self::waves::build_waves;

pub mod laws;
mod resolve;
mod waves;

verus! {

/// The dependency declarations of one schedule: for every system, in
/// registration order, its name and the names it waits for.
pub struct SystemGraph {
    pub names: Seq<Seq<char>>,
    pub deps: Seq<Seq<Seq<char>>>,
}

impl SystemGraph {
    /// The number of systems.
    pub open spec fn len(self) -> int {
        self.names.len() as int
    }

    /// Every system has a dependency list.
    pub open spec fn wf(self) -> bool {
        self.deps.len() == self.names.len()
    }

    /// System `i` declares the name of system `j` as a dependency.
    pub open spec fn depends_on(self, i: int, j: int) -> bool {
        &&& 0 <= i < self.len()
        &&& 0 <= j < self.len()
        &&& i < self.deps.len()
        &&& self.deps[i].contains(self.names[j])
    }

    /// Every declared dependency is the name of a registered system.
    pub open spec fn all_known(self) -> bool {
        forall|i: int, k: int|
            0 <= i < self.deps.len() && 0 <= k < self.deps[i].len() ==> self.names.contains(
                #[trigger] self.deps[i][k],
            )
    }

    /// Each member of `chain` waits for the next one, and the last for the
    /// first: the systems of the chain wait for each other in a circle.
    pub open spec fn closed_chain(self, chain: Seq<int>) -> bool {
        &&& chain.len() > 0
        &&& forall|k: int|
            0 <= k < chain.len() ==> self.depends_on(
                #[trigger] chain[k],
                chain[if k + 1 < chain.len() {
                    k + 1
                } else {
                    0
                }],
            )
    }

    /// Some systems wait for each other in a circle, so the dependencies
    /// cannot be ordered.
    pub open spec fn has_cycle(self) -> bool {
        exists|chain: Seq<int>| self.closed_chain(chain)
    }

    /// A non-empty group of systems in which every member waits for another
    /// member, so that no member can ever start.
    #[verifier::opaque]
    pub open spec fn deadlocked(self, group: Set<int>) -> bool {
        &&& exists|i: int| group.contains(i)
        &&& forall|i: int| #[trigger]
            group.contains(i) ==> 0 <= i < self.len() && exists|j: int|
                group.contains(j) && self.depends_on(i, j)
    }

    /// Some group of systems is deadlocked. A graph has such a group exactly
    /// when it has a cycle.
    pub open spec fn has_deadlock(self) -> bool {
        exists|group: Set<int>| self.deadlocked(group)
    }

    /// `waves` is the execution plan of this graph: every system stands in
    /// exactly one wave, in registration order inside its wave, all its
    /// dependencies stand in earlier waves, and it stands in the earliest wave
    /// for which that is true.
    pub open spec fn is_plan(self, waves: Seq<Seq<int>>) -> bool {
        &&& forall|w: int| 0 <= w < waves.len() ==> (#[trigger] waves[w]).len() > 0
        &&& forall|w: int, p: int|
            0 <= w < waves.len() && 0 <= p < waves[w].len() ==> 0 <= #[trigger] waves[w][p]
                < self.len()
        &&& forall|w: int, p: int, q: int|
            0 <= w < waves.len() && 0 <= p < q < waves[w].len() ==> #[trigger] waves[w][p]
                < #[trigger] waves[w][q]
        &&& forall|i: int|
            0 <= i < self.len() ==> 0 <= #[trigger] wave_of(waves, i) < waves.len()
                && waves[wave_of(waves, i)].contains(i)
        &&& forall|w: int, p: int|
            0 <= w < waves.len() && 0 <= p < waves[w].len() ==> wave_of(
                waves,
                #[trigger] waves[w][p],
            ) == w
        &&& forall|i: int, j: int| #[trigger]
            self.depends_on(i, j) ==> wave_of(waves, j) < wave_of(waves, i)
        &&& forall|i: int|
            0 <= i < self.len() && #[trigger] wave_of(waves, i) > 0 ==> exists|j: int|
                self.depends_on(i, j) && wave_of(waves, j) == wave_of(waves, i) - 1
    }
}

/// The index of the wave in which system `i` stands.
pub open spec fn wave_of(waves: Seq<Seq<int>>, i: int) -> int {
    choose|w: int| 0 <= w < waves.len() && waves[w].contains(i)
}

/// The systems of the first `n` waves of `waves`, wave by wave and inside a
/// wave in its order: what a run has started when it has come through `n`
/// waves.
pub open spec fn started(waves: Seq<Seq<int>>, n: int) -> Seq<int>
    decreases n,
{
    if n <= 0 {
        Seq::<int>::empty()
    } else {
        started(waves, n - 1) + waves[n - 1]
    }
}

/// The waves of an execution plan as sequences of system indices.
pub open spec fn waves_model(waves: Seq<Vec<usize>>) -> Seq<Seq<int>> {
    Seq::new(waves.len(), |w: int| wave_model(waves[w]@))
}

/// One wave as a sequence of system indices.
pub open spec fn wave_model(wave: Seq<usize>) -> Seq<int> {
    Seq::new(wave.len(), |p: int| wave[p] as int)
}

/// The edges of `g`, listed by index.
spec fn edges_of(g: SystemGraph, edges: Seq<Vec<usize>>) -> bool {
    &&& g.wf()
    &&& edges.len() == g.len()
    &&& g.len() <= usize::MAX
    &&& forall|i: int, p: int|
        0 <= i < edges.len() && 0 <= p < edges[i]@.len() ==> #[trigger] edges[i]@[p] < edges.len()
    &&& forall|i: int, j: int|
        0 <= i < edges.len() && 0 <= j < edges.len() ==> (edges[i]@.contains(j as usize)
            <==> #[trigger] g.depends_on(i, j))
}

/// A system as it is registered: what runs, under which name, after which
/// other systems.
pub struct SystemEntry<S> {
    pub run: S,
    pub name: String,
    pub deps: Vec<String>,
}

/// A list of names as sequences of characters.
pub open spec fn names_model(names: Seq<String>) -> Seq<Seq<char>> {
    Seq::new(names.len(), |i: int| names[i]@)
}

/// The dependency declarations of a list of registered systems.
pub open spec fn graph_of<S>(systems: Seq<SystemEntry<S>>) -> SystemGraph {
    SystemGraph {
        names: Seq::new(systems.len(), |i: int| systems[i].name@),
        deps: Seq::new(systems.len(), |i: int| names_model(systems[i].deps@)),
    }
}

/// A compiled execution plan: waves of system indices. The systems of one
/// wave do not wait for each other; a wave starts when the one before it is done.
pub struct Plan {
    waves: Vec<Vec<usize>>,
}

impl View for Plan {
    type V = Seq<Seq<int>>;

    closed spec fn view(&self) -> Seq<Seq<int>> {
        waves_model(self.waves@)
    }
}

impl Plan {
    /// The plan of a schedule without systems.
    pub fn new() -> (plan: Plan)
        ensures
            plan@ == Seq::<Seq<int>>::empty(),
    {
        let plan = Plan { waves: Vec::new() };
        assert(plan@ =~= Seq::<Seq<int>>::empty());
        plan
    }

    /// The waves, first to last.
    pub fn waves(&self) -> (waves: &Vec<Vec<usize>>)
        ensures
            waves_model(waves@) == self@,
    {
        &self.waves
    }

    /// The number of waves.
    pub fn len(&self) -> (n: usize)
        ensures
            n == self@.len(),
    {
        self.waves.len()
    }

    /// The systems of wave `w`, in registration order.
    pub fn wave(&self, w: usize) -> (wave: &Vec<usize>)
        requires
            w < self@.len(),
        ensures
            wave_model(wave@) == self@[w as int],
    {
        &self.waves[w]
    }
}

/// Compiles the execution plan of `systems`.
///
/// The plan is returned where every dependency names a registered system and
/// no systems wait in a circle; it is then the one plan of these systems.
/// Otherwise the error says which of the two is not so; an unknown dependency
/// is reported before a cycle.
pub fn compile_plan<S>(systems: &Vec<SystemEntry<S>>) -> (r: Result<Plan, PlanCompilationError>)
    ensures
        match r {
            Ok(plan) => graph_of(systems@).all_known() && !graph_of(systems@).has_cycle()
                && graph_of(systems@).is_plan(plan@),
            Err(PlanCompilationError::UnknownDependency) => !graph_of(systems@).all_known(),
            Err(PlanCompilationError::CycleDetected) => graph_of(systems@).all_known() && graph_of(
                systems@,
            ).has_cycle(),
        },
{
    match resolve(systems) {
        None => Err(PlanCompilationError::UnknownDependency),
        Some(edges) => match build_waves(&edges, Ghost(graph_of(systems@))) {
            None => {
                proof {
                    lemma_deadlock_has_cycle(graph_of(systems@));
                }
                Err(PlanCompilationError::CycleDetected)
            },
            Some(waves) => {
                proof {
                    lemma_plan_excludes_cycle(graph_of(systems@), waves_model(waves@));
                }
                Ok(Plan { waves })
            },
        },
    }
}

} // verus!
