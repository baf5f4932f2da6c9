//! What holds of every execution plan.

use vstd::prelude::*;
use super::{started, wave_of, SystemGraph};

verus! {

/// A member of a deadlocked group is a system and waits for another member.
proof fn lemma_member_waits(g: SystemGraph, group: Set<int>, i: int) -> (j: int)
    requires
        g.deadlocked(group),
        group.contains(i),
    ensures
        0 <= i < g.len(),
        group.contains(j),
        g.depends_on(i, j),
{
    reveal(SystemGraph::deadlocked);
    choose|j: int| group.contains(j) && g.depends_on(i, j)
}

/// A deadlocked group has a member.
proof fn lemma_group_member(g: SystemGraph, group: Set<int>) -> (i: int)
    requires
        g.deadlocked(group),
    ensures
        group.contains(i),
{
    reveal(SystemGraph::deadlocked);
    choose|i: int| group.contains(i)
}

/// No member of a deadlocked group stands in a wave before wave `w`.
proof fn lemma_group_not_before(g: SystemGraph, waves: Seq<Seq<int>>, group: Set<int>, w: nat)
    requires
        g.is_plan(waves),
        g.deadlocked(group),
    ensures
        forall|i: int| group.contains(i) ==> wave_of(waves, i) >= w,
    decreases w,
{
    if w > 0 {
        lemma_group_not_before(g, waves, group, (w - 1) as nat);
        assert forall|i: int| group.contains(i) implies wave_of(waves, i) >= w by {
            let j = lemma_member_waits(g, group, i);
            assert(wave_of(waves, j) < wave_of(waves, i));
        }
    } else {
        assert forall|i: int| group.contains(i) implies wave_of(waves, i) >= 0 by {
            let j = lemma_member_waits(g, group, i);
        }
    }
}

/// The members of a closed chain are a deadlocked group.
pub proof fn lemma_chain_is_deadlock(g: SystemGraph, chain: Seq<int>)
    requires
        g.closed_chain(chain),
    ensures
        g.deadlocked(Set::new(|i: int| chain.contains(i))),
        g.has_deadlock(),
{
    let group = Set::new(|i: int| chain.contains(i));
    assert forall|i: int| #[trigger] group.contains(i) implies 0 <= i < g.len() && exists|j: int|
        group.contains(j) && g.depends_on(i, j) by {
        let k = choose|k: int| 0 <= k < chain.len() && chain[k] == i;
        let next = if k + 1 < chain.len() {
            k + 1
        } else {
            0
        };
        assert(g.depends_on(chain[k], chain[next]));
        assert(chain.contains(chain[next]));
        assert(group.contains(chain[next]) && g.depends_on(i, chain[next]));
    }
    assert(chain.contains(chain[0]));
    assert(group.contains(chain[0]));
    reveal(SystemGraph::deadlocked);
    assert(g.deadlocked(group));
}

/// The member that a member of a deadlocked group waits for.
spec fn waited_for(g: SystemGraph, group: Set<int>, i: int) -> int {
    choose|j: int| group.contains(j) && g.depends_on(i, j)
}

/// Where one gets from `start` by going `k` times to a member that is waited for.
spec fn walk(g: SystemGraph, group: Set<int>, start: int, k: nat) -> int
    decreases k,
{
    if k == 0 {
        start
    } else {
        waited_for(g, group, walk(g, group, start, (k - 1) as nat))
    }
}

/// The walk stays in the group, and each of its members waits for the next.
proof fn lemma_walk(g: SystemGraph, group: Set<int>, start: int, k: nat)
    requires
        g.deadlocked(group),
        group.contains(start),
    ensures
        group.contains(walk(g, group, start, k)),
        0 <= walk(g, group, start, k) < g.len(),
        g.depends_on(walk(g, group, start, k), walk(g, group, start, k + 1)),
    decreases k,
{
    if k > 0 {
        lemma_walk(g, group, start, (k - 1) as nat);
        let before = walk(g, group, start, (k - 1) as nat);
        let witness = lemma_member_waits(g, group, before);
        assert(walk(g, group, start, k) == waited_for(g, group, before));
    }
    let here = walk(g, group, start, k);
    let next = lemma_member_waits(g, group, here);
    assert(walk(g, group, start, k + 1) == waited_for(g, group, here));
}

/// More numbers than `bound`, none of them as great as `bound`: two are equal.
proof fn lemma_two_equal(s: Seq<int>, bound: int)
    requires
        0 <= bound < s.len(),
        forall|k: int| 0 <= k < s.len() ==> 0 <= #[trigger] s[k] < bound,
    ensures
        exists|a: int, b: int| 0 <= a < b < s.len() && s[a] == s[b],
{
    if s.no_duplicates() {
        s.unique_seq_to_set();
        vstd::set_lib::lemma_int_range(0, bound);
        assert(s.to_set().subset_of(vstd::set_lib::set_int_range(0, bound))) by {
            assert forall|x: int| s.to_set().contains(x) implies vstd::set_lib::set_int_range(
                0,
                bound,
            ).contains(x) by {
                let k = choose|k: int| 0 <= k < s.len() && s[k] == x;
                assert(0 <= s[k] < bound);
            }
        }
        vstd::set_lib::lemma_len_subset(s.to_set(), vstd::set_lib::set_int_range(0, bound));
    } else {
        let (i, j) = choose|i: int, j: int|
            0 <= i < s.len() && 0 <= j < s.len() && i != j && s[i] == s[j];
        if i < j {
            assert(0 <= i < j < s.len() && s[i] == s[j]);
        } else {
            assert(0 <= j < i < s.len() && s[j] == s[i]);
        }
    }
}

/// A graph with a deadlocked group has a cycle: a walk through the group
/// from member to waited-for member comes back to a system it has passed.
pub proof fn lemma_deadlock_has_cycle(g: SystemGraph)
    requires
        g.has_deadlock(),
    ensures
        g.has_cycle(),
{
    let group = choose|group: Set<int>| g.deadlocked(group);
    let start = lemma_group_member(g, group);
    let first = lemma_member_waits(g, group, start);
    let n = g.len();
    let steps = Seq::new((n + 1) as nat, |k: int| walk(g, group, start, k as nat));
    assert forall|k: int| 0 <= k < steps.len() implies 0 <= #[trigger] steps[k] < n by {
        lemma_walk(g, group, start, k as nat);
    }
    lemma_two_equal(steps, n);
    let (a, b) = choose|a: int, b: int| 0 <= a < b < steps.len() && steps[a] == steps[b];
    let chain = Seq::new((b - a) as nat, |k: int| walk(g, group, start, (a + k) as nat));
    assert forall|k: int| 0 <= k < chain.len() implies g.depends_on(
        #[trigger] chain[k],
        chain[if k + 1 < chain.len() {
            k + 1
        } else {
            0
        }],
    ) by {
        lemma_walk(g, group, start, (a + k) as nat);
        if k + 1 < chain.len() {
            assert(chain[k + 1] == walk(g, group, start, (a + k + 1) as nat));
        } else {
            assert(walk(g, group, start, (a + k + 1) as nat) == steps[b]);
            assert(steps[a] == chain[0]);
        }
    }
    assert(g.closed_chain(chain));
}

/// A graph has a cycle exactly when it has a deadlocked group.
pub proof fn lemma_cycle_is_deadlock(g: SystemGraph)
    ensures
        g.has_cycle() <==> g.has_deadlock(),
{
    if g.has_cycle() {
        let chain = choose|chain: Seq<int>| g.closed_chain(chain);
        lemma_chain_is_deadlock(g, chain);
    }
    if g.has_deadlock() {
        lemma_deadlock_has_cycle(g);
    }
}

/// A graph that has an execution plan has no cycle.
pub proof fn lemma_plan_excludes_cycle(g: SystemGraph, waves: Seq<Seq<int>>)
    requires
        g.is_plan(waves),
    ensures
        !g.has_cycle(),
        !g.has_deadlock(),
{
    lemma_cycle_is_deadlock(g);
    if g.has_deadlock() {
        let group = choose|group: Set<int>| g.deadlocked(group);
        lemma_group_not_before(g, waves, group, waves.len());
        let i = lemma_group_member(g, group);
        let j = lemma_member_waits(g, group, i);
        assert(wave_of(waves, i) < waves.len());
    }
}

/// In an execution plan a system stands in a later wave than each system it
/// waits for, so that system has finished when this one starts.
pub proof fn lemma_dependency_runs_earlier(g: SystemGraph, waves: Seq<Seq<int>>, i: int, j: int)
    requires
        g.is_plan(waves),
        g.depends_on(i, j),
    ensures
        0 <= wave_of(waves, j) < wave_of(waves, i) < waves.len(),
        waves[wave_of(waves, i)].contains(i),
        waves[wave_of(waves, j)].contains(j),
{
}

/// More waves have started more systems.
proof fn lemma_started_grows(waves: Seq<Seq<int>>, m: int, n: int)
    requires
        0 <= m <= n,
    ensures
        started(waves, m).len() <= started(waves, n).len(),
    decreases n - m,
{
    if m < n {
        lemma_started_grows(waves, m, n - 1);
    }
}

/// The system at place `p` of wave `w` is started after all systems of the
/// waves before `w` and after the `p` systems before it in its wave.
proof fn lemma_started_at(waves: Seq<Seq<int>>, n: int, w: int, p: int)
    requires
        0 <= w < n,
        0 <= p < waves[w].len(),
    ensures
        started(waves, w).len() + p < started(waves, n).len(),
        started(waves, n)[started(waves, w).len() + p] == waves[w][p],
    decreases n,
{
    if w < n - 1 {
        lemma_started_at(waves, n - 1, w, p);
    }
}

/// Every place among the started systems is a place of one wave.
proof fn lemma_started_place(waves: Seq<Seq<int>>, n: int, a: int) -> (at: (int, int))
    requires
        0 <= a < started(waves, n).len(),
    ensures
        0 <= at.0 < n,
        0 <= at.1 < waves[at.0].len(),
        a == started(waves, at.0).len() + at.1,
        started(waves, n)[a] == waves[at.0][at.1],
    decreases n,
{
    if a < started(waves, n - 1).len() {
        lemma_started_place(waves, n - 1, a)
    } else {
        (n - 1, a - started(waves, n - 1).len())
    }
}

/// A run through all waves of an execution plan starts every system, and
/// starts it once.
pub proof fn lemma_started_once(g: SystemGraph, waves: Seq<Seq<int>>, i: int)
    requires
        g.is_plan(waves),
        0 <= i < g.len(),
    ensures
        started(waves, waves.len() as int).contains(i),
        forall|a: int, b: int|
            0 <= a < started(waves, waves.len() as int).len() && 0 <= b < started(
                waves,
                waves.len() as int,
            ).len() && started(waves, waves.len() as int)[a] == i && started(
                waves,
                waves.len() as int,
            )[b] == i ==> a == b,
{
    let n = waves.len() as int;
    let order = started(waves, n);
    let w = wave_of(waves, i);
    let p = waves[w].index_of(i);
    lemma_started_at(waves, n, w, p);
    assert(order[started(waves, w).len() + p] == i);
    assert forall|a: int, b: int|
        0 <= a < order.len() && 0 <= b < order.len() && order[a] == i && order[b] == i implies a
        == b by {
        let x = lemma_started_place(waves, n, a);
        let y = lemma_started_place(waves, n, b);
        assert(wave_of(waves, waves[x.0][x.1]) == x.0);
        assert(wave_of(waves, waves[y.0][y.1]) == y.0);
        if x.1 < y.1 {
            assert(waves[x.0][x.1] < waves[x.0][y.1]);
        }
        if y.1 < x.1 {
            assert(waves[x.0][y.1] < waves[x.0][x.1]);
        }
    }
}

/// A run through the waves of an execution plan starts a system after every
/// system that it waits for.
pub proof fn lemma_started_after_dependencies(
    g: SystemGraph,
    waves: Seq<Seq<int>>,
    i: int,
    j: int,
    a: int,
    b: int,
)
    requires
        g.is_plan(waves),
        g.depends_on(i, j),
        0 <= a < started(waves, waves.len() as int).len(),
        0 <= b < started(waves, waves.len() as int).len(),
        started(waves, waves.len() as int)[a] == i,
        started(waves, waves.len() as int)[b] == j,
    ensures
        b < a,
{
    let n = waves.len() as int;
    let x = lemma_started_place(waves, n, a);
    let y = lemma_started_place(waves, n, b);
    assert(wave_of(waves, waves[x.0][x.1]) == x.0);
    assert(wave_of(waves, waves[y.0][y.1]) == y.0);
    assert(y.0 < x.0);
    lemma_started_grows(waves, y.0 + 1, x.0);
    assert(started(waves, y.0 + 1) == started(waves, y.0) + waves[y.0]);
}

/// Two systems that wait for each other form a cycle.
pub proof fn lemma_mutual_dependency_is_cycle(g: SystemGraph, x: int, y: int)
    requires
        g.depends_on(x, y),
        g.depends_on(y, x),
    ensures
        g.has_cycle(),
{
    let chain = seq![x, y];
    assert forall|k: int| 0 <= k < chain.len() implies g.depends_on(
        #[trigger] chain[k],
        chain[if k + 1 < chain.len() {
            k + 1
        } else {
            0
        }],
    ) by {
        if k == 0 {
            assert(chain[0] == x && chain[1] == y);
        } else {
            assert(chain[1] == y && chain[0] == x);
        }
    }
    assert(g.closed_chain(chain));
}

/// A system that waits for itself forms a cycle.
pub proof fn lemma_self_dependency_is_cycle(g: SystemGraph, x: int)
    requires
        g.depends_on(x, x),
    ensures
        g.has_cycle(),
{
    let chain = seq![x];
    assert(chain[0] == x);
    assert(g.closed_chain(chain));
}

/// Whoever stands in one of the first waves of plan `a` stands in the same
/// wave of plan `b`.
proof fn lemma_same_wave(g: SystemGraph, a: Seq<Seq<int>>, b: Seq<Seq<int>>, w: nat)
    requires
        g.is_plan(a),
        g.is_plan(b),
    ensures
        forall|i: int|
            0 <= i < g.len() && wave_of(a, i) <= w ==> wave_of(b, i) == #[trigger] wave_of(a, i),
    decreases w,
{
    if w > 0 {
        lemma_same_wave(g, a, b, (w - 1) as nat);
    }
    assert forall|i: int| 0 <= i < g.len() && wave_of(a, i) <= w implies wave_of(b, i)
        == #[trigger] wave_of(a, i) by {
        let wa = wave_of(a, i);
        let wb = wave_of(b, i);
        if wa == w {
            if wa > 0 {
                let j = choose|j: int| g.depends_on(i, j) && wave_of(a, j) == wave_of(a, i) - 1;
                assert(wave_of(b, j) == wave_of(a, j));
                assert(wave_of(b, j) < wb);
            }
            if wb > wa {
                let j = choose|j: int| g.depends_on(i, j) && wave_of(b, j) == wave_of(b, i) - 1;
                assert(wave_of(a, j) < wa);
                assert(wave_of(b, j) == wave_of(a, j));
            }
        }
    }
}

/// Ascending sequences with the same members are the same sequence.
proof fn lemma_ascending_same(s: Seq<int>, t: Seq<int>)
    requires
        forall|p: int, q: int| 0 <= p < q < s.len() ==> s[p] < s[q],
        forall|p: int, q: int| 0 <= p < q < t.len() ==> t[p] < t[q],
        forall|x: int| s.contains(x) <==> t.contains(x),
    ensures
        s == t,
    decreases s.len(),
{
    if s.len() == 0 {
        if t.len() > 0 {
            assert(t.contains(t[0]));
        }
        assert(s =~= t);
    } else {
        assert(s.contains(s[0]));
        assert(t.len() > 0) by {
            let k = choose|k: int| 0 <= k < t.len() && t[k] == s[0];
        }
        assert(s.contains(s.last()));
        assert(t.contains(t.last()));
        let k = choose|k: int| 0 <= k < t.len() && t[k] == s.last();
        let m = choose|m: int| 0 <= m < s.len() && s[m] == t.last();
        assert(s.last() == t.last()) by {
            if k < t.len() - 1 {
                assert(t[k] < t[t.len() - 1]);
            }
            if m < s.len() - 1 {
                assert(s[m] < s[s.len() - 1]);
            }
        }
        let s0 = s.drop_last();
        let t0 = t.drop_last();
        assert forall|x: int| s0.contains(x) <==> t0.contains(x) by {
            if s0.contains(x) {
                let p = choose|p: int| 0 <= p < s0.len() && s0[p] == x;
                assert(s[p] == x && s[p] < s[s.len() - 1]);
                assert(s.contains(x));
                let q = choose|q: int| 0 <= q < t.len() && t[q] == x;
                assert(t0[q] == x);
            }
            if t0.contains(x) {
                let p = choose|p: int| 0 <= p < t0.len() && t0[p] == x;
                assert(t[p] == x && t[p] < t[t.len() - 1]);
                assert(t.contains(x));
                let q = choose|q: int| 0 <= q < s.len() && s[q] == x;
                assert(s0[q] == x);
            }
        }
        assert forall|p: int, q: int| 0 <= p < q < s0.len() implies s0[p] < s0[q] by {
            assert(s[p] < s[q]);
        }
        assert forall|p: int, q: int| 0 <= p < q < t0.len() implies t0[p] < t0[q] by {
            assert(t[p] < t[q]);
        }
        lemma_ascending_same(s0, t0);
        assert(s =~= s0.push(s.last()));
        assert(t =~= t0.push(t.last()));
    }
}

/// The members of wave `w` of a plan are the systems whose wave is `w`.
proof fn lemma_wave_members(g: SystemGraph, a: Seq<Seq<int>>, w: int, x: int)
    requires
        g.is_plan(a),
        0 <= w < a.len(),
    ensures
        a[w].contains(x) <==> 0 <= x < g.len() && wave_of(a, x) == w,
{
    if a[w].contains(x) {
        let p = choose|p: int| 0 <= p < a[w].len() && a[w][p] == x;
        assert(wave_of(a, a[w][p]) == w);
    }
}

/// A graph has at most one execution plan.
pub proof fn lemma_plan_unique(g: SystemGraph, a: Seq<Seq<int>>, b: Seq<Seq<int>>)
    requires
        g.is_plan(a),
        g.is_plan(b),
    ensures
        a == b,
{
    lemma_same_wave(g, a, b, a.len());
    lemma_same_wave(g, b, a, b.len());
    if a.len() > 0 {
        let x = a[a.len() - 1][0];
        assert(wave_of(a, x) == a.len() - 1);
        assert(wave_of(b, x) == wave_of(a, x));
    }
    if b.len() > 0 {
        let x = b[b.len() - 1][0];
        assert(wave_of(b, x) == b.len() - 1);
        assert(wave_of(a, x) == wave_of(b, x));
    }
    assert(a.len() == b.len());
    assert forall|w: int| 0 <= w < a.len() implies a[w] == b[w] by {
        assert forall|x: int| a[w].contains(x) <==> b[w].contains(x) by {
            lemma_wave_members(g, a, w, x);
            lemma_wave_members(g, b, w, x);
            if 0 <= x < g.len() {
                assert(wave_of(b, x) == wave_of(a, x));
            }
        }
        assert forall|p: int, q: int| 0 <= p < q < a[w].len() implies a[w][p] < a[w][q] by {}
        assert forall|p: int, q: int| 0 <= p < q < b[w].len() implies b[w][p] < b[w][q] by {}
        lemma_ascending_same(a[w], b[w]);
    }
    assert(a =~= b);
}

} // verus!
