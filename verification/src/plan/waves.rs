//! The waves of a graph whose dependencies are listed by index.

use vstd::prelude::*;
use super::{edges_of, wave_model, wave_of, waves_model, SystemGraph};

verus! {

/// The number of systems that stand in no wave yet.
spec fn count_unplaced(placed: Seq<bool>) -> nat
    decreases placed.len(),
{
    if placed.len() == 0 {
        0
    } else {
        count_unplaced(placed.drop_last()) + if placed.last() {
            0nat
        } else {
            1nat
        }
    }
}

proof fn lemma_count_place(placed: Seq<bool>, i: int)
    requires
        0 <= i < placed.len(),
        !placed[i],
    ensures
        count_unplaced(placed.update(i, true)) + 1 == count_unplaced(placed),
    decreases placed.len(),
{
    let after = placed.update(i, true);
    if i == placed.len() - 1 {
        assert(after.drop_last() =~= placed.drop_last());
    } else {
        lemma_count_place(placed.drop_last(), i);
        assert(after.drop_last() =~= placed.drop_last().update(i, true));
    }
}

proof fn lemma_count_zero(placed: Seq<bool>)
    requires
        count_unplaced(placed) == 0,
    ensures
        forall|i: int| 0 <= i < placed.len() ==> placed[i],
    decreases placed.len(),
{
    if placed.len() > 0 {
        lemma_count_zero(placed.drop_last());
        assert forall|i: int| 0 <= i < placed.len() implies placed[i] by {
            if i < placed.len() - 1 {
                assert(placed.drop_last()[i]);
            }
        }
    }
}

proof fn lemma_count_all(n: nat)
    ensures
        count_unplaced(Seq::new(n, |i: int| false)) == n,
    decreases n,
{
    if n > 0 {
        lemma_count_all((n - 1) as nat);
        assert(Seq::new(n, |i: int| false).drop_last() =~= Seq::new(
            (n - 1) as nat,
            |i: int| false,
        ));
    }
}

/// Whether every system listed in `row` already stands in a wave.
fn all_placed(row: &Vec<usize>, placed: &Vec<bool>) -> (b: bool)
    requires
        forall|p: int| 0 <= p < row.len() ==> row[p] < placed.len(),
    ensures
        b == forall|p: int| 0 <= p < row.len() ==> placed[#[trigger] row[p] as int],
{
    let mut p: usize = 0;
    while p < row.len()
        invariant
            p <= row.len(),
            forall|q: int| 0 <= q < row.len() ==> row[q] < placed.len(),
            forall|q: int| 0 <= q < p ==> placed[#[trigger] row[q] as int],
        decreases row.len() - p,
    {
        if !placed[row[p]] {
            return false;
        }
        p += 1;
    }
    true
}

/// Every dependency of system `i` already stands in a wave.
spec fn ready(g: SystemGraph, placed: Seq<bool>, i: int) -> bool {
    forall|j: int| #[trigger] g.depends_on(i, j) ==> placed[j]
}

/// What holds of the waves built so far: `lvl` gives the wave of every
/// placed system and -1 for the others.
#[verifier::opaque]
spec fn leveled(g: SystemGraph, ws: Seq<Seq<int>>, lvl: Seq<int>, placed: Seq<bool>) -> bool {
    &&& lvl.len() == g.len()
    &&& placed.len() == g.len()
    &&& forall|w: int| 0 <= w < ws.len() ==> (#[trigger] ws[w]).len() > 0
    &&& forall|w: int, p: int|
        0 <= w < ws.len() && 0 <= p < ws[w].len() ==> 0 <= #[trigger] ws[w][p] < g.len()
            && lvl[ws[w][p]] == w
    &&& forall|w: int, p: int, q: int|
        0 <= w < ws.len() && 0 <= p < q < ws[w].len() ==> #[trigger] ws[w][p] < #[trigger] ws[w][q]
    &&& forall|i: int|
        0 <= i < g.len() ==> -1 <= #[trigger] lvl[i] < ws.len() && (placed[i] <==> lvl[i] >= 0)
    &&& forall|i: int| 0 <= i < g.len() && #[trigger] placed[i] ==> ws[lvl[i]].contains(i)
    &&& forall|i: int, j: int| #[trigger] g.depends_on(i, j) && placed[i] ==> 0 <= lvl[j] < lvl[i]
    &&& forall|i: int|
        0 <= i < g.len() && #[trigger] lvl[i] > 0 ==> exists|j: int|
            g.depends_on(i, j) && lvl[j] == lvl[i] - 1
    &&& ws.len() > 0 ==> forall|i: int|
        0 <= i < g.len() && !#[trigger] placed[i] ==> exists|j: int|
            g.depends_on(i, j) && (lvl[j] == -1 || lvl[j] == ws.len() - 1)
}

proof fn lemma_leveled_start(g: SystemGraph)
    requires
        g.wf(),
    ensures
        leveled(
            g,
            Seq::<Seq<int>>::empty(),
            Seq::new(g.len() as nat, |i: int| -1int),
            Seq::new(g.len() as nat, |i: int| false),
        ),
{
    reveal(leveled);
}

/// One more wave: the unplaced systems whose dependencies are all placed.
proof fn lemma_leveled_extend(
    g: SystemGraph,
    ws: Seq<Seq<int>>,
    lvl: Seq<int>,
    placed: Seq<bool>,
    wave: Seq<int>,
    lvl2: Seq<int>,
    placed2: Seq<bool>,
)
    requires
        g.wf(),
        leveled(g, ws, lvl, placed),
        wave.len() > 0,
        forall|p: int| 0 <= p < wave.len() ==> 0 <= #[trigger] wave[p] < g.len(),
        forall|p: int, q: int| 0 <= p < q < wave.len() ==> #[trigger] wave[p] < #[trigger] wave[q],
        forall|i: int|
            0 <= i < g.len() ==> (#[trigger] wave.contains(i) <==> !placed[i] && ready(
                g,
                placed,
                i,
            )),
        lvl2.len() == g.len(),
        placed2.len() == g.len(),
        forall|i: int|
            0 <= i < g.len() ==> #[trigger] placed2[i] == (placed[i] || wave.contains(i)),
        forall|i: int|
            0 <= i < g.len() ==> #[trigger] lvl2[i] == if wave.contains(i) {
                ws.len() as int
            } else {
                lvl[i]
            },
    ensures
        leveled(g, ws.push(wave), lvl2, placed2),
{
    reveal(leveled);
    let ws2 = ws.push(wave);
    let n = ws.len() as int;
    assert forall|w: int, p: int| 0 <= w < ws2.len() && 0 <= p < ws2[w].len() implies 0
        <= #[trigger] ws2[w][p] < g.len() && lvl2[ws2[w][p]] == w by {
        if w < n {
            assert(ws2[w] == ws[w]);
            let i = ws[w][p];
            assert(lvl[i] == w);
            assert(placed[i]);
            assert(!wave.contains(i));
        } else {
            assert(ws2[w] == wave);
            assert(wave.contains(wave[p]));
        }
    }
    assert forall|w: int, p: int, q: int|
        0 <= w < ws2.len() && 0 <= p < q < ws2[w].len() implies #[trigger] ws2[w][p]
        < #[trigger] ws2[w][q] by {
        if w < n {
            assert(ws2[w] == ws[w]);
        }
    }
    assert forall|i: int| 0 <= i < g.len() && #[trigger] placed2[i] implies ws2[lvl2[i]].contains(i) by {
        if wave.contains(i) {
            assert(ws2[n] == wave);
        } else {
            assert(placed[i]);
            assert(ws2[lvl[i]] == ws[lvl[i]]);
        }
    }
    assert forall|i: int, j: int| #[trigger] g.depends_on(i, j) && placed2[i] implies 0 <= lvl2[j]
        < lvl2[i] by {
        if wave.contains(i) {
            assert(ready(g, placed, i));
            assert(placed[j]);
            assert(!wave.contains(j));
        } else {
            assert(placed[i]);
            assert(placed[j]);
            assert(!wave.contains(j));
        }
    }
    assert forall|i: int| 0 <= i < g.len() && #[trigger] lvl2[i] > 0 implies exists|j: int|
        g.depends_on(i, j) && lvl2[j] == lvl2[i] - 1 by {
        if wave.contains(i) {
            assert(!placed[i]);
            let j = choose|j: int| g.depends_on(i, j) && (lvl[j] == -1 || lvl[j] == ws.len() - 1);
            assert(placed[j]);
            assert(!wave.contains(j));
            assert(g.depends_on(i, j) && lvl2[j] == lvl2[i] - 1);
        } else {
            let j = choose|j: int| g.depends_on(i, j) && lvl[j] == lvl[i] - 1;
            assert(placed[j]);
            assert(!wave.contains(j));
            assert(g.depends_on(i, j) && lvl2[j] == lvl2[i] - 1);
        }
    }
    assert forall|i: int| 0 <= i < g.len() && !#[trigger] placed2[i] implies exists|j: int|
        g.depends_on(i, j) && (lvl2[j] == -1 || lvl2[j] == ws2.len() - 1) by {
        assert(!wave.contains(i));
        assert(!ready(g, placed, i));
        let j = choose|j: int| g.depends_on(i, j) && !placed[j];
        assert(g.depends_on(i, j) && (lvl2[j] == -1 || lvl2[j] == ws2.len() - 1));
    }
    assert forall|i: int| 0 <= i < g.len() implies -1 <= #[trigger] lvl2[i] < ws2.len() && (
    placed2[i] <==> lvl2[i] >= 0) by {
        assert(placed2[i] == (placed[i] || wave.contains(i)));
    }
    assert forall|w: int| 0 <= w < ws2.len() implies (#[trigger] ws2[w]).len() > 0 by {
        if w < n {
            assert(ws2[w] == ws[w]);
        }
    }
}

/// Once every system is placed, the waves are the plan.
proof fn lemma_leveled_plan(g: SystemGraph, ws: Seq<Seq<int>>, lvl: Seq<int>, placed: Seq<bool>)
    requires
        g.wf(),
        leveled(g, ws, lvl, placed),
        forall|i: int| 0 <= i < g.len() ==> placed[i],
    ensures
        g.is_plan(ws),
        forall|i: int| 0 <= i < g.len() ==> wave_of(ws, i) == lvl[i],
{
    reveal(leveled);
    assert forall|i: int| 0 <= i < g.len() implies wave_of(ws, i) == lvl[i] by {
        assert(placed[i]);
        assert(0 <= lvl[i] < ws.len() && ws[lvl[i]].contains(i));
        let w = wave_of(ws, i);
        assert(0 <= w < ws.len() && ws[w].contains(i));
        let p = choose|p: int| 0 <= p < ws[w].len() && ws[w][p] == i;
        assert(lvl[ws[w][p]] == w);
    }
    assert forall|i: int, j: int| #[trigger] g.depends_on(i, j) implies wave_of(ws, j) < wave_of(
        ws,
        i,
    ) by {
        assert(placed[i]);
    }
    assert forall|i: int| 0 <= i < g.len() && #[trigger] wave_of(ws, i) > 0 implies exists|j: int|
        g.depends_on(i, j) && wave_of(ws, j) == wave_of(ws, i) - 1 by {
        assert(lvl[i] > 0);
        let j = choose|j: int| g.depends_on(i, j) && lvl[j] == lvl[i] - 1;
        assert(g.depends_on(i, j) && wave_of(ws, j) == wave_of(ws, i) - 1);
    }
    assert forall|w: int, p: int| 0 <= w < ws.len() && 0 <= p < ws[w].len() implies wave_of(
        ws,
        #[trigger] ws[w][p],
    ) == w by {
        assert(lvl[ws[w][p]] == w);
    }
    assert forall|i: int| 0 <= i < g.len() implies 0 <= #[trigger] wave_of(ws, i) < ws.len()
        && ws[wave_of(ws, i)].contains(i) by {
        assert(placed[i]);
    }
}

proof fn lemma_count_positive(placed: Seq<bool>)
    requires
        count_unplaced(placed) > 0,
    ensures
        exists|i: int| 0 <= i < placed.len() && !placed[i],
    decreases placed.len(),
{
    if placed.len() > 0 {
        if placed.last() {
            lemma_count_positive(placed.drop_last());
            let i = choose|i: int| 0 <= i < placed.drop_last().len() && !placed.drop_last()[i];
            assert(!placed[i]);
        } else {
            assert(!placed[placed.len() - 1]);
        }
    }
}

proof fn lemma_ready(g: SystemGraph, edges: Seq<Vec<usize>>, placed: Seq<bool>, i: int)
    requires
        edges_of(g, edges),
        placed.len() == g.len(),
        0 <= i < g.len(),
    ensures
        ready(g, placed, i) <==> forall|p: int|
            0 <= p < edges[i]@.len() ==> placed[#[trigger] edges[i]@[p] as int],
{
    let row = edges[i]@;
    if ready(g, placed, i) {
        assert forall|p: int| 0 <= p < row.len() implies placed[#[trigger] row[p] as int] by {
            let j = row[p] as int;
            assert(row.contains(j as usize));
            assert(g.depends_on(i, j));
        }
    }
    if forall|p: int| 0 <= p < row.len() ==> placed[#[trigger] row[p] as int] {
        assert forall|j: int| #[trigger] g.depends_on(i, j) implies placed[j] by {
            assert(row.contains(j as usize));
            let p = choose|p: int| 0 <= p < row.len() && row[p] == j as usize;
            assert(placed[row[p] as int]);
        }
    }
}

/// The next wave: every unplaced system whose dependencies are all placed,
/// in registration order.
fn next_wave(edges: &Vec<Vec<usize>>, placed: &Vec<bool>, Ghost(g): Ghost<SystemGraph>) -> (wave:
    Vec<usize>)
    requires
        edges_of(g, edges@),
        placed.len() == g.len(),
    ensures
        forall|p: int| 0 <= p < wave.len() ==> #[trigger] wave[p] < g.len(),
        forall|p: int, q: int| 0 <= p < q < wave.len() ==> #[trigger] wave[p] < #[trigger] wave[q],
        forall|i: int|
            0 <= i < g.len() ==> (#[trigger] wave@.contains(i as usize) <==> !placed[i] && ready(
                g,
                placed@,
                i,
            )),
{
    let n = edges.len();
    let mut wave: Vec<usize> = Vec::new();
    let mut i: usize = 0;
    while i < n
        invariant
            edges_of(g, edges@),
            placed.len() == g.len(),
            n == edges.len(),
            i <= n,
            forall|p: int| 0 <= p < wave.len() ==> #[trigger] wave[p] < i,
            forall|p: int, q: int|
                0 <= p < q < wave.len() ==> #[trigger] wave[p] < #[trigger] wave[q],
            forall|k: int|
                0 <= k < i ==> (#[trigger] wave@.contains(k as usize) <==> !placed[k] && ready(
                    g,
                    placed@,
                    k,
                )),
        decreases n - i,
    {
        proof {
            lemma_ready(g, edges@, placed@, i as int);
        }
        let ghost before = wave@;
        if !placed[i] && all_placed(&edges[i], placed) {
            wave.push(i);
            assert(wave@[before.len() as int] == i);
            assert forall|k: int| 0 <= k < i + 1 implies (#[trigger] wave@.contains(k as usize)
                <==> !placed[k] && ready(g, placed@, k)) by {
                if k < i {
                    if before.contains(k as usize) {
                        let p = choose|p: int| 0 <= p < before.len() && before[p] == k as usize;
                        assert(wave@[p] == k as usize);
                    }
                    if wave@.contains(k as usize) {
                        let p = choose|p: int| 0 <= p < wave@.len() && wave@[p] == k as usize;
                        assert(before[p] == k as usize);
                    }
                }
            }
        } else {
            assert forall|k: int| 0 <= k < i + 1 implies (#[trigger] wave@.contains(k as usize)
                <==> !placed[k] && ready(g, placed@, k)) by {
                if k == i && wave@.contains(k as usize) {
                    let p = choose|p: int| 0 <= p < wave@.len() && wave@[p] == k as usize;
                    assert(wave[p] < i);
                }
            }
        }
        i += 1;
    }
    assert forall|i: int| 0 <= i < g.len() implies (#[trigger] wave@.contains(i as usize)
        <==> !placed[i] && ready(g, placed@, i)) by {}
    wave
}

proof fn lemma_wave_model_contains(wave: Seq<usize>)
    ensures
        forall|i: int|
            0 <= i <= usize::MAX ==> (#[trigger] wave_model(wave).contains(i) <==> wave.contains(
                i as usize,
            )),
{
    let m = wave_model(wave);
    assert forall|i: int| 0 <= i <= usize::MAX implies (#[trigger] m.contains(i) <==> wave.contains(
        i as usize,
    )) by {
        if m.contains(i) {
            let p = choose|p: int| 0 <= p < m.len() && m[p] == i;
            assert(wave[p] == i as usize);
        }
        if wave.contains(i as usize) {
            let p = choose|p: int| 0 <= p < wave.len() && wave[p] == i as usize;
            assert(m[p] == i);
        }
    }
}

/// System `i` is one of the first `p` members of the ascending `wave`.
spec fn marked(wave: Seq<usize>, p: int, i: int) -> bool {
    wave.contains(i as usize) && (p >= wave.len() || i < wave[p])
}

proof fn lemma_marked_step(wave: Seq<usize>, p: int, i: int)
    requires
        0 <= p < wave.len(),
        0 <= i <= usize::MAX,
        forall|a: int, b: int| 0 <= a < b < wave.len() ==> #[trigger] wave[a] < #[trigger] wave[b],
    ensures
        marked(wave, p + 1, i) <==> marked(wave, p, i) || i == wave[p],
        !marked(wave, p, wave[p] as int),
        !marked(wave, 0, i),
{
    if wave.contains(i as usize) {
        let q = choose|q: int| 0 <= q < wave.len() && wave[q] == i as usize;
        if q < p {
            assert(wave[q] < wave[p]);
            if p + 1 < wave.len() {
                assert(wave[q] < wave[p + 1]);
            }
        } else if q == p {
            if p + 1 < wave.len() {
                assert(wave[p] < wave[p + 1]);
            }
        } else {
            assert(wave[p] < wave[q]);
            if q > p + 1 {
                assert(wave[p + 1] < wave[q]);
            }
            if q > 0 {
                assert(wave[0] <= wave[q]);
            }
        }
        if q > 0 {
            assert(wave[0] < wave[q]);
        }
    }
    assert(wave.contains(wave[p]));
}

/// Where systems are left and none of them is ready, they are deadlocked.
proof fn lemma_stuck(g: SystemGraph, placed: Seq<bool>, wave: Seq<usize>)
    requires
        placed.len() == g.len(),
        g.len() <= usize::MAX,
        count_unplaced(placed) > 0,
        wave.len() == 0,
        forall|i: int|
            0 <= i < g.len() ==> (#[trigger] wave.contains(i as usize) <==> !placed[i] && ready(
                g,
                placed,
                i,
            )),
    ensures
        g.has_deadlock(),
{
    lemma_count_positive(placed);
    let group = Set::new(|i: int| 0 <= i < g.len() && !placed[i]);
    assert forall|i: int| #[trigger] group.contains(i) implies 0 <= i < g.len() && exists|j: int|
        group.contains(j) && g.depends_on(i, j) by {
        assert(!wave.contains(i as usize));
        assert(!ready(g, placed, i));
        let j = choose|j: int| g.depends_on(i, j) && !placed[j];
        assert(group.contains(j) && g.depends_on(i, j));
    }
    let i0 = choose|i: int| 0 <= i < placed.len() && !placed[i];
    assert(group.contains(i0));
    reveal(SystemGraph::deadlocked);
    assert(g.deadlocked(group));
}

/// What marking the members of a wave as placed amounts to.
proof fn lemma_marked_all(
    g: SystemGraph,
    ws0: Seq<Seq<int>>,
    lvl0: Seq<int>,
    placed0: Seq<bool>,
    wave: Seq<usize>,
    lvl: Seq<int>,
    placed: Seq<bool>,
)
    requires
        g.wf(),
        g.len() <= usize::MAX,
        leveled(g, ws0, lvl0, placed0),
        wave.len() > 0,
        lvl.len() == g.len(),
        placed.len() == g.len(),
        forall|q: int| 0 <= q < wave.len() ==> #[trigger] wave[q] < g.len(),
        forall|a: int, b: int| 0 <= a < b < wave.len() ==> #[trigger] wave[a] < #[trigger] wave[b],
        forall|i: int|
            0 <= i < g.len() ==> (#[trigger] wave.contains(i as usize) <==> !placed0[i] && ready(
                g,
                placed0,
                i,
            )),
        forall|i: int|
            0 <= i < g.len() ==> #[trigger] placed[i] == (placed0[i] || marked(
                wave,
                wave.len() as int,
                i,
            )),
        forall|i: int|
            0 <= i < g.len() ==> #[trigger] lvl[i] == if marked(wave, wave.len() as int, i) {
                ws0.len() as int
            } else {
                lvl0[i]
            },
    ensures
        leveled(g, ws0.push(wave_model(wave)), lvl, placed),
{
    let wm = wave_model(wave);
    lemma_wave_model_contains(wave);
    assert forall|i: int| 0 <= i < g.len() implies (#[trigger] wm.contains(i) <==> !placed0[i]
        && ready(g, placed0, i)) by {
        assert(wave.contains(i as usize) <==> wm.contains(i));
    }
    assert forall|i: int| 0 <= i < g.len() implies #[trigger] placed[i] == (placed0[i]
        || wm.contains(i)) by {
        assert(placed[i] == (placed0[i] || marked(wave, wave.len() as int, i)));
    }
    assert forall|i: int| 0 <= i < g.len() implies #[trigger] lvl[i] == if wm.contains(i) {
        ws0.len() as int
    } else {
        lvl0[i]
    } by {}
    lemma_leveled_extend(g, ws0, lvl0, placed0, wm, lvl, placed);
}

/// Orders the systems of `g`, whose dependencies `edges` lists by index,
/// into waves, or finds that they cannot be ordered.
pub(super) fn build_waves(edges: &Vec<Vec<usize>>, Ghost(g): Ghost<SystemGraph>) -> (r: Option<
    Vec<Vec<usize>>,
>)
    requires
        edges_of(g, edges@),
    ensures
        match r {
            Some(waves) => g.is_plan(waves_model(waves@)),
            None => g.has_deadlock(),
        },
{
    let n = edges.len();
    let mut placed: Vec<bool> = Vec::new();
    let mut k: usize = 0;
    while k < n
        invariant
            k <= n,
            placed.len() == k,
            forall|i: int| 0 <= i < k ==> !placed[i],
        decreases n - k,
    {
        placed.push(false);
        k += 1;
    }
    let mut remaining: usize = n;
    let mut waves: Vec<Vec<usize>> = Vec::new();
    let ghost mut lvl: Seq<int> = Seq::new(n as nat, |i: int| -1int);
    proof {
        lemma_count_all(n as nat);
        assert(placed@ =~= Seq::new(n as nat, |i: int| false));
        lemma_leveled_start(g);
        assert(waves_model(waves@) =~= Seq::<Seq<int>>::empty());
    }
    while remaining > 0
        invariant
            edges_of(g, edges@),
            n == edges.len(),
            placed.len() == n,
            lvl.len() == n,
            remaining == count_unplaced(placed@),
            leveled(g, waves_model(waves@), lvl, placed@),
        decreases remaining,
    {
        let wave = next_wave(edges, &placed, Ghost(g));
        if wave.len() == 0 {
            proof {
                lemma_stuck(g, placed@, wave@);
            }
            return None;
        }
        let ghost placed0 = placed@;
        let ghost lvl0 = lvl;
        let ghost ws0 = waves_model(waves@);
        let mut p: usize = 0;
        proof {
            assert forall|i: int| 0 <= i < n implies !marked(wave@, 0, i) by {
                lemma_marked_step(wave@, 0, i);
            }
            assert forall|q: int| 0 <= q < wave.len() implies
                !placed0[#[trigger] wave[q] as int] by {
                let i = wave[q] as int;
                assert(wave@[q] == i as usize);
                assert(wave@.contains(i as usize));
            }
        }
        while p < wave.len()
            invariant
                p <= wave.len(),
                n == g.len(),
                placed.len() == n,
                lvl.len() == n,
                remaining + p == count_unplaced(placed0),
                remaining == count_unplaced(placed@),
                forall|q: int| 0 <= q < wave.len() ==> #[trigger] wave[q] < n,
                forall|a: int, b: int|
                    0 <= a < b < wave.len() ==> #[trigger] wave[a] < #[trigger] wave[b],
                forall|q: int| 0 <= q < wave.len() ==> !placed0[#[trigger] wave[q] as int],
                forall|i: int|
                    0 <= i < n ==> #[trigger] placed[i] == (placed0[i] || marked(
                        wave@,
                        p as int,
                        i,
                    )),
                forall|i: int|
                    0 <= i < n ==> #[trigger] lvl[i] == if marked(wave@, p as int, i) {
                        ws0.len() as int
                    } else {
                        lvl0[i]
                    },
            decreases wave.len() - p,
        {
            let s = wave[p];
            proof {
                lemma_marked_step(wave@, p as int, s as int);
                assert(!placed[s as int]);
                lemma_count_place(placed@, s as int);
                assert forall|i: int| 0 <= i < n implies (marked(wave@, p + 1, i) <==> marked(
                    wave@,
                    p as int,
                    i,
                ) || i == s) by {
                    lemma_marked_step(wave@, p as int, i);
                }
            }
            placed.set(s, true);
            remaining -= 1;
            proof {
                lvl = lvl.update(s as int, ws0.len() as int);
            }
            p += 1;
        }
        proof {
            lemma_marked_all(g, ws0, lvl0, placed0, wave@, lvl, placed@);
        }
        waves.push(wave);
        proof {
            assert(waves_model(waves@) =~= ws0.push(wave_model(wave@)));
        }
    }
    proof {
        lemma_count_zero(placed@);
        lemma_leveled_plan(g, waves_model(waves@), lvl, placed@);
    }
    Some(waves)
}

} // verus!
