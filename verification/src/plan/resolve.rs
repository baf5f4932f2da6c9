//! From names to indices: which system waits for which.

use vstd::prelude::*;
use super::{edges_of, graph_of, names_model, SystemEntry};

verus! {

/// Whether `name` occurs in `list`.
fn contains_name(list: &Vec<String>, name: &String) -> (b: bool)
    ensures
        b == names_model(list@).contains(name@),
{
    let mut k: usize = 0;
    while k < list.len()
        invariant
            k <= list.len(),
            forall|q: int| 0 <= q < k ==> names_model(list@)[q] != name@,
        decreases list.len() - k,
    {
        if list[k] == *name {
            assert(names_model(list@)[k as int] == name@);
            return true;
        }
        k += 1;
    }
    false
}

/// Whether `name` is the name of one of `systems`.
fn is_system_name<S>(systems: &Vec<SystemEntry<S>>, name: &String) -> (b: bool)
    ensures
        b == graph_of(systems@).names.contains(name@),
{
    let mut k: usize = 0;
    while k < systems.len()
        invariant
            k <= systems.len(),
            forall|q: int| 0 <= q < k ==> graph_of(systems@).names[q] != name@,
        decreases systems.len() - k,
    {
        if systems[k].name == *name {
            assert(graph_of(systems@).names[k as int] == name@);
            return true;
        }
        k += 1;
    }
    false
}

/// Whether every dependency of system `i` names a registered system.
fn deps_known<S>(systems: &Vec<SystemEntry<S>>, i: usize) -> (b: bool)
    requires
        i < systems.len(),
    ensures
        b == forall|k: int|
            0 <= k < graph_of(systems@).deps[i as int].len() ==> graph_of(systems@).names.contains(
                #[trigger] graph_of(systems@).deps[i as int][k],
            ),
{
    let ghost g = graph_of(systems@);
    let mut k: usize = 0;
    while k < systems[i].deps.len()
        invariant
            i < systems.len(),
            g == graph_of(systems@),
            k <= systems[i as int].deps.len(),
            forall|q: int| 0 <= q < k ==> g.names.contains(#[trigger] g.deps[i as int][q]),
        decreases systems[i as int].deps.len() - k,
    {
        if !is_system_name(systems, &systems[i].deps[k]) {
            assert(g.deps[i as int][k as int] == systems[i as int].deps[k as int]@);
            return false;
        }
        assert(g.deps[i as int][k as int] == systems[i as int].deps[k as int]@);
        k += 1;
    }
    true
}

/// The systems that system `i` waits for, by index, in registration order.
fn edge_row<S>(systems: &Vec<SystemEntry<S>>, i: usize) -> (row: Vec<usize>)
    requires
        i < systems.len(),
    ensures
        forall|p: int| 0 <= p < row.len() ==> #[trigger] row[p] < systems.len(),
        forall|j: int|
            0 <= j < systems.len() ==> (row@.contains(j as usize) <==> #[trigger] graph_of(
                systems@,
            ).depends_on(i as int, j)),
{
    let ghost g = graph_of(systems@);
    let mut row: Vec<usize> = Vec::new();
    let mut j: usize = 0;
    while j < systems.len()
        invariant
            i < systems.len(),
            g == graph_of(systems@),
            j <= systems.len(),
            forall|p: int| 0 <= p < row.len() ==> #[trigger] row[p] < j,
            forall|k: int|
                0 <= k < j ==>
                    (row@.contains(k as usize) <==> #[trigger] g.depends_on(i as int, k)),
        decreases systems.len() - j,
    {
        let ghost before = row@;
        let hit = contains_name(&systems[i].deps, &systems[j].name);
        assert(hit == g.depends_on(i as int, j as int));
        if hit {
            row.push(j);
            assert(row@[before.len() as int] == j);
        }
        assert forall|k: int| 0 <= k < j + 1 implies (row@.contains(k as usize)
            <==> #[trigger] g.depends_on(i as int, k)) by {
            if before.contains(k as usize) {
                let p = choose|p: int| 0 <= p < before.len() && before[p] == k as usize;
                assert(row@[p] == k as usize);
            }
            if row@.contains(k as usize) && k < j {
                let p = choose|p: int| 0 <= p < row@.len() && row@[p] == k as usize;
                assert(before[p] == k as usize);
            }
            if row@.contains(k as usize) && k == j && !hit {
                let p = choose|p: int| 0 <= p < row@.len() && row@[p] == k as usize;
                assert(row[p] < j);
            }
        }
        j += 1;
    }
    row
}

/// The dependencies of `systems` by index, where every dependency is known.
pub(super) fn resolve<S>(systems: &Vec<SystemEntry<S>>) -> (r: Option<Vec<Vec<usize>>>)
    ensures
        match r {
            Some(edges) => graph_of(systems@).all_known() && edges_of(graph_of(systems@), edges@),
            None => !graph_of(systems@).all_known(),
        },
{
    let ghost g = graph_of(systems@);
    let mut edges: Vec<Vec<usize>> = Vec::new();
    let mut i: usize = 0;
    while i < systems.len()
        invariant
            g == graph_of(systems@),
            i <= systems.len(),
            edges.len() == i,
            forall|a: int, k: int|
                0 <= a < i && 0 <= k < g.deps[a].len() ==> g.names.contains(
                    #[trigger] g.deps[a][k],
                ),
            forall|a: int, p: int|
                0 <= a < i && 0 <= p < edges[a]@.len() ==> #[trigger] edges[a]@[p] < systems.len(),
            forall|a: int, j: int|
                0 <= a < i && 0 <= j < systems.len() ==> (edges[a]@.contains(j as usize)
                    <==> #[trigger] g.depends_on(a, j)),
        decreases systems.len() - i,
    {
        if !deps_known(systems, i) {
            return None;
        }
        let row = edge_row(systems, i);
        edges.push(row);
        i += 1;
    }
    Some(edges)
}

} // verus!
