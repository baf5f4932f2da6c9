//! The windows that the renderer draws to, found by the window's entity or
//! by the entity that mirrors it.

use vstd::prelude::*;
use crate::entity::Entity;
use crate::sync::EntityRenderEntityMap;

verus! {

/// Marks the entities of the render world that mirror a window.
#[derive(Clone, Copy, PartialEq, Eq, Debug, Default)]
pub struct ExtractedWindow;

/// What the renderer holds of a window, for every window entity that has a
/// mirror, in the order in which the windows came. `W` is what it holds: a
/// surface and the handles to draw on it.
pub struct ExtractedWindows<W> {
    pairs: EntityRenderEntityMap,
    mirrors: Vec<usize>,
    held: Vec<W>,
}

impl<W> ExtractedWindows<W> {
    /// Which render entity mirrors which window entity.
    pub closed spec fn pairs(&self) -> EntityRenderEntityMap {
        self.pairs
    }

    /// The mirrors for which a window is held, in the order in which the
    /// windows came.
    pub closed spec fn mirrors(&self) -> Seq<usize> {
        self.mirrors@
    }

    /// What is held, in the same order: `held()[i]` belongs to `mirrors()[i]`.
    pub closed spec fn held(&self) -> Seq<W> {
        self.held@
    }

    /// Every mirror has one window and every window a mirror, and the pairs
    /// are kept in both directions.
    pub open spec fn wf(&self) -> bool {
        &&& self.pairs().wf()
        &&& self.mirrors().len() == self.held().len()
        &&& self.mirrors().no_duplicates()
        &&& forall|m: usize|
            self.mirrors().contains(m) <==> self.pairs().mirror_to_primary().dom().contains(m)
    }

    /// No window is held.
    pub fn new() -> (windows: ExtractedWindows<W>)
        ensures
            windows.wf(),
            windows.mirrors() == Seq::<usize>::empty(),
            windows.held() == Seq::<W>::empty(),
            windows.pairs().primary_to_mirror() == Map::<usize, usize>::empty(),
    {
        ExtractedWindows { pairs: EntityRenderEntityMap::new(), mirrors: Vec::new(), held: Vec::new() }
    }

    /// The place of the mirror `key` among the mirrors.
    fn position(&self, key: usize) -> (at: Option<usize>)
        ensures
            match at {
                Some(i) => i < self.mirrors().len() && self.mirrors()[i as int] == key,
                None => !self.mirrors().contains(key),
            },
    {
        let mut i: usize = 0;
        while i < self.mirrors.len()
            invariant
                i <= self.mirrors.len(),
                forall|j: int| 0 <= j < i ==> self.mirrors@[j] != key,
            decreases self.mirrors.len() - i,
        {
            if self.mirrors[i] == key {
                return Some(i);
            }
            i += 1;
        }
        None
    }

    /// Holds `window` for `entity` and its mirror `render_entity`, behind
    /// the windows that are held already. Where one of the two stands in a
    /// pair already nothing changes and the window comes back.
    pub fn insert(&mut self, entity: Entity, render_entity: Entity, window: W) -> (refused: Option<
        W,
    >)
        requires
            old(self).wf(),
        ensures
            final(self).wf(),
            refused.is_none() == (!old(self).pairs().primary_to_mirror().dom().contains(entity.id())
                && !old(self).pairs().mirror_to_primary().dom().contains(render_entity.id())),
            match refused {
                None => final(self).mirrors() == old(self).mirrors().push(render_entity.id())
                    && final(self).held() == old(self).held().push(window)
                    && final(self).pairs().primary_to_mirror()
                    == old(self).pairs().primary_to_mirror().insert(entity.id(), render_entity.id()),
                Some(back) => back == window && final(self).mirrors() == old(self).mirrors()
                    && final(self).held() == old(self).held()
                    && final(self).pairs().primary_to_mirror()
                    == old(self).pairs().primary_to_mirror(),
            },
    {
        if self.pairs.insert(entity, render_entity) {
            self.mirrors.push(render_entity.id());
            self.held.push(window);
            proof {
                let n = old(self).mirrors().len() as int;
                assert(self.mirrors()[n] == render_entity.id());
                assert forall|m: usize|
                    self.mirrors().contains(m) <==> self.pairs().mirror_to_primary().dom().contains(m) by {
                    if old(self).mirrors().contains(m) {
                        let j = choose|j: int|
                            0 <= j < old(self).mirrors().len() && old(self).mirrors()[j] == m;
                        assert(self.mirrors()[j] == m);
                    }
                    if self.mirrors().contains(m) && m != render_entity.id() {
                        let j = choose|j: int| 0 <= j < self.mirrors().len()
                            && self.mirrors()[j] == m;
                        assert(old(self).mirrors()[j] == m);
                    }
                }
                assert(!old(self).mirrors().contains(render_entity.id()));
            }
            None
        } else {
            Some(window)
        }
    }

    /// The mirror of the window entity `entity`, if a window is held for it.
    pub fn get_render_entity(&self, entity: Entity) -> (mirror: Option<Entity>)
        ensures
            match mirror {
                Some(m) => self.pairs().primary_to_mirror().contains_pair(entity.id(), m.id()),
                None => !self.pairs().primary_to_mirror().dom().contains(entity.id()),
            },
    {
        self.pairs.get_render_entity(entity)
    }

    /// What is held for the mirror `render_entity`, if anything.
    pub fn get_through_render_entity(&self, render_entity: Entity) -> (window: Option<&W>)
        requires
            self.wf(),
        ensures
            match window {
                Some(w) => exists|i: int|
                    0 <= i < self.mirrors().len() && self.mirrors()[i] == render_entity.id()
                        && self.held()[i] == *w,
                None => !self.mirrors().contains(render_entity.id()),
            },
    {
        match self.position(render_entity.id()) {
            None => None,
            Some(i) => Some(&self.held[i]),
        }
    }

    /// What is held for the window entity `entity`, if anything.
    pub fn get_through_entity(&self, entity: Entity) -> (window: Option<&W>)
        requires
            self.wf(),
        ensures
            match window {
                Some(w) => self.pairs().primary_to_mirror().dom().contains(entity.id())
                    && exists|i: int|
                    0 <= i < self.mirrors().len() && self.mirrors()[i]
                        == self.pairs().primary_to_mirror()[entity.id()] && self.held()[i] == *w,
                None => !self.pairs().primary_to_mirror().dom().contains(entity.id()),
            },
    {
        match self.pairs.get_render_entity(entity) {
            None => None,
            Some(mirror) => {
                proof {
                    assert(self.pairs().primary_to_mirror().contains_pair(entity.id(), mirror.id()));
                    assert(self.pairs().mirror_to_primary().contains_pair(mirror.id(), entity.id()));
                    assert(self.mirrors().contains(mirror.id()));
                }
                self.get_through_render_entity(mirror)
            },
        }
    }

    /// What is held for the mirror `render_entity`, to be changed in place.
    /// Something must be held for it.
    pub fn get_mut_through_render_entity(&mut self, render_entity: Entity) -> (window: &mut W)
        requires
            old(self).wf(),
            old(self).mirrors().contains(render_entity.id()),
        ensures
            old(self).mirrors()[old(self).mirrors().index_of(render_entity.id())]
                == render_entity.id(),
            *window == old(self).held()[old(self).mirrors().index_of(render_entity.id())],
            final(self).held() == old(self).held().update(
                old(self).mirrors().index_of(render_entity.id()),
                *final(window),
            ),
            final(self).mirrors() == old(self).mirrors(),
            final(self).pairs() == old(self).pairs(),
    {
        let at = self.position(render_entity.id());
        let i = match at {
            Some(i) => i,
            None => 0,
        };
        proof {
            let j = self.mirrors().index_of(render_entity.id());
            assert(0 <= j < self.mirrors().len() && self.mirrors()[j] == render_entity.id());
            assert(i == j);
        }
        &mut self.held[i]
    }

    /// What is held for the window entity `entity`, to be changed in place.
    /// Something must be held for it.
    pub fn get_mut_through_entity(&mut self, entity: Entity) -> (window: &mut W)
        requires
            old(self).wf(),
            old(self).pairs().primary_to_mirror().dom().contains(entity.id()),
        ensures
            *window == old(self).held()[old(self).mirrors().index_of(
                old(self).pairs().primary_to_mirror()[entity.id()],
            )],
            final(self).held() == old(self).held().update(
                old(self).mirrors().index_of(old(self).pairs().primary_to_mirror()[entity.id()]),
                *final(window),
            ),
            final(self).mirrors() == old(self).mirrors(),
            final(self).pairs() == old(self).pairs(),
    {
        let found = self.pairs.get_render_entity(entity);
        let mirror = match found {
            Some(mirror) => mirror,
            None => entity,
        };
        proof {
            assert(self.pairs().primary_to_mirror().contains_pair(entity.id(), mirror.id()));
            assert(self.pairs().mirror_to_primary().contains_pair(mirror.id(), entity.id()));
            assert(self.mirrors().contains(mirror.id()));
        }
        self.get_mut_through_render_entity(mirror)
    }

    /// Lets go of what is held for the mirror `render_entity` and hands it
    /// back, if anything was held. The other windows keep their order.
    pub fn remove_through_render_entity(&mut self, render_entity: Entity) -> (window: Option<W>)
        requires
            old(self).wf(),
        ensures
            final(self).wf(),
            match window {
                Some(w) => exists|i: int|
                    0 <= i < old(self).mirrors().len() && old(self).mirrors()[i]
                        == render_entity.id() && old(self).held()[i] == w && final(self).mirrors()
                        == old(self).mirrors().remove(i)
                            && final(self).held() == old(self).held().remove(i)
                                && final(self).pairs().primary_to_mirror()
                                    == old(self).pairs().primary_to_mirror().remove(
                        old(self).pairs().mirror_to_primary()[render_entity.id()],
                    ),
                None => !old(self).mirrors().contains(render_entity.id()) && final(self).mirrors()
                    == old(self).mirrors() && final(self).held() == old(self).held()
                        && final(self).pairs().primary_to_mirror()
                            == old(self).pairs().primary_to_mirror(),
            },
    {
        let key = render_entity.id();
        match self.position(key) {
            None => None,
            Some(i) => {
                proof {
                    assert(self.mirrors().contains(key));
                }
                self.pairs.delete_through_render_entity(render_entity);
                self.mirrors.remove(i);
                let window = self.held.remove(i);
                proof {
                    let before = old(self).mirrors();
                    assert(self.mirrors() =~= before.remove(i as int));
                    assert forall|m: usize|
                        self.mirrors().contains(m) <==>
                            self.pairs().mirror_to_primary().dom().contains(m) by {
                        if self.mirrors().contains(m) {
                            let j = choose|j: int|
                                0 <= j < self.mirrors().len() && self.mirrors()[j] == m;
                            if j < i {
                                assert(before[j] == m);
                            } else {
                                assert(before[j + 1] == m);
                            }
                            assert(before.contains(m));
                        }
                        if before.contains(m) && m != key {
                            let j = choose|j: int| 0 <= j < before.len() && before[j] == m;
                            if j < i {
                                assert(self.mirrors()[j] == m);
                            } else {
                                assert(self.mirrors()[j - 1] == m);
                            }
                        }
                    }
                    assert forall|a: int, b: int|
                        0 <= a < self.mirrors().len() && 0 <= b < self.mirrors().len() && a
                            != b implies self.mirrors()[a] != self.mirrors()[b] by {
                        let a2 = if a < i {
                            a
                        } else {
                            a + 1
                        };
                        let b2 = if b < i {
                            b
                        } else {
                            b + 1
                        };
                        assert(before[a2] != before[b2]);
                    }
                }
                Some(window)
            },
        }
    }

    /// Lets go of what is held for the window entity `entity` and hands it
    /// back, if anything was held. The other windows keep their order.
    pub fn remove_through_entity(&mut self, entity: Entity) -> (window: Option<W>)
        requires
            old(self).wf(),
        ensures
            final(self).wf(),
            final(self).pairs().primary_to_mirror() == old(self).pairs().primary_to_mirror().remove(
                entity.id(),
            ),
            match window {
                Some(w) => old(self).pairs().primary_to_mirror().dom().contains(entity.id())
                    && exists|i: int|
                    0 <= i < old(self).mirrors().len()
                        && old(self).mirrors()[i]
                            == old(self).pairs().primary_to_mirror()[entity.id()]
                                && old(self).held()[i] == w
                        && final(self).mirrors() == old(self).mirrors().remove(i)
                            && final(self).held() == old(self).held().remove(i),
                None => !old(self).pairs().primary_to_mirror().dom().contains(entity.id())
                    && final(self).mirrors() == old(self).mirrors()
                        && final(self).held() == old(self).held(),
            },
    {
        match self.pairs.get_render_entity(entity) {
            None => {
                proof {
                    assert(self.pairs().primary_to_mirror().remove(entity.id())
                        =~= self.pairs().primary_to_mirror());
                }
                None
            },
            Some(mirror) => {
                proof {
                    assert(self.pairs().primary_to_mirror().contains_pair(entity.id(), mirror.id()));
                    assert(self.pairs().mirror_to_primary().contains_pair(mirror.id(), entity.id()));
                    assert(self.mirrors().contains(mirror.id()));
                }
                self.remove_through_render_entity(mirror)
            },
        }
    }

    /// Everything that is held, in the order in which the windows came.
    pub fn iter_windows(&self) -> (windows: &Vec<W>)
        ensures
            windows@ == self.held(),
    {
        &self.held
    }

    /// The number of windows that are held.
    pub fn len(&self) -> (n: usize)
        ensures
            n == self.held().len(),
    {
        self.held.len()
    }
}

} // verus!
