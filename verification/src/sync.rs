//! Mirroring of entities from the primary world into the render world.

use vstd::prelude::*;
use std::collections::HashMap;
use crate::entity::{ids, lemma_entity_is_its_id, Entity};
use crate::events::{lemma_filter_no_duplicates, Events, Raised};
use crate::world::{
    despawn, entities_with, extract, put_component, remove_component, run_wave, spawn_with, Store,
    SyncComponent, System,
};

verus! {

broadcast use vstd::std_specs::hash::group_hash_axioms;

/// Marks a primary entity that is to have a mirror in the render world.
#[derive(Clone, Copy, PartialEq, Eq, Debug, Default)]
pub struct SyncToRenderWorld;

/// Marks the entities of the render world that mirror a primary entity.
#[derive(Clone, Copy, PartialEq, Eq, Debug, Default)]
pub struct RenderEntity;

/// Which render entity mirrors which primary entity, kept in both directions.
pub struct EntityRenderEntityMap {
    entity_to_render_entity: HashMap<usize, usize>,
    render_entity_to_entity: HashMap<usize, usize>,
}

impl EntityRenderEntityMap {
    /// Primary entity to its mirror.
    pub closed spec fn primary_to_mirror(&self) -> Map<usize, usize> {
        self.entity_to_render_entity@
    }

    /// Mirror to its primary entity.
    pub closed spec fn mirror_to_primary(&self) -> Map<usize, usize> {
        self.render_entity_to_entity@
    }

    /// The two directions are inverses of each other: a pair stands in one
    /// exactly when the reversed pair stands in the other.
    pub open spec fn wf(&self) -> bool {
        forall|p: usize, m: usize|
            self.primary_to_mirror().contains_pair(p, m) <==>
                self.mirror_to_primary().contains_pair(
                m,
                p,
            )
    }

    /// A map without pairs.
    pub fn new() -> (map: EntityRenderEntityMap)
        ensures
            map.wf(),
            map.primary_to_mirror() == Map::<usize, usize>::empty(),
            map.mirror_to_primary() == Map::<usize, usize>::empty(),
    {
        EntityRenderEntityMap {
            entity_to_render_entity: HashMap::new(),
            render_entity_to_entity: HashMap::new(),
        }
    }

    /// The mirror of `entity`, if it has one.
    pub fn get_render_entity(&self, entity: Entity) -> (mirror: Option<Entity>)
        ensures
            match mirror {
                Some(m) => self.primary_to_mirror().contains_pair(entity.id(), m.id()),
                None => !self.primary_to_mirror().dom().contains(entity.id()),
            },
    {
        let key = entity.id();
        match self.entity_to_render_entity.get(&key) {
            Some(m) => Some(Entity::with_id(*m)),
            None => None,
        }
    }

    /// The primary entity that `render_entity` mirrors, if it mirrors one.
    pub fn get_entity(&self, render_entity: Entity) -> (primary: Option<Entity>)
        ensures
            match primary {
                Some(p) => self.mirror_to_primary().contains_pair(render_entity.id(), p.id()),
                None => !self.mirror_to_primary().dom().contains(render_entity.id()),
            },
    {
        let key = render_entity.id();
        match self.render_entity_to_entity.get(&key) {
            Some(p) => Some(Entity::with_id(*p)),
            None => None,
        }
    }

    /// Records that `render_entity` mirrors `entity`. Where one of the two
    /// stands in a pair already, nothing is recorded, since the directions
    /// could no longer be inverses. Returns whether the pair was recorded.
    pub fn insert(&mut self, entity: Entity, render_entity: Entity) -> (inserted: bool)
        ensures
            old(self).wf() ==> final(self).wf(),
            inserted == (!old(self).primary_to_mirror().dom().contains(entity.id())
                && !old(self).mirror_to_primary().dom().contains(render_entity.id())),
            inserted ==> final(self).primary_to_mirror() == old(self).primary_to_mirror().insert(
                entity.id(),
                render_entity.id(),
            ) && final(self).mirror_to_primary() == old(self).mirror_to_primary().insert(
                render_entity.id(),
                entity.id(),
            ),
            !inserted ==> final(self).primary_to_mirror() == old(self).primary_to_mirror()
                && final(self).mirror_to_primary() == old(self).mirror_to_primary(),
    {
        let p = entity.id();
        let m = render_entity.id();
        if self.entity_to_render_entity.contains_key(&p)
            || self.render_entity_to_entity.contains_key(&m) {
            return false;
        }
        self.entity_to_render_entity.insert(p, m);
        self.render_entity_to_entity.insert(m, p);
        proof {
            if old(self).wf() {
                assert forall|a: usize, b: usize|
                    self.primary_to_mirror().contains_pair(a, b)
                        <==> self.mirror_to_primary().contains_pair(b, a) by {
                    assert(old(self).primary_to_mirror().contains_pair(a, b) <==> old(self).mirror_to_primary().contains_pair(b, a));
                }
            }
        }
        true
    }

    /// Removes the pair of `render_entity`, which must stand in one.
    pub fn delete_through_render_entity(&mut self, render_entity: Entity)
        requires
            old(self).mirror_to_primary().dom().contains(render_entity.id()),
        ensures
            old(self).wf() ==> final(self).wf(),
            final(self).mirror_to_primary()
                == old(self).mirror_to_primary().remove(render_entity.id()),
            final(self).primary_to_mirror() == old(self).primary_to_mirror().remove(
                old(self).mirror_to_primary()[render_entity.id()],
            ),
    {
        let m = render_entity.id();
        let found = self.render_entity_to_entity.remove(&m);
        match found {
            Some(p) => {
                self.entity_to_render_entity.remove(&p);
                proof {
                    assert(old(self).mirror_to_primary().contains_pair(m, p));
                    if old(self).wf() {
                        assert(old(self).primary_to_mirror().contains_pair(p, m));
                        assert forall|a: usize, b: usize|
                            self.primary_to_mirror().contains_pair(a, b)
                                <==> self.mirror_to_primary().contains_pair(b, a) by {
                            assert(old(self).primary_to_mirror().contains_pair(a, b) <==> old(self).mirror_to_primary().contains_pair(b, a));
                        }
                    }
                }
            },
            None => {},
        }
    }

    /// The number of primary entities that have a mirror.
    pub fn len(&self) -> (n: usize)
        ensures
            n == self.primary_to_mirror().dom().len(),
    {
        self.entity_to_render_entity.len()
    }

    /// The number of render entities that mirror a primary entity.
    pub fn mirrors_len(&self) -> (n: usize)
        ensures
            n == self.mirror_to_primary().dom().len(),
    {
        self.render_entity_to_entity.len()
    }
}

/// Why a synchronisation pass stopped.
#[derive(Clone, Copy, PartialEq, Eq, Structural, Debug)]
pub enum SyncError {
    /// The store refused a call: it is not sealed yet, a marker or component
    /// type is not registered, or an entity is gone.
    Store,
    /// The render world handed out, as a new entity, this one, which stands
    /// in a pair already.
    MirrorPaired(Entity),
    /// This entity of the render world carries the marker of mirrors and
    /// stands in no pair.
    MirrorUnpaired(Entity),
    /// This primary entity is to have a component copied and has no mirror.
    NoMirror(Entity),
}

impl EntityRenderEntityMap {
    /// The two directions hold the same number of pairs, and each holds the
    /// pairs of the other reversed.
    pub proof fn lemma_bijection(&self)
        requires
            self.wf(),
        ensures
            self.primary_to_mirror().dom().finite(),
            self.mirror_to_primary().dom().finite(),
            self.primary_to_mirror().dom().len() == self.mirror_to_primary().dom().len(),
            forall|p: usize| #[trigger]
                self.primary_to_mirror().dom().contains(p) ==>
                    self.mirror_to_primary().contains_pair(
                    self.primary_to_mirror()[p],
                    p,
                ),
            forall|m: usize| #[trigger]
                self.mirror_to_primary().dom().contains(m) ==>
                    self.primary_to_mirror().contains_pair(
                    self.mirror_to_primary()[m],
                    m,
                ),
    {
        let forward = self.primary_to_mirror();
        let backward = self.mirror_to_primary();
        let f = |p: usize| forward[p];
        assert forall|p: usize| #[trigger] forward.dom().contains(p) implies backward.contains_pair(
            forward[p],
            p,
        ) by {
            assert(forward.contains_pair(p, forward[p]));
        }
        assert forall|m: usize| #[trigger] backward.dom().contains(m) implies forward.contains_pair(
            backward[m],
            m,
        ) by {
            assert(backward.contains_pair(m, backward[m]));
        }
        assert(vstd::relations::injective_on(f, forward.dom())) by {
            assert forall|a: usize, b: usize|
                forward.dom().contains(a) && forward.dom().contains(b) && #[trigger] f(a)
                    == #[trigger] f(b) implies a == b by {
                assert(backward.contains_pair(forward[a], a));
                assert(backward.contains_pair(forward[b], b));
            }
        }
        assert(forward.dom().map(f) =~= backward.dom()) by {
            assert forall|m: usize| forward.dom().map(f).contains(m) <==> backward.dom().contains(m) by {
                if backward.dom().contains(m) {
                    let p = backward[m];
                    assert(forward.contains_pair(p, m));
                    assert(forward.dom().contains(p) && f(p) == m);
                }
                if forward.dom().map(f).contains(m) {
                    let p = choose|p: usize| forward.dom().contains(p) && f(p) == m;
                    assert(backward.contains_pair(forward[p], p));
                }
            }
        }
        vstd::set_lib::lemma_map_size(forward.dom(), backward.dom(), f);
    }
}

/// Whether `entity` occurs in `list`.
pub fn contains_entity(list: &Vec<Entity>, entity: Entity) -> (b: bool)
    ensures
        b == list@.contains(entity),
        b == ids(list@).contains(entity.id()),
{
    let mut i: usize = 0;
    while i < list.len()
        invariant
            i <= list.len(),
            forall|j: int| 0 <= j < i ==> list@[j] != entity,
        decreases list.len() - i,
    {
        if list[i] == entity {
            proof {
                assert(ids(list@)[i as int] == entity.id());
            }
            return true;
        }
        i += 1;
    }
    proof {
        if ids(list@).contains(entity.id()) {
            let j = choose|j: int| 0 <= j < ids(list@).len() && ids(list@)[j] == entity.id();
            assert(list@[j].id() == entity.id());
            lemma_entity_is_its_id(list@[j], entity);
        }
    }
    false
}

impl EntityRenderEntityMap {
    /// The creation pass: every entity of `marked` that has no mirror yet
    /// gets a new entity of the render world as its mirror. Pairs that
    /// stood before stay. The pass stops where the store refuses to create
    /// an entity, as a store that is not sealed does, or hands out one that
    /// stands in a pair already.
    pub fn mirror_marked(&mut self, marked: &Vec<Entity>, render_world: &Store) -> (r: Result<
        (),
        SyncError,
    >)
        ensures
            old(self).wf() ==> final(self).wf(),
            match r {
                Ok(()) => true,
                Err(SyncError::Store) => true,
                Err(SyncError::MirrorPaired(m)) => final(self).mirror_to_primary().dom().contains(
                    m.id(),
                ),
                Err(SyncError::MirrorUnpaired(_)) => false,
                Err(SyncError::NoMirror(_)) => false,
            },
            forall|p: usize, m: usize|
                old(self).primary_to_mirror().contains_pair(p, m) ==>
                    final(self).primary_to_mirror().contains_pair(p, m),
            forall|p: usize| #[trigger]
                final(self).primary_to_mirror().dom().contains(p) ==>
                    old(self).primary_to_mirror().dom().contains(p) || ids(marked@).contains(p),
            r.is_ok() ==> forall|p: usize| #[trigger]
                ids(marked@).contains(p) ==> final(self).primary_to_mirror().dom().contains(p),
            (forall|p: usize| #[trigger]
                ids(marked@).contains(p) ==> old(self).primary_to_mirror().dom().contains(p))
                ==> r.is_ok() && final(self).primary_to_mirror() == old(self).primary_to_mirror()
                && final(self).mirror_to_primary() == old(self).mirror_to_primary(),
            (exists|p: usize|
                ids(marked@).contains(p) && !old(self).primary_to_mirror().dom().contains(p))
                && !render_world.sealed() ==> r == Err::<(), SyncError>(SyncError::Store),
    {
        let mut i: usize = 0;
        while i < marked.len()
            invariant
                i <= marked.len(),
                old(self).wf() ==> self.wf(),
                !render_world.sealed() ==> self.primary_to_mirror() == old(self).primary_to_mirror(),
                (forall|p: usize| #[trigger]
                    ids(marked@).contains(p) ==> old(self).primary_to_mirror().dom().contains(p))
                    ==> self.primary_to_mirror() == old(self).primary_to_mirror()
                    && self.mirror_to_primary() == old(self).mirror_to_primary(),
                forall|p: usize, m: usize|
                    old(self).primary_to_mirror().contains_pair(p, m)
                        ==> self.primary_to_mirror().contains_pair(p, m),
                forall|p: usize| #[trigger]
                    self.primary_to_mirror().dom().contains(p) ==>
                        old(self).primary_to_mirror().dom().contains(p) || ids(marked@).contains(p),
                forall|j: int|
                    0 <= j < i ==> self.primary_to_mirror().dom().contains(
                        #[trigger] ids(marked@)[j],
                    ),
            decreases marked.len() - i,
        {
            let entity = marked[i];
            proof {
                assert(ids(marked@)[i as int] == entity.id());
                assert(ids(marked@).contains(entity.id()));
            }
            if self.get_render_entity(entity).is_none() {
                if !render_world.is_sealed() {
                    return Err(SyncError::Store);
                }
                match spawn_with(render_world, RenderEntity) {
                    None => {
                        return Err(SyncError::Store);
                    },
                    Some(mirror) => {
                        if !self.insert(entity, mirror) {
                            return Err(SyncError::MirrorPaired(mirror));
                        }
                    },
                }
            }
            i += 1;
        }
        proof {
            assert forall|p: usize| #[trigger] ids(marked@).contains(p) implies
                self.primary_to_mirror().dom().contains(p) by {
                let j = choose|j: int| 0 <= j < ids(marked@).len() && ids(marked@)[j] == p;
                assert(self.primary_to_mirror().dom().contains(ids(marked@)[j]));
            }
        }
        Ok(())
    }

    /// The deletion pass: every entity of `mirrors` whose primary entity is
    /// not in `marked` is deleted from the render world, and its pair from
    /// the map. The other pairs stay. The pass stops at an entity of
    /// `mirrors` without a pair, and where the store refuses a deletion.
    pub fn drop_unmarked(
        &mut self,
        mirrors: &Vec<Entity>,
        marked: &Vec<Entity>,
        render_world: &Store,
    ) -> (r: Result<(), SyncError>)
        ensures
            old(self).wf() ==> final(self).wf(),
            match r {
                Ok(()) => true,
                Err(SyncError::Store) => true,
                Err(SyncError::MirrorPaired(_)) => false,
                Err(SyncError::MirrorUnpaired(m)) => ids(mirrors@).contains(m.id())
                    && !final(self).mirror_to_primary().dom().contains(m.id()),
                Err(SyncError::NoMirror(_)) => false,
            },
            (exists|k: int|
                0 <= k < mirrors@.len() && !old(self).mirror_to_primary().dom().contains(
                    ids(mirrors@)[k],
                )) ==> r.is_err(),
            forall|m: usize| #[trigger]
                final(self).mirror_to_primary().dom().contains(m) ==> old(self).mirror_to_primary().dom().contains(m),
            forall|p: usize, m: usize|
                final(self).primary_to_mirror().contains_pair(p, m) ==>
                    old(self).primary_to_mirror().contains_pair(p, m),
            forall|p: usize, m: usize|
                old(self).primary_to_mirror().contains_pair(p, m) && ids(marked@).contains(p)
                    ==> final(self).primary_to_mirror().contains_pair(p, m),
            old(self).wf() ==> forall|p: usize, m: usize|
                old(self).primary_to_mirror().contains_pair(p, m) && !ids(mirrors@).contains(m)
                    ==> final(self).primary_to_mirror().contains_pair(p, m),
            old(self).wf() && r.is_ok() ==> forall|p: usize, m: usize|
                final(self).primary_to_mirror().contains_pair(p, m) && ids(mirrors@).contains(m)
                    ==> ids(marked@).contains(p),
            (forall|m: usize| #[trigger]
                ids(mirrors@).contains(m) ==> old(self).mirror_to_primary().dom().contains(m)
                    && ids(marked@).contains(old(self).mirror_to_primary()[m])) ==> r.is_ok()
                && final(self).primary_to_mirror() == old(self).primary_to_mirror()
                && final(self).mirror_to_primary() == old(self).mirror_to_primary(),
    {
        let mut i: usize = 0;
        while i < mirrors.len()
            invariant
                i <= mirrors.len(),
                old(self).wf() ==> self.wf(),
                (forall|m: usize| #[trigger]
                    ids(mirrors@).contains(m) ==> old(self).mirror_to_primary().dom().contains(m)
                        && ids(marked@).contains(old(self).mirror_to_primary()[m]))
                    ==> self.primary_to_mirror() == old(self).primary_to_mirror()
                    && self.mirror_to_primary() == old(self).mirror_to_primary(),
                forall|m: usize| #[trigger]
                    self.mirror_to_primary().dom().contains(m) ==> old(self).mirror_to_primary().dom().contains(m),
                forall|j: int|
                    0 <= j < i ==> old(self).mirror_to_primary().dom().contains(
                        #[trigger] ids(mirrors@)[j],
                    ),
                forall|p: usize, m: usize|
                    self.primary_to_mirror().contains_pair(p, m) ==>
                        old(self).primary_to_mirror().contains_pair(p, m),
                forall|p: usize, m: usize|
                    old(self).primary_to_mirror().contains_pair(p, m) && ids(marked@).contains(p)
                        ==> self.primary_to_mirror().contains_pair(p, m),
                old(self).wf() ==> forall|p: usize, m: usize|
                    old(self).primary_to_mirror().contains_pair(p, m) && !ids(mirrors@).contains(m)
                        ==> self.primary_to_mirror().contains_pair(p, m),
                forall|j: int|
                    0 <= j < i && self.mirror_to_primary().dom().contains(
                        #[trigger] ids(mirrors@)[j],
                    ) ==> ids(marked@).contains(self.mirror_to_primary()[ids(mirrors@)[j]]),
            decreases mirrors.len() - i,
        {
            let mirror = mirrors[i];
            proof {
                assert(ids(mirrors@)[i as int] == mirror.id());
                assert(ids(mirrors@).contains(mirror.id()));
            }
            match self.get_entity(mirror) {
                None => {
                    return Err(SyncError::MirrorUnpaired(mirror));
                },
                Some(primary) => {
                    proof {
                        assert(self.mirror_to_primary().dom().contains(mirror.id()));
                    }
                    if !contains_entity(marked, primary) {
                        let ghost before = *self;
                        self.delete_through_render_entity(mirror);
                        proof {
                            assert(before.mirror_to_primary().contains_pair(mirror.id(), primary.id()));
                            if old(self).wf() {
                                assert(before.primary_to_mirror().contains_pair(
                                    primary.id(),
                                    mirror.id(),
                                ));
                                assert forall|p: usize, m: usize|
                                    old(self).primary_to_mirror().contains_pair(p, m) && !ids(
                                        mirrors@,
                                    ).contains(m) implies self.primary_to_mirror().contains_pair(
                                    p,
                                    m,
                                ) by {
                                    assert(before.primary_to_mirror().contains_pair(p, m));
                                }
                            }
                            assert forall|p: usize, m: usize|
                                old(self).primary_to_mirror().contains_pair(p, m) && ids(
                                    marked@,
                                ).contains(p) implies self.primary_to_mirror().contains_pair(
                                p,
                                m,
                            ) by {
                                assert(before.primary_to_mirror().contains_pair(p, m));
                            }
                        }
                        if !despawn(render_world, mirror) {
                            return Err(SyncError::Store);
                        }
                    }
                },
            }
            i += 1;
        }
        proof {
            if exists|k: int|
                0 <= k < mirrors@.len() && !old(self).mirror_to_primary().dom().contains(
                    ids(mirrors@)[k],
                ) {
                let k = choose|k: int|
                    0 <= k < mirrors@.len() && !old(self).mirror_to_primary().dom().contains(
                        ids(mirrors@)[k],
                    );
                assert(old(self).mirror_to_primary().dom().contains(ids(mirrors@)[k]));
            }
            if old(self).wf() {
                assert forall|p: usize, m: usize|
                    self.primary_to_mirror().contains_pair(p, m) && ids(mirrors@).contains(m)
                    implies ids(marked@).contains(p) by {
                    let j = choose|j: int| 0 <= j < ids(mirrors@).len() && ids(mirrors@)[j] == m;
                    assert(self.mirror_to_primary().contains_pair(m, p));
                    assert(self.mirror_to_primary().dom().contains(ids(mirrors@)[j]));
                }
            }
        }
        Ok(())
    }
}

/// Marks the primary entity `entity` to be mirrored from the next Sync
/// phase on. Returns whether the store took the marker, which it does not
/// where it is not sealed or does not know the entity or the marker.
pub fn mark_for_mirroring(world: &Store, entity: Entity) -> (marked: bool)
    ensures
        !world.sealed() ==> !marked,
{
    if !world.is_sealed() {
        return false;
    }
    put_component(world, entity, SyncToRenderWorld)
}

/// Takes the mirror marker from the primary entity `entity`: the next Sync
/// phase deletes its mirror. Returns whether the store knew the entity and
/// the marker; a store that is not sealed knows no entity.
pub fn unmark_for_mirroring(world: &Store, entity: Entity) -> (unmarked: bool)
    ensures
        !world.sealed() ==> !unmarked,
{
    if !world.is_sealed() {
        return false;
    }
    remove_component::<SyncToRenderWorld>(world, entity)
}

/// Makes the two worlds ready for mirroring: the primary world learns the
/// mirror marker, the render world the marker of mirrors. Returns whether
/// both took their marker, which a sealed store does not; the attempt is
/// made on both whatever the first answers.
pub fn register_mirroring(world: &mut Store, render_world: &mut Store) -> (registered: bool)
    ensures
        registered == (!old(world).sealed() && !old(render_world).sealed()),
        final(world).sealed() == old(world).sealed(),
        final(render_world).sealed() == old(render_world).sealed(),
{
    let primary = world.register_component::<SyncToRenderWorld>();
    let render = render_world.register_component::<RenderEntity>();
    primary && render
}

/// Makes the render world ready to hold the copies of the component `C`.
/// Returns whether it took the type, which a sealed store does not.
pub fn register_mirrored_component<C: SyncComponent>(render_world: &mut Store) -> (registered:
    bool) where C::Out: 'static
    ensures
        registered == !old(render_world).sealed(),
        final(render_world).sealed() == old(render_world).sealed(),
{
    render_world.register_component::<C::Out>()
}

/// What the store answered during one Sync phase.
#[derive(PartialEq, Eq, Debug)]
pub struct SyncOutcome {
    /// The primary entities that carried the mirror marker.
    pub marked: Vec<Entity>,
    /// The render entities that were found after the creation pass.
    pub mirrors: Vec<Entity>,
}

/// One Sync phase for the entities themselves: the creation pass over the
/// primary entities that carry the mirror marker, then the deletion pass
/// over the render entities, both as the store lists them.
///
/// Whatever the store answers, the map's two directions stay inverses. On
/// success every marked entity has a mirror, and every render entity that
/// was found and still has a pair mirrors a marked entity. The phase stops
/// at a fault of the engine and names the render entity: one that the store
/// handed out as new although it stands in a pair, or one that was found
/// and stands in no pair.
pub fn sync_entities(map: &mut EntityRenderEntityMap, world: &Store, render_world: &Store) -> (r:
    Result<SyncOutcome, SyncError>)
    ensures
        old(map).wf() ==> final(map).wf(),
        match r {
            Ok(outcome) => (forall|p: usize| #[trigger]
                ids(outcome.marked@).contains(p) ==>
                    final(map).primary_to_mirror().dom().contains(p)) && (old(map).wf() ==>
                forall|p: usize, m: usize|
                    final(map).primary_to_mirror().contains_pair(p, m) && ids(
                        outcome.mirrors@,
                    ).contains(m) ==> ids(outcome.marked@).contains(p))
                && outcome.marked@.no_duplicates() && outcome.mirrors@.no_duplicates(),
            Err(SyncError::Store) => true,
            Err(SyncError::MirrorPaired(m)) => final(map).mirror_to_primary().dom().contains(
                m.id(),
            ),
            Err(SyncError::MirrorUnpaired(m)) => !final(map).mirror_to_primary().dom().contains(
                m.id(),
            ),
            Err(SyncError::NoMirror(_)) => false,
        },
{
    let marked = match entities_with::<SyncToRenderWorld>(world) {
        Some(found) => found,
        None => {
            return Err(SyncError::Store);
        },
    };
    match map.mirror_marked(&marked, render_world) {
        Ok(()) => {},
        Err(e) => {
            return Err(e);
        },
    }
    let mirrors = match entities_with::<RenderEntity>(render_world) {
        Some(found) => found,
        None => {
            return Err(SyncError::Store);
        },
    };
    let ghost middle = *map;
    match map.drop_unmarked(&mirrors, &marked, render_world) {
        Ok(()) => {
            proof {
                assert forall|p: usize| #[trigger] ids(marked@).contains(p) implies
                    map.primary_to_mirror().dom().contains(p) by {
                    assert(middle.primary_to_mirror().dom().contains(p));
                    let m = middle.primary_to_mirror()[p];
                    assert(middle.primary_to_mirror().contains_pair(p, m));
                    assert(map.primary_to_mirror().contains_pair(p, m));
                }
            }
            Ok(SyncOutcome { marked, mirrors })
        },
        Err(e) => Err(e),
    }
}

/// The render world's copy of a component, with the primary entity it
/// belongs to.
pub struct SyncComponentEntityMapping<C: SyncComponent>(pub C::Out, pub Entity);

/// The copies of the components of type `C` that are to be mirrored.
pub struct SyncComponents<C: SyncComponent> {
    pub components: Vec<SyncComponentEntityMapping<C>>,
}

/// The entities of `list` that occur in `other`, in the order of `list`.
pub fn common(list: &Vec<Entity>, other: &Vec<Entity>) -> (both: Vec<Entity>)
    ensures
        both@ == list@.filter(|e: Entity| other@.contains(e)),
        list@.no_duplicates() ==> both@.no_duplicates(),
{
    let ghost keep = |e: Entity| other@.contains(e);
    let mut both: Vec<Entity> = Vec::new();
    let mut i: usize = 0;
    proof {
        assert(list@.take(0) =~= Seq::<Entity>::empty());
    }
    while i < list.len()
        invariant
            i <= list.len(),
            keep == |e: Entity| other@.contains(e),
            both@ == list@.take(i as int).filter(keep),
        decreases list.len() - i,
    {
        proof {
            lemma_filter_next(list@, keep, i as int);
        }
        if contains_entity(other, list[i]) {
            both.push(list[i]);
        }
        i += 1;
    }
    proof {
        assert(list@.take(i as int) =~= list@);
        if list@.no_duplicates() {
            lemma_filter_no_duplicates(list@, keep);
        }
    }
    both
}

/// The entities that lost their component: where `known` is longer than
/// `current`, the entities of `known` that are not in `current`, in the
/// order of `known`; otherwise none.
pub open spec fn lost_model(known: Seq<Entity>, current: Seq<Entity>) -> Seq<Entity> {
    if known.len() > current.len() {
        known.filter(|e: Entity| !current.contains(e))
    } else {
        Seq::<Entity>::empty()
    }
}

/// The mirrors of those of `entities` that have one in `pairs`, in the
/// order of `entities`.
pub open spec fn paired_mirrors(pairs: Map<usize, usize>, entities: Seq<Entity>) -> Seq<usize>
    decreases entities.len(),
{
    if entities.len() == 0 {
        Seq::<usize>::empty()
    } else if pairs.dom().contains(entities.last().id()) {
        paired_mirrors(pairs, entities.drop_last()).push(pairs[entities.last().id()])
    } else {
        paired_mirrors(pairs, entities.drop_last())
    }
}

/// The mirrors that one component pass handed to the render world.
#[derive(PartialEq, Eq, Debug)]
pub struct ComponentPass {
    /// The mirrors to which a copy was written, in the order of the writing.
    pub written: Vec<Entity>,
    /// The mirrors from which the copy was removed, in the order of the
    /// removing.
    pub cleared: Vec<Entity>,
}

/// The entities that lost their component, as `lost_model` says.
pub fn lost(known: &Vec<Entity>, current: &Vec<Entity>) -> (gone: Vec<Entity>)
    ensures
        gone@ == lost_model(known@, current@),
{
    let mut gone: Vec<Entity> = Vec::new();
    if known.len() <= current.len() {
        return gone;
    }
    let ghost keep = |e: Entity| !current@.contains(e);
    let mut i: usize = 0;
    proof {
        assert(known@.take(0) =~= Seq::<Entity>::empty());
    }
    while i < known.len()
        invariant
            i <= known.len(),
            keep == |e: Entity| !current@.contains(e),
            gone@ == known@.take(i as int).filter(keep),
        decreases known.len() - i,
    {
        proof {
            lemma_filter_next(known@, keep, i as int);
        }
        if !contains_entity(current, known[i]) {
            gone.push(known[i]);
        }
        i += 1;
    }
    proof {
        assert(known@.take(i as int) =~= known@);
    }
    gone
}

/// Filtering one element more.
proof fn lemma_filter_next<A>(s: Seq<A>, keep: spec_fn(A) -> bool, i: int)
    requires
        0 <= i < s.len(),
    ensures
        s.take(i + 1).filter(keep) == if keep(s[i]) {
            s.take(i).filter(keep).push(s[i])
        } else {
            s.take(i).filter(keep)
        },
{
    let next = s.take(i + 1);
    assert(next.drop_last() =~= s.take(i));
    assert(next.last() == s[i]);
    reveal(Seq::filter);
}

/// Derives the render world's copy of the `C` of every entity of
/// `entities`, in their order. Stops where the store has no `C` for one;
/// a store that is not sealed has none.
pub fn sync_component<C: SyncComponent + 'static>(world: &Store, entities: &Vec<Entity>) -> (r:
    Result<SyncComponents<C>, SyncError>)
    ensures
        match r {
            Ok(copies) => copies.components@.len() == entities@.len() && forall|i: int|
                0 <= i < entities@.len() ==> (#[trigger] copies.components@[i]).1 == entities@[i],
            Err(e) => e == SyncError::Store,
        },
        entities@.len() == 0 ==> r.is_ok(),
        entities@.len() > 0 && !world.sealed() ==> r.is_err(),
{
    let mut components: Vec<SyncComponentEntityMapping<C>> = Vec::new();
    let mut i: usize = 0;
    while i < entities.len()
        invariant
            i <= entities.len(),
            !world.sealed() ==> i == 0,
            components@.len() == i,
            forall|j: int| 0 <= j < i ==> (#[trigger] components@[j]).1 == entities@[j],
        decreases entities.len() - i,
    {
        if !world.is_sealed() {
            return Err(SyncError::Store);
        }
        match extract::<C>(world, entities[i]) {
            None => {
                return Err(SyncError::Store);
            },
            Some(data) => {
                components.push(SyncComponentEntityMapping(data, entities[i]));
            },
        }
        i += 1;
    }
    Ok(SyncComponents { components })
}

/// The component pass over `current`, the primary entities that carry the
/// marker and a `C` now. `known` holds those of the last phase.
///
/// Every entity of `current` gets the copy of its `C` written to its
/// mirror. Where `known` is longer than `current`, the copy is deleted from
/// the mirror of every known entity that is not in `current`; one that has
/// no mirror any more, because it lost the marker too, is passed over. At
/// the end `known` holds `current`. The pass stops where an entity of
/// `current` has no mirror and where the store refuses a call, as a store
/// that is not sealed does; `known` is then as it was. Where nothing is to be copied and no known entity has a
/// mirror, the store is not asked and the pass succeeds.
///
/// The result lists the mirrors that the pass handed to the render world:
/// the copies are written from the last entity of `current` to the first,
/// each to the mirror of its entity; and the copy is removed from the
/// mirrors of the lost entities that have one, in the order of `known`.
pub fn mirror_components<C: SyncComponent + 'static>(
    map: &EntityRenderEntityMap,
    known: &mut Vec<Entity>,
    current: Vec<Entity>,
    world: &Store,
    render_world: &Store,
) -> (r: Result<ComponentPass, SyncError>) where C::Out: 'static
    ensures
        match r {
            Ok(pass) => {
                &&& final(known)@ == current@
                &&& forall|p: usize| #[trigger]
                    ids(current@).contains(p) ==> map.primary_to_mirror().dom().contains(p)
                &&& pass.written@.len() == current@.len()
                &&& forall|i: int|
                    0 <= i < current@.len() ==> map.primary_to_mirror().contains_pair(
                        current@[current@.len() - 1 - i].id(),
                        (#[trigger] pass.written@[i]).id(),
                    )
                &&& ids(pass.cleared@) == paired_mirrors(
                    map.primary_to_mirror(),
                    lost_model(old(known)@, current@),
                )
            },
            Err(_) => final(known)@ == old(known)@,
        },
        match r {
            Err(SyncError::MirrorPaired(_)) => false,
            Err(SyncError::MirrorUnpaired(_)) => false,
            Err(SyncError::NoMirror(e)) => ids(current@).contains(e.id())
                && !map.primary_to_mirror().dom().contains(e.id()),
            _ => true,
        },
        current@.len() == 0 && (forall|p: usize| #[trigger]
            ids(old(known)@).contains(p) ==> !map.primary_to_mirror().dom().contains(p))
            ==> r.is_ok(),
        current@.len() > 0 && !world.sealed() ==> r == Err::<ComponentPass, SyncError>(
            SyncError::Store,
        ),
        !render_world.sealed() && (current@.len() > 0 || paired_mirrors(
            map.primary_to_mirror(),
            lost_model(old(known)@, current@),
        ).len() > 0) ==> r.is_err(),
{
    let ghost idle = current@.len() == 0 && (forall|p: usize| #[trigger]
        ids(known@).contains(p) ==> !map.primary_to_mirror().dom().contains(p));
    let mut copies = match sync_component::<C>(world, &current) {
        Ok(copies) => copies,
        Err(e) => {
            return Err(e);
        },
    };
    let ghost all = copies.components@;
    let mut written: Vec<Entity> = Vec::new();
    while copies.components.len() > 0
        invariant
            known@ == old(known)@,
            written@.len() + copies.components@.len() == current@.len(),
            !render_world.sealed() ==> written@.len() == 0,
            current@.len() > 0 ==> world.sealed(),
            forall|i: int|
                0 <= i < written@.len() ==> map.primary_to_mirror().contains_pair(
                    current@[current@.len() - 1 - i].id(),
                    (#[trigger] written@[i]).id(),
                ),
            all.len() == current@.len(),
            forall|i: int| 0 <= i < all.len() ==> (#[trigger] all[i]).1 == current@[i],
            copies.components@.len() <= all.len(),
            forall|i: int|
                0 <= i < copies.components@.len() ==> (#[trigger] copies.components@[i]).1
                    == current@[i],
            forall|i: int|
                copies.components@.len() <= i < current@.len()
                    ==> map.primary_to_mirror().dom().contains(#[trigger] ids(current@)[i]),
        decreases copies.components.len(),
    {
        let ghost n = copies.components@.len() as int;
        match copies.components.pop() {
            None => {},
            Some(copy) => {
                proof {
                    assert(copy.1 == current@[n - 1]);
                    assert(ids(current@)[n - 1] == copy.1.id());
                }
                match map.get_render_entity(copy.1) {
                    None => {
                        proof {
                            assert(ids(current@).contains(copy.1.id()));
                        }
                        return Err(SyncError::NoMirror(copy.1));
                    },
                    Some(mirror) => {
                        if !render_world.is_sealed() {
                            return Err(SyncError::Store);
                        }
                        if !put_component::<C::Out>(render_world, mirror, copy.0) {
                            return Err(SyncError::Store);
                        }
                        written.push(mirror);
                    },
                }
            },
        }
    }
    let gone = lost(known, &current);
    let mut cleared: Vec<Entity> = Vec::new();
    let mut i: usize = 0;
    proof {
        assert(gone@.take(0) =~= Seq::<Entity>::empty());
        assert(ids(cleared@) =~= paired_mirrors(map.primary_to_mirror(), gone@.take(0)));
    }
    while i < gone.len()
        invariant
            i <= gone.len(),
            known@ == old(known)@,
            idle == (current@.len() == 0 && (forall|p: usize| #[trigger]
                ids(old(known)@).contains(p) ==> !map.primary_to_mirror().dom().contains(p))),
            gone@ == lost_model(known@, current@),
            gone@.len() > 0 ==> gone@ == known@.filter(|e: Entity| !current@.contains(e)),
            ids(cleared@) == paired_mirrors(map.primary_to_mirror(), gone@.take(i as int)),
            !render_world.sealed() ==> cleared@.len() == 0,
            !render_world.sealed() ==> current@.len() == 0,
            current@.len() > 0 ==> world.sealed(),
        decreases gone.len() - i,
    {
        proof {
            assert(gone@.take(i + 1).drop_last() =~= gone@.take(i as int));
            assert(gone@.take(i + 1).last() == gone@[i as int]);
            if idle {
                let keep = |e: Entity| !current@.contains(e);
                assert(gone@.contains(gone@[i as int]));
                known@.lemma_filter_contains_rev(keep, gone@[i as int]);
                let j = choose|j: int| 0 <= j < known@.len() && known@[j] == gone@[i as int];
                assert(ids(known@)[j] == gone@[i as int].id());
                assert(ids(known@).contains(gone@[i as int].id()));
            }
        }
        match map.get_render_entity(gone[i]) {
            None => {},
            Some(mirror) => {
                if !render_world.is_sealed() {
                    return Err(SyncError::Store);
                }
                if !remove_component::<C::Out>(render_world, mirror) {
                    return Err(SyncError::Store);
                }
                let ghost before = cleared@;
                cleared.push(mirror);
                proof {
                    assert(ids(cleared@) =~= ids(before).push(mirror.id()));
                }
            },
        }
        i += 1;
    }
    proof {
        assert(gone@.take(i as int) =~= gone@);
        assert forall|p: usize| #[trigger] ids(current@).contains(p) implies
            map.primary_to_mirror().dom().contains(p) by {
            let j = choose|j: int| 0 <= j < ids(current@).len() && ids(current@)[j] == p;
            assert(map.primary_to_mirror().dom().contains(ids(current@)[j]));
        }
    }
    *known = current;
    Ok(ComponentPass { written, cleared })
}

/// One Sync phase for the component `C`: the component pass over the
/// primary entities that carry the marker and a `C`, as the store lists
/// them now. At the end `known` holds these entities, each once, and the result lists
/// the mirrors that the pass wrote to and cleared, as `mirror_components`
/// says. On an error `known` is as it was.
pub fn sync_component_to_render_world<C: SyncComponent + 'static>(
    map: &EntityRenderEntityMap,
    known: &mut Vec<Entity>,
    world: &Store,
    render_world: &Store,
) -> (r: Result<ComponentPass, SyncError>) where C::Out: 'static
    ensures
        match r {
            Ok(pass) => {
                &&& forall|p: usize| #[trigger]
                    ids(final(known)@).contains(p) ==> map.primary_to_mirror().dom().contains(p)
                &&& pass.written@.len() == final(known)@.len()
                &&& forall|i: int|
                    0 <= i < final(known)@.len() ==> map.primary_to_mirror().contains_pair(
                        final(known)@[final(known)@.len() - 1 - i].id(),
                        (#[trigger] pass.written@[i]).id(),
                    )
                &&& ids(pass.cleared@) == paired_mirrors(
                    map.primary_to_mirror(),
                    lost_model(old(known)@, final(known)@),
                )
                &&& final(known)@.no_duplicates()
            },
            Err(_) => final(known)@ == old(known)@,
        },
{
    let marked = match entities_with::<SyncToRenderWorld>(world) {
        Some(found) => found,
        None => {
            return Err(SyncError::Store);
        },
    };
    let carrying = match entities_with::<C>(world) {
        Some(found) => found,
        None => {
            return Err(SyncError::Store);
        },
    };
    let current = common(&marked, &carrying);
    mirror_components::<C>(map, known, current, world, render_world)
}

/// The systems that copy components to the render world, one for each
/// mirrored component type, in the order of their registration.
pub struct SyncSystems<S> {
    systems: Vec<S>,
}

impl<S> SyncSystems<S> {
    /// The registered systems.
    pub closed spec fn systems(&self) -> Seq<S> {
        self.systems@
    }

    /// No system is registered.
    pub fn new() -> (systems: SyncSystems<S>)
        ensures
            systems.systems() == Seq::<S>::empty(),
    {
        SyncSystems { systems: Vec::new() }
    }

    /// Registers `system` behind the others.
    pub fn push(&mut self, system: S)
        ensures
            final(self).systems() == old(self).systems().push(system),
    {
        self.systems.push(system);
    }

    /// The number of registered systems.
    pub fn len(&self) -> (n: usize)
        ensures
            n == self.systems().len(),
    {
        self.systems.len()
    }
}

/// Runs all of `systems` at the same time and hands back what they raised,
/// system by system in the order of their registration. Where no system is
/// registered, or the store is not sealed, nothing is run and nothing is
/// raised.
pub fn sync_systems<S: System<E> + Sync, E: Send + Sync>(
    systems: &SyncSystems<S>,
    world: &Store,
    events: &Events<E>,
) -> (raised: Vec<Raised<E>>)
    ensures
        systems.systems().len() == 0 || !world.sealed() ==> raised@ == Seq::<Raised<E>>::empty(),
{
    if systems.systems.len() == 0 || !world.is_sealed() {
        return Vec::new();
    }
    let mut members: Vec<&S> = Vec::new();
    let mut i: usize = 0;
    while i < systems.systems.len()
        invariant
            i <= systems.systems.len(),
            members@.len() == i,
            forall|j: int| 0 <= j < i ==> *(#[trigger] members@[j]) == systems.systems()[j],
        decreases systems.systems.len() - i,
    {
        members.push(&systems.systems[i]);
        i += 1;
    }
    run_wave(&members, world, events)
}

} // verus!
