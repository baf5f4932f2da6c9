use magma_api::entity::Entity;
use magma_api::events::{Events, Raised};
use magma_api::sync::{
    common, contains_entity, lost, mark_for_mirroring, mirror_components, register_mirrored_component,
    register_mirroring, sync_component, sync_component_to_render_world, sync_entities, sync_systems,
    unmark_for_mirroring, ComponentPass, EntityRenderEntityMap, RenderEntity, SyncError, SyncSystems,
    SyncToRenderWorld,
};
use magma_api::world::{Store, SyncComponent, System};
use magma_ecs::World;

struct X(u32);

#[derive(Debug, PartialEq)]
struct Doubled(u32);

impl SyncComponent for X {
    type Out = Doubled;

    fn get_data(&self) -> Doubled {
        Doubled(self.0 * 2)
    }
}

fn worlds() -> (Store, Store) {
    let mut world = Store::new();
    assert!(world.register_component::<SyncToRenderWorld>());
    assert!(world.register_component::<X>());
    world.seal();
    let mut render_world = Store::new();
    assert!(render_world.register_component::<RenderEntity>());
    assert!(render_world.register_component::<Doubled>());
    render_world.seal();
    (world, render_world)
}

fn sealed() -> Store {
    let mut store = Store::new();
    store.seal();
    store
}

fn w(store: &Store) -> &World {
    store.world().unwrap()
}

fn handle(entity: magma_ecs::entities::Entity) -> Entity {
    Entity::with_id(entity.id())
}

fn outside(entity: Entity) -> magma_ecs::entities::Entity {
    magma_ecs::entities::Entity::with_id(entity.id())
}

#[test]
fn end_to_end_sync_scenario() {
    let (world, render_world) = worlds();
    let mut map = EntityRenderEntityMap::new();
    let mut known: Vec<Entity> = vec![];
    let e = w(&world).create_entity((SyncToRenderWorld, X(10))).unwrap();

    let outcome = sync_entities(&mut map, &world, &render_world).unwrap();
    assert_eq!(outcome.marked, vec![handle(e)]);
    assert_eq!(outcome.mirrors.len(), 1);
    sync_component_to_render_world::<X>(&map, &mut known, &world, &render_world).unwrap();

    let mirrors = w(&render_world).query::<(RenderEntity,)>().unwrap();
    assert_eq!(mirrors.len(), 1);
    assert_eq!(outcome.mirrors, vec![Entity::with_id(mirrors[0].id())]);
    assert_eq!(*mirrors[0].get_component::<Doubled>().unwrap(), Doubled(20));
    assert_eq!(map.len(), 1);
    assert_eq!(map.get_render_entity(handle(e)), Some(Entity::with_id(mirrors[0].id())));
    assert_eq!(map.get_entity(Entity::with_id(mirrors[0].id())), Some(handle(e)));
    assert_eq!(known, vec![handle(e)]);

    w(&world).delete_component::<SyncToRenderWorld>(e).unwrap();
    let outcome = sync_entities(&mut map, &world, &render_world).unwrap();
    assert_eq!(outcome.marked, vec![]);
    assert_eq!(outcome.mirrors.len(), 1);
    sync_component_to_render_world::<X>(&map, &mut known, &world, &render_world).unwrap();

    assert_eq!(w(&render_world).query::<(RenderEntity,)>().unwrap().len(), 0);
    assert_eq!(map.len(), 0);
    assert_eq!(map.get_render_entity(handle(e)), None);
    assert_eq!(known, vec![]);
}

#[test]
fn sync_is_stable_when_nothing_changes() {
    let (world, render_world) = worlds();
    let mut map = EntityRenderEntityMap::new();
    let a = w(&world).create_entity((SyncToRenderWorld,)).unwrap();
    let b = w(&world).create_entity((SyncToRenderWorld,)).unwrap();
    w(&world).create_entity((X(1),)).unwrap();
    sync_entities(&mut map, &world, &render_world).unwrap();
    let first = (map.get_render_entity(handle(a)), map.get_render_entity(handle(b)));
    sync_entities(&mut map, &world, &render_world).unwrap();
    assert_eq!(first, (map.get_render_entity(handle(a)), map.get_render_entity(handle(b))));
    assert_eq!(map.len(), 2);
    assert_eq!(w(&render_world).query::<(RenderEntity,)>().unwrap().len(), 2);
}

#[test]
fn deleted_primary_entity_loses_its_mirror() {
    let (world, render_world) = worlds();
    let mut map = EntityRenderEntityMap::new();
    let a = w(&world).create_entity((SyncToRenderWorld,)).unwrap();
    let b = w(&world).create_entity((SyncToRenderWorld,)).unwrap();
    sync_entities(&mut map, &world, &render_world).unwrap();
    let mirror_of_b = map.get_render_entity(handle(b)).unwrap();
    w(&world).delete_entity(a).unwrap();
    sync_entities(&mut map, &world, &render_world).unwrap();
    assert_eq!(map.len(), 1);
    assert_eq!(map.get_render_entity(handle(a)), None);
    assert_eq!(map.get_render_entity(handle(b)), Some(mirror_of_b));
    assert_eq!(map.get_entity(mirror_of_b), Some(handle(b)));
    assert_eq!(w(&render_world).query::<(RenderEntity,)>().unwrap().len(), 1);
}

#[test]
fn component_removed_without_marker_is_removed_from_mirror() {
    let (world, render_world) = worlds();
    let mut map = EntityRenderEntityMap::new();
    let mut known: Vec<Entity> = vec![];
    let e = w(&world).create_entity((SyncToRenderWorld, X(4))).unwrap();
    sync_entities(&mut map, &world, &render_world).unwrap();
    sync_component_to_render_world::<X>(&map, &mut known, &world, &render_world).unwrap();
    assert_eq!(w(&render_world).query::<(RenderEntity, Doubled)>().unwrap().len(), 1);

    w(&world).delete_component::<X>(e).unwrap();
    sync_entities(&mut map, &world, &render_world).unwrap();
    sync_component_to_render_world::<X>(&map, &mut known, &world, &render_world).unwrap();
    assert_eq!(w(&render_world).query::<(RenderEntity,)>().unwrap().len(), 1);
    assert_eq!(w(&render_world).query::<(RenderEntity, Doubled)>().unwrap().len(), 0);
    assert_eq!(map.len(), 1);
    assert_eq!(known, vec![]);
}

#[test]
fn sync_reports_unregistered_marker() {
    let world = sealed();
    let render_world = sealed();
    let mut map = EntityRenderEntityMap::new();
    assert_eq!(sync_entities(&mut map, &world, &render_world), Err(SyncError::Store));
    assert_eq!(map.len(), 0);
}

#[test]
fn render_entity_without_pair_is_reported() {
    let (world, render_world) = worlds();
    let stray = handle(w(&render_world).create_entity((RenderEntity,)).unwrap());
    let mut map = EntityRenderEntityMap::new();
    assert_eq!(
        sync_entities(&mut map, &world, &render_world),
        Err(SyncError::MirrorUnpaired(stray))
    );
    assert_eq!(map.len(), 0);
}

#[test]
fn map_insert_keeps_both_directions() {
    let mut map = EntityRenderEntityMap::new();
    assert!(map.insert(Entity::with_id(3), Entity::with_id(8)));
    assert!(!map.insert(Entity::with_id(3), Entity::with_id(9)));
    assert!(!map.insert(Entity::with_id(4), Entity::with_id(8)));
    assert!(map.insert(Entity::with_id(4), Entity::with_id(9)));
    assert_eq!(map.len(), 2);
    assert_eq!(map.get_render_entity(Entity::with_id(3)), Some(Entity::with_id(8)));
    assert_eq!(map.get_entity(Entity::with_id(9)), Some(Entity::with_id(4)));
    map.delete_through_render_entity(Entity::with_id(8));
    assert_eq!(map.len(), 1);
    assert_eq!(map.get_render_entity(Entity::with_id(3)), None);
    assert_eq!(map.get_entity(Entity::with_id(8)), None);
    assert_eq!(map.get_entity(Entity::with_id(9)), Some(Entity::with_id(4)));
}

#[test]
fn mirror_marked_creates_one_mirror_per_entity() {
    let (_, render_world) = worlds();
    let mut map = EntityRenderEntityMap::new();
    let marked = vec![Entity::with_id(5), Entity::with_id(2), Entity::with_id(5)];
    map.mirror_marked(&marked, &render_world).unwrap();
    assert_eq!(map.len(), 2);
    assert_eq!(w(&render_world).query::<(RenderEntity,)>().unwrap().len(), 2);
    let m5 = map.get_render_entity(Entity::with_id(5)).unwrap();
    let m2 = map.get_render_entity(Entity::with_id(2)).unwrap();
    assert_ne!(m5, m2);
    assert!(w(&render_world).get_component::<RenderEntity>(outside(m5)).is_ok());
}

#[test]
fn drop_unmarked_removes_only_stale_pairs() {
    let (_, render_world) = worlds();
    let mut map = EntityRenderEntityMap::new();
    let marked = vec![Entity::with_id(0), Entity::with_id(1), Entity::with_id(2)];
    map.mirror_marked(&marked, &render_world).unwrap();
    let mirrors: Vec<Entity> =
        marked.iter().map(|e| map.get_render_entity(*e).unwrap()).collect();
    let still = vec![Entity::with_id(0), Entity::with_id(2)];
    map.drop_unmarked(&mirrors, &still, &render_world).unwrap();
    assert_eq!(map.len(), 2);
    assert_eq!(map.get_render_entity(Entity::with_id(1)), None);
    assert_eq!(map.get_render_entity(Entity::with_id(0)), Some(mirrors[0]));
    assert_eq!(map.get_render_entity(Entity::with_id(2)), Some(mirrors[2]));
    assert_eq!(w(&render_world).query::<(RenderEntity,)>().unwrap().len(), 2);
}

#[test]
fn common_and_lost_follow_the_first_list() {
    let e = |id| Entity::with_id(id);
    assert_eq!(common(&vec![e(3), e(1), e(2)], &vec![e(2), e(3)]), vec![e(3), e(2)]);
    assert_eq!(lost(&vec![e(3), e(1), e(2)], &vec![e(2), e(3)]), vec![e(1)]);
    assert_eq!(lost(&vec![e(3), e(1)], &vec![e(2), e(4)]), vec![]);
    assert!(contains_entity(&vec![e(3), e(1)], e(1)));
    assert!(!contains_entity(&vec![e(3), e(1)], e(2)));
}

#[test]
fn sync_component_derives_copies_in_order() {
    let (world, _) = worlds();
    let a = w(&world).create_entity((X(1),)).unwrap();
    let b = w(&world).create_entity((X(7),)).unwrap();
    let copies = sync_component::<X>(&world, &vec![handle(b), handle(a)]).ok().unwrap();
    assert_eq!(copies.components.len(), 2);
    assert_eq!(copies.components[0].0, Doubled(14));
    assert_eq!(copies.components[0].1, handle(b));
    assert_eq!(copies.components[1].0, Doubled(2));
    assert_eq!(copies.components[1].1, handle(a));
    assert!(sync_component::<X>(&world, &vec![Entity::with_id(77)]).is_err());
}

#[test]
fn mirror_components_needs_a_mirror_for_every_entity() {
    let (world, render_world) = worlds();
    let e = w(&world).create_entity((SyncToRenderWorld, X(3))).unwrap();
    let map = EntityRenderEntityMap::new();
    let mut known = vec![Entity::with_id(9)];
    let r = mirror_components::<X>(&map, &mut known, vec![handle(e)], &world, &render_world);
    assert_eq!(r, Err(SyncError::NoMirror(handle(e))));
    assert_eq!(known, vec![Entity::with_id(9)]);
}

#[test]
fn map_directions_agree_after_every_sync_phase() {
    let (world, render_world) = worlds();
    let mut map = EntityRenderEntityMap::new();
    let mut entities = vec![];
    for round in 0..6 {
        for _ in 0..3 {
            entities.push(w(&world).create_entity((SyncToRenderWorld,)).unwrap());
        }
        if round % 2 == 1 {
            let gone = entities.remove(round);
            w(&world).delete_component::<SyncToRenderWorld>(gone).unwrap();
            let gone = entities.remove(0);
            w(&world).delete_entity(gone).unwrap();
        }
        sync_entities(&mut map, &world, &render_world).unwrap();
        assert_eq!(map.len(), entities.len());
        assert_eq!(map.len(), map.mirrors_len());
        assert_eq!(w(&render_world).query::<(RenderEntity,)>().unwrap().len(), entities.len());
        for entity in entities.iter() {
            let mirror = map.get_render_entity(handle(*entity)).unwrap();
            assert_eq!(map.get_entity(mirror), Some(handle(*entity)));
        }
        for mirror in w(&render_world).query::<(RenderEntity,)>().unwrap().iter() {
            let primary = map.get_entity(Entity::with_id(mirror.id())).unwrap();
            assert_eq!(map.get_render_entity(primary), Some(Entity::with_id(mirror.id())));
        }
    }
}

#[test]
fn marking_and_unmarking_drive_the_mirror() {
    let mut world = Store::new();
    let mut render_world = Store::new();
    assert!(register_mirroring(&mut world, &mut render_world));
    assert!(register_mirrored_component::<X>(&mut render_world));
    assert!(world.register_component::<X>());
    world.seal();
    render_world.seal();
    let mut map = EntityRenderEntityMap::new();
    let mut known: Vec<Entity> = vec![];
    let e = handle(w(&world).create_entity((X(10),)).unwrap());

    sync_entities(&mut map, &world, &render_world).unwrap();
    assert_eq!(map.len(), 0);

    assert!(mark_for_mirroring(&world, e));
    assert!(!mark_for_mirroring(&world, Entity::with_id(99)));
    sync_entities(&mut map, &world, &render_world).unwrap();
    sync_component_to_render_world::<X>(&map, &mut known, &world, &render_world).unwrap();
    let mirrors = w(&render_world).query::<(RenderEntity, Doubled)>().unwrap();
    assert_eq!(mirrors.len(), 1);
    assert_eq!(*mirrors[0].get_component::<Doubled>().unwrap(), Doubled(20));

    assert!(unmark_for_mirroring(&world, e));
    assert!(!unmark_for_mirroring(&world, Entity::with_id(99)));
    sync_entities(&mut map, &world, &render_world).unwrap();
    assert_eq!(w(&render_world).query::<(RenderEntity,)>().unwrap().len(), 0);
    assert_eq!(map.len(), 0);
    assert_eq!(map.mirrors_len(), 0);
}

#[test]
fn component_pass_with_nothing_to_do_does_not_ask_the_store() {
    let world = Store::new();
    let render_world = Store::new();
    let map = EntityRenderEntityMap::new();
    let mut known: Vec<Entity> = vec![];
    let nothing = || ComponentPass { written: vec![], cleared: vec![] };
    assert_eq!(
        mirror_components::<X>(&map, &mut known, vec![], &world, &render_world),
        Ok(nothing())
    );
    let mut known = vec![Entity::with_id(4), Entity::with_id(6)];
    assert_eq!(
        mirror_components::<X>(&map, &mut known, vec![], &world, &render_world),
        Ok(nothing())
    );
    assert_eq!(known, vec![]);
    assert!(sync_component::<X>(&world, &vec![]).is_ok());
}

struct Bump;

impl System<u8> for Bump {
    fn run(&self, store: &Store, events: &Events<u8>) -> Vec<Raised<u8>> {
        *w(store).get_resource_mut::<u32>().unwrap() += 1;
        vec![Raised { kind: 1, event: events.get_events(1).unwrap().len() as u8 }]
    }
}

#[test]
fn sync_systems_run_every_registered_system() {
    let mut world = Store::new();
    assert!(world.add_resource(0_u32));
    world.seal();
    let mut bus: Events<u8> = Events::new();
    bus.register_event(1);
    bus.push_event(1, 9).unwrap();
    let mut systems: SyncSystems<Bump> = SyncSystems::new();
    assert_eq!(sync_systems(&systems, &world, &bus).len(), 0);
    assert_eq!(*w(&world).get_resource::<u32>().unwrap(), 0);
    systems.push(Bump);
    systems.push(Bump);
    systems.push(Bump);
    assert_eq!(systems.len(), 3);
    let raised = sync_systems(&systems, &world, &bus);
    assert_eq!(raised.len(), 3);
    assert!(raised.iter().all(|r| r.kind == 1 && r.event == 1));
    assert_eq!(*w(&world).get_resource::<u32>().unwrap(), 3);
}

#[test]
fn sealed_store_takes_no_more_component_types() {
    let mut store = Store::new();
    assert!(!store.is_sealed());
    assert!(store.world().is_none());
    assert!(store.register_component::<X>());
    store.seal();
    assert!(store.is_sealed());
    assert!(!store.register_component::<Doubled>());
    assert!(w(&store).create_entity((X(1),)).is_ok());
    assert!(w(&store).create_entity((Doubled(1),)).is_err());
    assert!(store.add_resource(3_u32));
    assert!(!store.add_resource(4_u32));
    assert_eq!(*w(&store).get_resource::<u32>().unwrap(), 3);
}

#[test]
fn mirroring_is_registered_only_before_the_stores_are_sealed() {
    let mut world = Store::new();
    let mut render_world = sealed();
    assert!(!register_mirroring(&mut world, &mut render_world));
    assert!(!register_mirrored_component::<X>(&mut render_world));
    let mut render_world = Store::new();
    assert!(register_mirroring(&mut world, &mut render_world));
    world.seal();
    assert!(!register_mirroring(&mut world, &mut render_world));
}

#[test]
fn sync_needs_sealed_stores() {
    let mut world = Store::new();
    let mut render_world = Store::new();
    assert!(register_mirroring(&mut world, &mut render_world));
    assert!(world.register_component::<X>());
    let mut map = EntityRenderEntityMap::new();
    // stores that are not sealed hold no entities: there is nothing to pair
    let outcome = sync_entities(&mut map, &world, &render_world).unwrap();
    assert_eq!((outcome.marked, outcome.mirrors), (vec![], vec![]));
    assert!(!mark_for_mirroring(&world, Entity::with_id(0)));
    assert!(!unmark_for_mirroring(&world, Entity::with_id(0)));
    assert!(sync_component::<X>(&world, &vec![Entity::with_id(0)]).is_err());
    assert_eq!(
        map.mirror_marked(&vec![Entity::with_id(0)], &render_world),
        Err(SyncError::Store)
    );
    assert_eq!(map.len(), 0);
    let mut known = vec![];
    assert_eq!(
        mirror_components::<X>(&map, &mut known, vec![Entity::with_id(0)], &world, &render_world),
        Err(SyncError::Store)
    );
    // the primary store is sealed, the render store is not
    world.seal();
    let e = handle(w(&world).create_entity((SyncToRenderWorld, X(1))).unwrap());
    assert!(map.insert(e, Entity::with_id(0)));
    assert_eq!(
        mirror_components::<X>(&map, &mut known, vec![e], &world, &render_world),
        Err(SyncError::Store)
    );
    let mut known = vec![e];
    assert_eq!(
        mirror_components::<X>(&map, &mut known, vec![], &world, &render_world),
        Err(SyncError::Store)
    );
    assert_eq!(known, vec![e]);
}

#[test]
fn unpaired_mirror_among_paired_ones_is_named() {
    let (world, render_world) = worlds();
    let mut map = EntityRenderEntityMap::new();
    let a = handle(w(&world).create_entity((SyncToRenderWorld,)).unwrap());
    sync_entities(&mut map, &world, &render_world).unwrap();
    let paired = map.get_render_entity(a).unwrap();
    let stray = handle(w(&render_world).create_entity((RenderEntity,)).unwrap());
    let mirrors = vec![paired, stray];
    assert_eq!(
        map.drop_unmarked(&mirrors, &vec![a], &render_world),
        Err(SyncError::MirrorUnpaired(stray))
    );
    assert_eq!(map.get_entity(stray), None);
    assert_eq!(map.get_render_entity(a), Some(paired));
}

#[test]
fn component_pass_lists_the_mirrors_it_wrote_to_and_cleared() {
    let (world, render_world) = worlds();
    let mut map = EntityRenderEntityMap::new();
    let mut known: Vec<Entity> = vec![];
    let a = w(&world).create_entity((SyncToRenderWorld, X(1))).unwrap();
    let b = w(&world).create_entity((SyncToRenderWorld, X(2))).unwrap();
    let c = w(&world).create_entity((SyncToRenderWorld, X(3))).unwrap();
    sync_entities(&mut map, &world, &render_world).unwrap();
    let mirror = |e: magma_ecs::entities::Entity| map.get_render_entity(handle(e)).unwrap();

    let pass =
        sync_component_to_render_world::<X>(&map, &mut known, &world, &render_world).unwrap();
    assert_eq!(known, vec![handle(a), handle(b), handle(c)]);
    assert_eq!(pass.written, vec![mirror(c), mirror(b), mirror(a)]);
    assert_eq!(pass.cleared, vec![]);
    assert_eq!(w(&render_world).query::<(RenderEntity, Doubled)>().unwrap().len(), 3);

    w(&world).delete_component::<X>(a).unwrap();
    w(&world).delete_component::<X>(c).unwrap();
    let pass =
        sync_component_to_render_world::<X>(&map, &mut known, &world, &render_world).unwrap();
    assert_eq!(known, vec![handle(b)]);
    assert_eq!(pass.written, vec![mirror(b)]);
    assert_eq!(pass.cleared, vec![mirror(a), mirror(c)]);
    let left = w(&render_world).query::<(RenderEntity, Doubled)>().unwrap();
    assert_eq!(left.len(), 1);
    assert_eq!(Entity::with_id(left[0].id()), mirror(b));
    assert_eq!(*left[0].get_component::<Doubled>().unwrap(), Doubled(4));
}

#[test]
fn new_mirror_that_stands_in_a_pair_is_named() {
    let (_, render_world) = worlds();
    let mut map = EntityRenderEntityMap::new();
    // the render world is empty, so the first entity it hands out is number 0
    assert!(map.insert(Entity::with_id(50), Entity::with_id(0)));
    assert_eq!(
        map.mirror_marked(&vec![Entity::with_id(7)], &render_world),
        Err(SyncError::MirrorPaired(Entity::with_id(0)))
    );
    assert_eq!(map.get_entity(Entity::with_id(0)), Some(Entity::with_id(50)));
    assert_eq!(map.get_render_entity(Entity::with_id(7)), None);
    assert_eq!(map.len(), 1);
}
