//! The entity-component store and how the kernel calls into it.

use vstd::prelude::*;
use magma_ecs::rayon::iter::{IntoParallelRefIterator, ParallelIterator};
use magma_ecs::error::EntityError;
use magma_ecs::World;
use crate::entity::Entity;
use crate::events::{Events, Raised};

verus! {

/// The `World` of magma_ecs: the store of entities, components and
/// resources. It is carried through as it is; nothing is known of what it
/// holds, and it changes behind shared references.
#[verifier::external_type_specification]
#[verifier::external_body]
pub struct ExWorld(magma_ecs::World);

/// A world together with the record of how far its setup has come.
///
/// A store is made without entities. Component types are registered only
/// while it is not sealed, and the world inside is handed out, to systems
/// and to whoever asks, only once it is sealed. So no component type is
/// registered once an entity may exist. The world gives a newly registered
/// type an empty table and lengthens all tables with every new entity, so
/// in a sealed store no table of components is shorter than the table of
/// entities: the world never indexes a table beyond its end for an entity
/// that it knows.
pub struct Store {
    world: World,
    sealed: bool,
}

impl Store {
    /// The setup is over: the world is handed out and takes no more
    /// component types.
    pub closed spec fn sealed(&self) -> bool {
        self.sealed
    }

    /// A store without entities, components or resources, not sealed.
    pub fn new() -> (store: Store)
        ensures
            !store.sealed(),
    {
        Store { world: new_world(), sealed: false }
    }

    /// Whether the setup is over.
    pub fn is_sealed(&self) -> (sealed: bool)
        ensures
            sealed == self.sealed(),
    {
        self.sealed
    }

    /// Ends the setup. A sealed store stays sealed.
    pub fn seal(&mut self)
        ensures
            final(self).sealed(),
    {
        self.sealed = true;
    }

    /// Registers the component type `A`, so that entities can carry an `A`.
    /// A sealed store refuses, and says so by `false`.
    pub fn register_component<A: Send + Sync + 'static>(&mut self) -> (registered: bool)
        ensures
            registered == !old(self).sealed(),
            final(self).sealed() == old(self).sealed(),
    {
        if self.sealed {
            false
        } else {
            register_component::<A>(&mut self.world);
            true
        }
    }

    /// Adds the resource `data`. Returns whether the world took it, which it
    /// does not where it holds a resource of that type already.
    pub fn add_resource<A: Send + Sync + 'static>(&mut self, data: A) -> (taken: bool)
        ensures
            final(self).sealed() == old(self).sealed(),
    {
        add_resource(&mut self.world, data)
    }

    /// The world, once the store is sealed.
    pub fn world(&self) -> (world: Option<&World>)
        ensures
            world.is_some() == self.sealed(),
    {
        if self.sealed {
            Some(&self.world)
        } else {
            None
        }
    }
}

/// A unit of work of a schedule. It works on the world through the world's
/// own locks, reads the pending events, and hands back the events it raises.
/// The store that it is given is sealed.
pub trait System<E> {
    /// Does the work of the system.
    fn run(&self, store: &Store, events: &Events<E>) -> Vec<Raised<E>>
        requires
            store.sealed(),
    ;
}

/// A component whose data is mirrored into the render world.
pub trait SyncComponent: Send + Sync {
    /// What the render world holds of the component.
    type Out: Send + Sync;

    /// The render world's copy of this component.
    fn get_data(&self) -> Self::Out;
}

/// `World::new` of magma_ecs: a world without entities, components or
/// resources. Nothing is claimed of the world.
#[verifier::external_body]
fn new_world() -> World {
    World::new()
}

/// `World::register_component` of magma_ecs: the type `A` gets a table of
/// its own, empty whatever the world holds. The call itself cannot fail.
#[verifier::external_body]
fn register_component<A: Send + Sync + 'static>(world: &mut World) {
    world.register_component::<A>()
}

/// `World::add_resource` of magma_ecs: whether the world took `data`, which
/// it does not where it holds a resource of that type already.
#[verifier::external_body]
fn add_resource<A: Send + Sync + 'static>(world: &mut World, data: A) -> bool {
    world.add_resource(data).is_ok()
}

/// Runs the systems of one wave on rayon's thread pool (`par_iter` and
/// `flat_map_iter` of rayon, as magma_ecs exports it) and returns when all of
/// them have returned. The result holds what the systems raised, system by
/// system in the order of `wave`. The systems may create entities, so the
/// store must be sealed. What the systems do to the world is not described,
/// so nothing is claimed of the events that come back.
#[verifier::external_body]
pub(crate) fn run_wave<S: System<E> + Sync, E: Send + Sync>(
    wave: &Vec<&S>,
    store: &Store,
    events: &Events<E>,
) -> Vec<Raised<E>>
    requires
        store.sealed(),
{
    wave.par_iter().flat_map_iter(|system| system.run(store, events)).collect()
}

/// `World::query` of magma_ecs for the single component `A`: the entities of
/// the world that carry an `A`, or `None` where `A` is not registered. The
/// query walks the table of entities once, index by index, and hands out
/// the indices that match, so no entity comes back twice. The world
/// changes behind shared references, so nothing is claimed of which
/// entities come back.
#[verifier::external_body]
pub(crate) fn entities_with<A: Send + Sync + 'static>(store: &Store) -> (found: Option<
    Vec<Entity>,
>)
    ensures
        match found {
            Some(list) => list@.no_duplicates(),
            None => true,
        },
{
    match store.world.query::<(A,)>() {
        Ok(found) => Some(found.iter().map(|entity| Entity::with_id(entity.id())).collect()),
        Err(_) => None,
    }
}

/// `World::create_entity` of magma_ecs with the single component `data`: the
/// handle of the new entity, or `None` where the component's type is not
/// registered. The world writes `data` into the table of its type at the
/// index of the entity, which is within the table in a sealed store. It
/// reuses the indices of deleted entities; nothing is claimed of the handle.
#[verifier::external_body]
pub(crate) fn spawn_with<A: Send + Sync + 'static>(store: &Store, data: A) -> Option<Entity>
    requires
        store.sealed(),
{
    match store.world.create_entity((data,)) {
        Ok(created) => Some(Entity::with_id(created.id())),
        Err(_) => None,
    }
}

/// `World::delete_entity` of magma_ecs: whether the world knew the entity
/// and deleted it. The call looks the entity up in the table of entities
/// and answers an index beyond it with an error.
#[verifier::external_body]
pub(crate) fn despawn(store: &Store, entity: Entity) -> bool {
    store.world.delete_entity(magma_ecs::entities::Entity::with_id(entity.id())).is_ok()
}

/// `World::get_component_mut` of magma_ecs, then `get_data` on the component
/// it gives: the render world's copy of the `C` of `entity`, or `None` where
/// the world has no such entity, type or component. That call answers an
/// index beyond the table of entities with an error and then reads the table
/// of `C` at that index, which is within the table in a sealed store.
#[verifier::external_body]
pub(crate) fn extract<C: SyncComponent + 'static>(store: &Store, entity: Entity) -> Option<C::Out>
    requires
        store.sealed(),
{
    match store.world.get_component_mut::<C>(magma_ecs::entities::Entity::with_id(entity.id())) {
        Ok(component) => Some(component.get_data()),
        Err(_) => None,
    }
}

/// `World::assign_components` of magma_ecs with the single component `data`:
/// whether the world took it. The world indexes the table of entities
/// without a check, so `get_component_mut` is asked first: on its errors
/// `EntityDoesNotExist` and `ComponentNotRegistered` nothing is assigned and
/// the answer is `false`. Both calls index the table of `A` at the index of
/// the entity, which is within the table in a sealed store.
#[verifier::external_body]
pub(crate) fn put_component<A: Send + Sync + 'static>(
    store: &Store,
    entity: Entity,
    data: A,
) -> bool
    requires
        store.sealed(),
{
    let target = magma_ecs::entities::Entity::with_id(entity.id());
    match store.world.get_component_mut::<A>(target).err() {
        Some(EntityError::EntityDoesNotExist) => false,
        Some(EntityError::ComponentNotRegistered) => false,
        _ => store.world.assign_components((data,), target).is_ok(),
    }
}

/// `World::delete_component` of magma_ecs: whether the world knew the entity
/// and the type and cleared the component. The world indexes the table of
/// entities without a check, so `get_component_mut` is asked first, as in
/// `put_component`; that call indexes the table of `A`, which is long
/// enough in a sealed store.
#[verifier::external_body]
pub(crate) fn remove_component<A: Send + Sync + 'static>(store: &Store, entity: Entity) -> bool
    requires
        store.sealed(),
{
    let target = magma_ecs::entities::Entity::with_id(entity.id());
    match store.world.get_component_mut::<A>(target).err() {
        Some(EntityError::EntityDoesNotExist) => false,
        Some(EntityError::ComponentNotRegistered) => false,
        _ => store.world.delete_component::<A>(target).is_ok(),
    }
}

/// `World::get_resource_mut` of magma_ecs, then std's `mem::replace`
/// through the lock it gives: `value` takes the place of the resource of
/// type `A`, and the resource that was held comes back. `None`, with the
/// world as it was, where the world holds no resource of that type.
#[verifier::external_body]
pub(crate) fn swap_resource<A: Send + Sync + 'static>(store: &Store, value: A) -> Option<A> {
    match store.world.get_resource_mut::<A>() {
        Ok(mut held) => Some(std::mem::replace(&mut *held, value)),
        Err(_) => None,
    }
}

/// `World::get_component_mut` of magma_ecs, then `clone` on the component it
/// gives: a copy of the `A` of `entity`, or `None` where the world has no
/// such entity, type or component. The call answers an index beyond the
/// table of entities with an error and then reads the table of `A` at that
/// index, which is within the table in a sealed store.
#[verifier::external_body]
pub(crate) fn load_component<A: Clone + Send + Sync + 'static>(
    store: &Store,
    entity: Entity,
) -> Option<A>
    requires
        store.sealed(),
{
    match store.world.get_component_mut::<A>(magma_ecs::entities::Entity::with_id(entity.id())) {
        Ok(held) => Some((*held).clone()),
        Err(_) => None,
    }
}

} // verus!
