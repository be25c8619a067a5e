use vstd::prelude::*;
use hecs::Entity;
use hecs::World;
use crate::components::Inventory;
use crate::components::Player;
use crate::components::Position;
use crate::components::TextureTransform;
use crate::components::GameObjectTypeComponent;
use crate::components::UpdateFn;

verus! {

/// The handle of an entity of the store.
#[verifier::external_type_specification]
#[verifier::external_body]
pub struct ExEntity(hecs::Entity);

/// The entity-component store.
#[verifier::external_type_specification]
#[verifier::external_body]
pub struct ExWorld(hecs::World);

/// The components of one entity, each present or absent.
#[derive(Clone, Debug)]
pub struct Components {
    pub position: Option<Position>,
    pub player: Option<Player>,
    pub inventory: Option<Inventory>,
    pub texture: Option<TextureTransform>,
    pub object_type: Option<GameObjectTypeComponent>,
    pub update_fn: Option<UpdateFn>,
}

/// The entities of a store that carry the components of this library, each
/// with them. An entity that was destroyed is none of them.
pub uninterp spec fn entities(world: World) -> Map<Entity, Components>;

/// The store without entities.
pub open spec fn no_entities() -> Map<Entity, Components> {
    Map::empty()
}

/// The number of entity slots that a store has made or reserved so far. A
/// slot outlives its entity and is used again for a later one.
pub uninterp spec fn slots(world: World) -> nat;

/// Makes an empty store.
///
/// Calls `hecs::World::new`: the new store has no entity and no slot.
#[verifier::external_body]
pub(crate) fn new_world() -> (world: World)
    ensures
        entities(world) == no_entities(),
        slots(world) == 0,
{
    World::new()
}

/// Creates an entity that has `components`.
///
/// Calls `hecs::World::spawn` with `components` as the one component of the
/// entity. `spawn` takes the handle from a slot that holds no live entity,
/// making a new slot if none is free, and panics when the number of the new
/// slot does not fit in `u32`. The other entities stay as they are.
#[verifier::external_body]
pub(crate) fn spawn_entity(world: &mut World, components: Components) -> (id: Entity)
    requires
        slots(*old(world)) < u32::MAX,
    ensures
        !entities(*old(world)).contains_key(id),
        entities(*final(world)) == entities(*old(world)).insert(id, components),
        slots(*old(world)) <= slots(*final(world)) <= slots(*old(world)) + 1,
{
    world.spawn((components,))
}

/// The components of the entity `id`, if it is one of the store.
///
/// Calls `hecs::World::get`, which fails for a handle that is not live or
/// whose entity lacks the component, and clones what it finds.
#[verifier::external_body]
pub(crate) fn lookup(world: &World, id: Entity) -> (found: Option<Components>)
    ensures
        found == entities(*world).get(id),
{
    match world.get::<&Components>(id) {
        Ok(components) => Some((*components).clone()),
        Err(_) => None,
    }
}

/// Gives the entity `id` other components, if it is one of the store, and
/// says whether it was.
///
/// Calls `hecs::World::get` for a unique reference and writes through it.
/// No entity is made or destroyed.
#[verifier::external_body]
pub(crate) fn replace(world: &mut World, id: Entity, components: Components) -> (done: bool)
    ensures
        done == entities(*old(world)).contains_key(id),
        entities(*final(world)) == if done {
            entities(*old(world)).insert(id, components)
        } else {
            entities(*old(world))
        },
        slots(*final(world)) == slots(*old(world)),
{
    match world.get::<&mut Components>(id) {
        Ok(mut slot) => {
            *slot = components;
            true
        },
        Err(_) => false,
    }
}

/// Destroys the entity `id`, if it is live.
///
/// Calls `hecs::World::despawn`, which frees the slot of a live entity for
/// reuse and fails on any other handle, leaving the store as it was. It
/// makes no slot.
#[verifier::external_body]
pub(crate) fn despawn(world: &mut World, id: Entity) -> (done: bool)
    ensures
        entities(*old(world)).contains_key(id) ==> done,
        entities(*final(world)) == entities(*old(world)).remove(id),
        slots(*final(world)) == slots(*old(world)),
{
    world.despawn(id).is_ok()
}

/// Every entity of the store with its position, each entity once, in no
/// particular order.
///
/// Calls `hecs::World::query` and walks the result, which yields each
/// entity that has the component once, in an order that `hecs` calls
/// arbitrary.
#[verifier::external_body]
pub(crate) fn positions(world: &World) -> (found: Vec<(Entity, Option<Position>)>)
    ensures
        forall|i: int|
            0 <= i < found@.len() ==> entities(*world).contains_key(#[trigger] found@[i].0)
                && found@[i].1 == entities(*world)[found@[i].0].position,
        forall|id: Entity|
            entities(*world).contains_key(id) ==> exists|i: int|
                0 <= i < found@.len() && #[trigger] found@[i].0 == id,
        forall|i: int, j: int|
            0 <= i < j < found@.len() ==> #[trigger] found@[i].0 != #[trigger] found@[j].0,
{
    world.query::<&Components>().iter().map(|(id, components)| (id, components.position)).collect()
}

/// Whether two handles are the same.
///
/// Calls `==` of `hecs::Entity`, which `hecs` derives: two handles are equal
/// when their slot and their generation are.
#[verifier::external_body]
pub(crate) fn same_entity(a: Entity, b: Entity) -> (same: bool)
    ensures
        same == (a == b),
{
    a == b
}

/// A handle to stand in where no entity is known yet.
///
/// Hands out `hecs::Entity::DANGLING`, of which `hecs` promises nothing: a
/// store may even hold a live entity with this handle.
#[verifier::external_body]
pub(crate) fn dangling() -> Entity {
    Entity::DANGLING
}

} // verus!
