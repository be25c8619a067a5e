use vstd::prelude::*;
use crate::gameobjtype::base::Components;
use crate::gameobjtype::base::Direction;
use crate::gameobjtype::base::GameObjectTypeBuilder;
use crate::gameobjtype::base::InitError;
use crate::gameobjtype::base::InitFnType;
use crate::gameobjtype::base::TextureTransform;

verus! {

/// What `init` makes of `before`, which has a position: the same
/// components on the top layer, with a texture at twice its size.
pub open spec fn initialised(before: Components) -> Components {
    Components {
        position: Some(before.position->0.with_top()),
        texture: Some(TextureTransform { direction: Direction::Twelve, scale: 200 }),
        ..before
    }
}

/// Fails, and changes nothing, unless the entity has a position.
pub fn init(entity: &mut Components) -> (r: Result<(), InitError>)
    ensures
        match r {
            Ok(_) => old(entity).position is Some && *final(entity) == initialised(*old(entity)),
            Err(e) => {
                &&& e == InitError::MissingPosition
                &&& old(entity).position is None
                &&& *final(entity) == *old(entity)
            },
        },
{
    match entity.position {
        Some(mut position) => {
            position.top();
            entity.position = Some(position);
            entity.texture = Some(TextureTransform::new().scale(200));
            Ok(())
        },
        None => Err(InitError::MissingPosition),
    }
}

pub open spec fn spec_builder() -> GameObjectTypeBuilder {
    GameObjectTypeBuilder {
        key: "tree",
        init: Some(InitFnType::Tree),
        update: None,
        texture: Some("tree"),
    }
}

pub fn builder() -> (b: GameObjectTypeBuilder)
    ensures
        b == spec_builder(),
{
    let mut b = GameObjectTypeBuilder::new("tree");
    b.init(InitFnType::Tree).texture("tree");
    b
}

} // verus!
