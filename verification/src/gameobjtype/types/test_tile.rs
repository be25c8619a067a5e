use vstd::prelude::*;
use crate::gameobjtype::base::Components;
use crate::gameobjtype::base::GameObjectTypeBuilder;
use crate::gameobjtype::base::InitError;
use crate::gameobjtype::base::InitFnType;
use crate::gameobjtype::base::TextureTransform;

verus! {

/// What `init` makes of `before`: the same components with a texture at
/// its own size, turned in any of the four directions.
pub open spec fn initialised(before: Components, after: Components) -> bool {
    &&& after.texture is Some
    &&& after.texture->0.scale == 100
    &&& after == Components { texture: after.texture, ..before }
}

pub fn init(entity: &mut Components) -> (r: Result<(), InitError>)
    ensures
        r is Ok,
        initialised(*old(entity), *final(entity)),
{
    entity.texture = Some(TextureTransform::new().random_direction());
    Ok(())
}

pub open spec fn spec_builder() -> GameObjectTypeBuilder {
    GameObjectTypeBuilder {
        key: "test_tile",
        init: Some(InitFnType::TestTile),
        update: None,
        texture: Some("grass"),
    }
}

pub fn builder() -> (b: GameObjectTypeBuilder)
    ensures
        b == spec_builder(),
{
    let mut b = GameObjectTypeBuilder::new("test_tile");
    b.init(InitFnType::TestTile).texture("grass");
    b
}

} // verus!
