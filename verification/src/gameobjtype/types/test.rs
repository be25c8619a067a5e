use vstd::prelude::*;
use crate::gameobjtype::base::Components;
use crate::gameobjtype::base::GameObjectTypeBuilder;
use crate::gameobjtype::base::InitError;
use crate::gameobjtype::base::InitFnType;
use crate::gameobjtype::base::Position;
use crate::gameobjtype::base::TILE_UNITS;

verus! {

/// What `init` makes of `before`: the same components, placed one tile
/// right of and one tile below the origin.
pub open spec fn initialised(before: Components) -> Components {
    Components {
        position: Some(Position::Free { x: TILE_UNITS, y: TILE_UNITS, top: false }),
        ..before
    }
}

pub fn init(entity: &mut Components) -> (r: Result<(), InitError>)
    ensures
        r is Ok,
        *final(entity) == initialised(*old(entity)),
{
    entity.position = Some(Position::free(TILE_UNITS, TILE_UNITS));
    Ok(())
}

pub open spec fn spec_builder() -> GameObjectTypeBuilder {
    GameObjectTypeBuilder {
        key: "test",
        init: Some(InitFnType::Test),
        update: None,
        texture: Some("error"),
    }
}

pub fn builder() -> (b: GameObjectTypeBuilder)
    ensures
        b == spec_builder(),
{
    let mut b = GameObjectTypeBuilder::new("test");
    b.init(InitFnType::Test).texture("error");
    b
}

} // verus!
