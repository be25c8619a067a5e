use vstd::prelude::*;
use crate::gameobjtype::base::Components;
use crate::gameobjtype::base::GameObjectTypeBuilder;
use crate::gameobjtype::base::InitError;
use crate::gameobjtype::base::InitFnType;
use crate::gameobjtype::base::Player;
use crate::gameobjtype::base::Position;

verus! {

/// What `init` makes of `before`: a player with nothing selected and no
/// action active, at the origin.
pub open spec fn initialised(before: Components, after: Components) -> bool {
    &&& after.position == Some(Position::Free { x: 0, y: 0, top: false })
    &&& after.player is Some
    &&& after.player->0.selected is None
    &&& after.player->0.action_state.momentary() == Set::<Seq<char>>::empty()
    &&& after.player->0.action_state.prolonged() == Set::<Seq<char>>::empty()
    &&& after.inventory == before.inventory
    &&& after.texture == before.texture
    &&& after.object_type == before.object_type
    &&& after.update_fn == before.update_fn
}

pub fn init(entity: &mut Components) -> (r: Result<(), InitError>)
    ensures
        r is Ok,
        initialised(*old(entity), *final(entity)),
{
    entity.player = Some(Player::new());
    entity.position = Some(Position::free(0, 0));
    Ok(())
}

pub open spec fn spec_builder() -> GameObjectTypeBuilder {
    GameObjectTypeBuilder {
        key: "player",
        init: Some(InitFnType::Player),
        update: None,
        texture: Some("player"),
    }
}

pub fn builder() -> (b: GameObjectTypeBuilder)
    ensures
        b == spec_builder(),
{
    let mut b = GameObjectTypeBuilder::new("player");
    b.init(InitFnType::Player).texture("player");
    b
}

} // verus!
