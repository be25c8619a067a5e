use vstd::prelude::*;
use hecs::Entity;
use crate::event::ActionState;

verus! {

/// What makes an entity a player: the entity it has selected and the
/// actions that are active for it.
#[derive(Clone, Debug)]
pub struct Player {
    pub selected: Option<Entity>,
    pub action_state: ActionState,
}

impl Player {
    /// A player with nothing selected and no action active.
    pub fn new() -> (p: Self)
        ensures
            p.selected is None,
            p.action_state.momentary() == Set::<Seq<char>>::empty(),
            p.action_state.prolonged() == Set::<Seq<char>>::empty(),
    {
        Self { selected: None, action_state: ActionState::new() }
    }
}

} // verus!
