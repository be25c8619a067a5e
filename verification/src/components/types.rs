use vstd::prelude::*;
use crate::types::GameObjectTypeId;
use crate::types::UpdateFnIdType;

verus! {

/// Marks an entity with the id of its object type.
#[derive(Clone, Copy, Debug, PartialEq, Eq, Structural)]
pub struct GameObjectTypeComponent {
    pub id: GameObjectTypeId,
}

/// Marks an entity whose type has an update behaviour with that
/// behaviour's place in the registry's table.
#[derive(Clone, Copy, Debug, PartialEq, Eq, Structural)]
pub struct UpdateFn {
    pub id: UpdateFnIdType,
}

} // verus!
