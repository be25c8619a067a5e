//! What a module that defines an object type needs.

pub use crate::components::Direction;
pub use crate::components::Player;
pub use crate::components::Position;
pub use crate::components::TextureTransform;
pub use crate::constants::TILE_UNITS;
pub use crate::ecs::Components;
pub use crate::gameobjtype::gameobjtype::GameObjectTypeBuilder;
pub use crate::gameobjtype::gameobjtype::InitError;
pub use crate::gameobjtype::gameobjtype::InitFnType;
