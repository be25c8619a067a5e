pub mod inventory;
pub mod player;
pub mod position;
pub mod types;

pub use inventory::Inventory;
pub use inventory::InventoryItem;
pub use player::Player;
pub use position::ChunkPos;
pub use position::Position;
pub use types::GameObjectTypeComponent;
pub use types::UpdateFn;
pub use crate::textures::Direction;
pub use crate::textures::TextureTransform;
