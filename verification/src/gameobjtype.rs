pub mod base;
pub mod gameobjtype;
pub mod types;

pub use gameobjtype::GameObjectType;
pub use gameobjtype::GameObjectTypeBuilder;
pub use gameobjtype::GameObjectTypes;
pub use gameobjtype::InitError;
pub use gameobjtype::InitFnType;
pub use gameobjtype::UpdateData;
pub use gameobjtype::UpdateFnType;
