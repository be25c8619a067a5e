//! World streaming and draw ordering for a tile-based, chunked 2D world.
//!
//! The crate keeps its entities in an entity-component store, decides which
//! chunks of terrain have to exist around a moving reference entity,
//! materialises the missing ones, and computes the layered order in which
//! everything in view is updated and drawn. A registry maps type keys to
//! initialisers and to a compact table of update behaviours.

pub mod constants;
pub mod types;
pub mod utils;
pub mod random;
pub mod textures;
pub mod event;
pub mod components;
pub mod ecs;
pub mod gameobjtype;
pub mod error;
pub mod game;
pub mod ui;
