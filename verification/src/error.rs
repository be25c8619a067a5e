use vstd::prelude::*;
use crate::gameobjtype::InitError;

verus! {

/// Why an operation of the game gave up.
#[derive(Clone, Copy, Debug, PartialEq, Eq, Structural)]
pub enum GameError {
    /// The initialiser of the type of a new entity failed.
    Init(InitError),
    /// The store has no room for another entity.
    StoreFull,
    /// The reference entity is not in the store, or has no position.
    NoReference,
    /// The entity is not in the store, or has no position.
    NoPosition,
    /// The reference entity is not a player.
    NoPlayer,
    /// The reference entity is in a chunk at the edge of the range of chunk
    /// coordinates, so that its neighbourhood has no keys.
    AtEdge,
}

impl GameError {
    /// A short description of the error.
    pub open spec fn spec_message(&self) -> Seq<char> {
        match self {
            GameError::Init(InitError::MissingPosition) => "no position component"@,
            GameError::StoreFull => "too many entities"@,
            GameError::NoReference => "the player has no position"@,
            GameError::NoPosition => "no position component"@,
            GameError::NoPlayer => "the player has no player component"@,
            GameError::AtEdge => "the player is at the edge of the world"@,
        }
    }

    /// A short description of the error.
    pub fn message(&self) -> (text: &'static str)
        ensures
            text@ == self.spec_message(),
    {
        match self {
            GameError::Init(InitError::MissingPosition) => "no position component",
            GameError::StoreFull => "too many entities",
            GameError::NoReference => "the player has no position",
            GameError::NoPosition => "no position component",
            GameError::NoPlayer => "the player has no player component",
            GameError::AtEdge => "the player is at the edge of the world",
        }
    }
}

} // verus!
