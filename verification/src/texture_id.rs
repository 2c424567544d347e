//! Identifiers of logical textures.

use vstd::prelude::*;

verus! {

/// Names one logical texture for as long as it is not freed.
///
/// `Managed` identifiers are handed out by the GUI layer (`Managed(0)` is its
/// font atlas); `User` identifiers name images that the host registered.
#[derive(Clone, Copy, Debug, PartialEq, Eq, Hash, Structural)]
pub enum TextureId {
    Managed(u64),
    User(u64),
}

/// The number under which the tables of this crate keep what belongs to
/// `id`: even numbers for managed textures, odd numbers for the others, so
/// that no two identifiers share one.
pub open spec fn slot_of(id: TextureId) -> u128 {
    match id {
        TextureId::Managed(number) => (2 * number) as u128,
        TextureId::User(number) => (2 * number + 1) as u128,
    }
}

impl TextureId {
    /// Computes [`slot_of`].
    pub fn slot(&self) -> (key: u128)
        ensures
            key == slot_of(*self),
    {
        match self {
            TextureId::Managed(number) => 2 * (*number as u128),
            TextureId::User(number) => 2 * (*number as u128) + 1,
        }
    }
}

} // verus!
