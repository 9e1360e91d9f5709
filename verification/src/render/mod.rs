//! What the renderer keeps in the entities.

pub mod asset;
pub mod layout;
pub mod sprite;
