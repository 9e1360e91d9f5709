//! The storage core of a small entity-component engine.
//!
//! Every entity owns one [`util::arena::ComponentArena`], a label-indexed byte
//! buffer that holds its components as fixed-layout values. Systems read the
//! entities and ask for changes; a tick applies the changes after every system
//! has run.

pub mod game;
pub mod render;
pub mod util;
