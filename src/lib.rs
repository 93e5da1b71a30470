//! Expansion of class declarations into the registration pieces that a game
//! engine's extension interface needs: tag parsing, field classification and
//! the plan of the emitted declarations.

pub mod class_attrs;
pub mod emit;
pub mod error;
pub mod expand;
pub mod fields;
pub mod kv_group;
pub mod laws;
pub mod syntax;
