//! Building blocks shared by the dice and monster modules.
pub mod collections;
pub mod index;
pub mod text;
