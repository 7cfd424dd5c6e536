//! Administration tools: the script interpreter and the installer's logic.

pub mod awescript;
pub mod aosin;
pub mod builder;
