//! Decoding of item descriptions, and the arithmetic behind the inventory macros.

pub mod auto_roll;
pub mod chaos_recipe;
pub mod error;
pub mod inventory;
pub mod item;
pub mod laws;
pub mod modline;
pub mod mouse;
pub mod number;
pub mod quad;
pub mod screenshot;
pub mod settings;
pub mod text;
