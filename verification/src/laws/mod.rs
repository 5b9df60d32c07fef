//! Laws of the model: what holds of every context and every walk.

pub mod append;
pub mod output;
pub mod scoping;
pub mod success;
