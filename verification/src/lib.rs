//! A turn-based card game's session bookkeeping: who sits at the table, whose
//! turn it is, and a hash chain over every accepted move.

pub mod digest;
pub mod text;
pub mod game;
pub mod store;
pub mod laws;
pub mod store_laws;
