pub mod amount;
pub mod defs;
pub mod display;
pub mod engine;
pub mod state;
