pub mod state;
pub mod state_types;
