//! Request coordination for a multi-room live-audio service.
//!
//! The crate holds the world model (connected users, live rooms), the
//! precondition that gates every room operation, and the transitions that
//! commit an authorised operation. Every request is judged twice: once
//! against a shared view of the world, and again by the transition itself
//! once the exclusive view is held, so that a decision taken on a stale
//! snapshot can never corrupt the world.

pub mod common;
pub mod communication;
pub mod data_store;
pub mod rooms;
pub mod state;
