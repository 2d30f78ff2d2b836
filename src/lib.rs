//! An in-memory store of named rooms, each holding a versioned data blob that
//! is updated by compare-and-swap on its version.
//!
//! The store is a plain state machine: callers serialise access to it (one
//! lock for the whole store) and do their own waiting. A read that finds
//! nothing new reports `ReadPoll::Pending`; the caller then waits on the
//! room's notifier handle and polls again. Each successful write swaps in a
//! fresh notifier and hands back the retired one, which the caller fires to
//! wake everyone who was waiting on it.

mod blob;
pub mod laws;
pub mod names;
pub mod store;

pub use names::NameGenerator;
pub use store::{CreateError, ReadPoll, Room, RoomStore, WriteError};
