//! The decision-making core of a disaggregated Postgres storage system.
//!
//! Each module holds the state, the rules and the byte formats of one part of the
//! system.  Reading and writing, waiting and logging happen in the code around the
//! library, which hands it plain values and performs what it decides.
pub mod base;
pub mod pageserver;
pub mod proxy;
pub mod safekeeper;
