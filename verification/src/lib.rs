//! A record-creation service's write-behind buffer: accepted records wait in an
//! in-memory queue, guarded by a set of reserved short names, until a single flush
//! loop commits them to the store in batches.

pub mod controller;
pub mod db;
pub mod flush;
pub mod laws;
pub mod outside;
pub mod queue;
pub mod reservation;
pub mod tags;
pub mod text;
pub mod warmup;
