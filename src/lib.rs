//! A record set that is served one record at a time, the record changing
//! on a fixed wall-clock cadence: every time slice a new index is drawn
//! uniformly at random, and all requests within one slice see it.
pub mod config;
pub mod record;
pub mod rotation;
pub mod selector;
