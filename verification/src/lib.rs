//! A store of vehicles and rental requests kept in numbered segments of one
//! linear memory: an identifier counter and two ordered maps of byte
//! records, with the record formats, the storage operations and the laws that
//! relate them stated as contracts and proved.

pub mod bounded_map;
pub mod car;
pub mod counter;
pub mod error;
pub mod listing;
pub mod record;
pub mod rental;
pub mod segment;
pub mod store;
pub mod table;
pub mod wire;
