//! Decoding of the snapshot storage setting.
//!
//! The setting is written either as a bare string, which names a local
//! directory, or as a map with the keys `bucket` and `region`, which names a
//! remote object store. The decoder inspects the shape of the value, checks
//! it strictly, and returns one typed result or one error.

pub mod error;
pub mod laws;
pub mod model;
pub mod snapshot_manager;
pub mod value;
