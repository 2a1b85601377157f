//! Instrumentation of a running host process: locating its singletons by a
//! recurring code idiom, and the bookkeeping of function interception.

pub mod hook;
pub mod image;
pub mod pattern;
pub mod policy;
pub mod scan;
pub mod singleton;
pub mod table;
pub mod world_geom_man;
