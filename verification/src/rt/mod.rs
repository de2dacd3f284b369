//! Ray-tracing support: instance records for the top-level acceleration
//! structure and the planning of acceleration-structure builds.

pub mod acceleration_structure;
