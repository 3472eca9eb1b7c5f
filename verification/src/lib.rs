//! Decisions, parsing and bookkeeping of a background process manager,
//! verified with Verus.
pub mod errors;
pub mod naming;
pub mod params;
pub mod procfs;
pub mod registry;
pub mod responses;
pub mod startup;
pub mod status;
pub mod text;
pub mod times;
