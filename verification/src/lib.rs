//! Repository security knowledge for a coding agent, and the policy for its writes.

pub mod agent;
pub mod context;
pub mod decode;
pub mod discovery;
pub mod encode;
pub mod error;
pub mod graph;
pub mod hash;
pub mod json;
pub mod lint;
pub mod load;
pub mod location;
pub mod operations;
pub mod options;
pub mod ordered;
pub mod path;
pub mod policies;
pub mod prompt;
pub mod reading;
pub mod review;
pub mod roundtrip;
pub mod scan;
pub mod sources;
pub mod store;
pub mod text;
pub mod write_gate;
