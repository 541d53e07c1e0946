//! Boundary records for ICE candidates.
//!
//! An SDP `candidate` line is handed to the parser, and what the parser found is laid out as a
//! record that a caller on the far side of a C boundary can read without knowing anything of
//! Rust: every text field is a NUL-terminated buffer, the relative address is a nullable
//! buffer, the relative port uses `0` for "absent", and the extension attributes form an array
//! of key/value buffers with their lengths.
//!
//! The record owns every buffer it mentions. The crate that exposes raw addresses turns each
//! buffer into a pointer at the last moment and rebuilds the owned record first thing on
//! release, so that the layout rules are stated and proved here once.

pub mod boundary;
pub mod c_string;
pub mod candidate;
pub mod parser;
pub mod record;

pub use boundary::{free_ice_candidate, parse_ice_candidate_sdp};
pub use candidate::ParsedCandidate;
pub use record::{IceCandidateFFI, KeyValueMap, KeyValuePair};
