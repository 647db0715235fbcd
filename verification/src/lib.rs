//! Verified core of a local media-library manager: classification of files
//! by content-type inference, streaming content fingerprints, parsers for
//! the free-form diagnostic text of external decoder tools, adaptive
//! thumbnail compression, and the thumbnail pipeline's decision logic as a
//! step-by-step state machine with a proved cleanup guarantee.

pub mod decimal;
pub mod digits;
pub mod error;
pub mod fileops;
pub mod frame_rate;
pub mod hash;
pub mod scan;
pub mod stats;
pub mod thumbnail;
