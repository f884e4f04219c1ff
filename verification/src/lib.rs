//! A segmented file-transfer engine, without the transfer.
//!
//! The crate holds every decision that a ranged, multi-worker download makes:
//! how a size probe is read, how the byte space is cut into chunks, how one
//! chunk's worker reacts to each network event, and how the chunks are joined
//! into one buffer. The caller performs the requests and the file write, and
//! feeds what it saw back in as plain values.

pub mod assemble;
pub mod engine;
pub mod plan;
pub mod probe;
pub mod text;
pub mod worker;
