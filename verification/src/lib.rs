//! Verified core of a video-frame marker analyzer.
//!
//! The library covers the logic of the tool: parsing the decoder's
//! diagnostic text into media metadata, wrapping raw pixel bytes into
//! frame buffers, scanning a frame for the marker glyph, and the worker
//! state machine that drives the external decoder process. Process
//! spawning, pipes and threads live outside the library and are driven
//! through the plans and events these modules compute.

pub mod detect;
pub mod frame;
pub mod probe;
pub mod worker;
