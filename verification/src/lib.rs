//! Core logic for burning a subtitle track into a video container by driving
//! an external transcoding process: path handling for the filter argument,
//! progress-line parsing, the render job state machine, and a duration probe.

pub mod controller;
pub mod paths;
pub mod probe;
pub mod progress;
pub mod registry;
