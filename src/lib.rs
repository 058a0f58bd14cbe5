//! Point-in-time snapshots of the cgroup v1 controller directories.
//!
//! The library owns the data model (mount root, controller names, the
//! snapshot of captured file contents) and every decision made while a
//! controller directory is walked. The filesystem itself is reached by the
//! caller, which feeds each outcome back through [`Capture::step`].
pub mod capture;
pub mod controller;
pub mod snapshot;
pub mod walk;

pub use capture::{Capture, CaptureView, Event, Outcome, Phase, Request};
pub use controller::V1controller;
pub use snapshot::{Cgroup, Subsystem};
