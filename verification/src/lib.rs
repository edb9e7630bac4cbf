//! Core logic of an assistant-style application launcher.
//!
//! The library discovers candidate applications from snapshots of several
//! operating-system sources, merges them into an immutable registry, resolves
//! free-text queries against that registry, and plans a small set of user
//! actions (open an application, open a URL, terminate a process) with a
//! fallback-confirmation workflow.  All functions here are pure computations
//! on plain values; the host process performs the surrounding I/O.

pub mod actions;
pub mod discovery;
pub mod dispatch;
pub mod locator;
pub mod model;
pub mod names;
pub mod normalize;
pub mod order;
pub mod registry;
pub mod resolver;
pub mod text;
