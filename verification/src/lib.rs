//! Serialization actor for a diary note store.
//!
//! A single logical owner of a non-thread-safe entry store accepts CRUD
//! requests from many concurrent callers, applies them strictly in arrival
//! order, and shuts down cleanly even when shutdown is raced from two
//! independent triggers (an explicit shutdown request and a host close
//! event), closing the store exactly once.
//!
//! The crate holds the decision core of that actor: the request envelope
//! protocol, the in-memory entry store it drives, the per-event transition
//! of the actor loop, the shutdown guard shared by the two triggers, and
//! the uniform response envelope handed back to callers. The surrounding
//! runtime (channels, tasks, the host window) performs the actions this
//! core decides on.

pub mod actor;
pub mod request;
pub mod response;
pub mod shutdown;
pub mod store;
pub mod text;
