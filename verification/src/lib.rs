//! Supervision of a single companion worker process for the lifetime of a
//! window.
//!
//! A desktop shell starts one worker beside its window and has to take it
//! down again, as a whole process group, when the user closes the window:
//! before the window disappears, at most once, and without ever hanging the
//! close. This crate holds the decisions of that supervision and proves them:
//!
//! - [`spawner`] says whether a worker is spawned at all, and turns the
//!   outcome of the attempt into the registry that the application keeps;
//! - [`registry`] is the one slot that owns the worker's handle, filled at
//!   most once and drained at most once;
//! - [`coordinator`] answers window events, the locked registry and the
//!   outcome of the kill with the actions to perform next;
//! - [`lifecycle`] puts those answers together into whole runs and proves
//!   what holds of every run;
//! - [`error`] names what can go wrong.
//!
//! Starting and killing processes, locking, talking to the window system and
//! leaving the process are the caller's part. The functions here say what to
//! do, as values, and take back what came of it; the handle of the worker is
//! whatever type the caller's platform gives it, moved and never copied.

pub mod coordinator;
pub mod error;
pub mod lifecycle;
pub mod registry;
pub mod spawner;
