//! Typed decoding of ConnMan property snapshots and signals.
//!
//! The daemon describes every object as a map from property names to
//! dynamically typed values and announces changes through named signals.
//! This crate turns such snapshots and signals into typed values, and
//! proves that the decoders do what their contracts say.
//!
//! - [`value`] holds the dynamically typed values and the snapshots.
//! - [`api`] reads typed properties out of a snapshot: the accessors, the
//!   lenient decoders of composite properties, and the assemblers of
//!   services, technologies and the manager's state.
//! - [`signal`] classifies a message as a signal, as none, or as malformed.
//! - [`fanout`] keeps the subscribers' queues and hands each signal on.
//! - [`text`] compares strings and reads decimal numbers.
//!
//! Nothing here talks to the daemon. The caller makes the remote calls,
//! converts what comes back into [`value::DynamicValue`]s, and gets typed
//! values in return.

pub mod api;
pub mod fanout;
pub mod signal;
pub mod text;
pub mod value;
