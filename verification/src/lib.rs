//! A bridge that lets a single-threaded dynamic host runtime register
//! behavior (request handlers, schema decorators, pipeline items) into a
//! long-lived native entity tree, and lets the native side invoke that
//! behavior later through a single host execution queue.
//!
//! The crate models the three load-bearing mechanisms of such a bridge:
//! bidirectional value marshaling between host values and native values,
//! generation-checked entity handles into an arena-owned entity tree, and a
//! dispatcher that queues host invocations in FIFO order and unifies
//! immediate and deferred host results.

pub mod callback;
pub mod deferred;
pub mod dispatch;
pub mod errors;
pub mod handler;
pub mod property;
pub mod response;
pub mod table;
pub mod tree;
pub mod value;
