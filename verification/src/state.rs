//! The engine-facing state store.
//!
//! Scan results accumulate in one state value that the front end reads and
//! the scan workers write, always through dispatched actions: a keyed
//! upsert per finished target, a completion mark, the scan-scoped run
//! flag. The reducer is pure; the lock that guards the store at run time
//! belongs to the runtime around the library.

pub mod actions;
pub mod application_state;
pub mod host_modal_state;
pub mod reducers;
pub mod store;
