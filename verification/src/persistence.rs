//! Saved sessions: the snapshot format and the rules of the session store.
pub mod snapshot;
pub mod store;
