//! What the two ends share, and what each of them does to it.
pub mod exchange;
pub(crate) mod farewell;
pub(crate) mod held;
pub mod journal;
pub(crate) mod leaks;
pub(crate) mod link;
pub(crate) mod record;
pub(crate) mod session;
pub(crate) mod signals;
pub(crate) mod slot;
