//! Frontends: adaptors that expose the crate through foreign interfaces.

pub mod zencan;
