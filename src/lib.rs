//! Declarative plugin manager core: configuration editing, resolution of
//! plugins into a lock, the fetch-free reuse check, cache reclamation and
//! rendering of the final script.

pub mod command;
pub mod config;
pub mod lock;
pub mod render;
