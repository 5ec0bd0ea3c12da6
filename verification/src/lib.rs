//! Slotted behavioral variants for entity kinds.
//!
//! An entity kind (a fighter or a weapon) may carry several variants, each
//! selected by a set of color ids. The registry keeps, per kind, the ordered
//! list of variant records; every live instance resolves once which variant
//! it is, and the dispatch functions answer, for a frame tick or a named
//! command, which hook of the resolved variant has to run.
//!
//! The library never calls a hook itself: hooks are carried as opaque
//! handles, and every entry point hands back what the host has to do.

pub mod agent;
pub mod color;
pub mod hooks;
pub mod installer;
pub mod laws;
pub mod names;
pub mod registry;
pub mod search;
pub mod slots;
pub mod suffix;

pub use agent::SlottedAgent;
pub use registry::get_colors;
