//! Records of the processes that a traced build spawns, and the rules that
//! turn a set of such records into one validated process tree.
//!
//! Every type has a mathematical model (its view); the contracts of the
//! functions are stated over those models.

pub mod aggregate;
pub mod driver;
pub mod error;
pub mod event;
pub mod integrity;
pub mod process;
pub mod scratch;
pub mod shim;
