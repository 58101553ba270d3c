//! Start-up logic of the SoulSense desktop shell.
//!
//! The host framework, the plugins and the bundled backend process live
//! outside this library. What is decided here is the order in which the
//! start-up steps run, which plugins a configuration registers, how each
//! step's outcome is answered, and when incoming deep links are delivered.
//! The embedding program performs each requested step and reports back.
pub mod plugin;

pub mod startup;

pub mod guarantees;
