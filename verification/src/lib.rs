//! Extension reconciliation for a single node: the desired-state model, the
//! content fingerprint of an extension, package naming and archive
//! unpacking plans, and the state machines that drive installation, removal,
//! one reconciliation pass and the polling loop.
//!
//! Nothing here touches the file system, the network or a process. The
//! state machines name the next effect to perform and take its outcome back
//! as an event, so a caller performs the effects and the rules stay here.
//! What holds of the machines however the effects turn out is proved in
//! `laws` and `convergence`.

pub mod archive;
pub mod clock;
pub mod config;
pub mod constants;
pub mod convergence;
pub mod desired;
pub mod digest;
pub mod effect;
pub mod error;
pub mod install;
pub mod json;
pub mod laws;
pub mod layout;
pub mod model;
pub mod reconcile;
pub mod service;
pub mod text;
pub mod uninstall;
