//! Supervision of a bundled auxiliary executable (a "sidecar"): the model of
//! the events its process reports, the relay that turns each event into a log
//! record until the process terminates, and the startup decisions of the host
//! that owns them.

pub mod event;
pub mod relay;
pub mod startup;
pub mod text;
