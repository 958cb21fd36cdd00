//! Lifecycle management for provisioned virtual-machine "boxes": parsing the
//! provisioning tool's status listing, the power-state machine with its
//! guaranteed-restore guard, and the orchestrator that plans the command
//! sequence for a maintenance run.

pub mod command;
pub mod guard;
pub mod parser;
pub mod run;
pub mod status;
pub mod vagrant;
