//! Core of a small fleet-management control plane.
//!
//! The crate tracks a set of compute hosts, each with an allocation state and
//! a health state, and drives the health state machine
//! `Good -> NeedsMaintenance -> InMaintenance -> Good`.  The host store, the
//! RPC service facade over it, and the reconciliation engine that claims and
//! maintains flagged hosts are all verified; process wiring, the wire
//! transport and the concrete persistence engine live outside the library.

pub mod ids;
pub mod maintainer;
pub mod service;
pub mod states;
pub mod store;
