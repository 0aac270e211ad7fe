//! A small runtime for event-sourced services: worker loops consume an
//! append-only event log inside a transaction and commit the effects of a
//! batch together with the consumer's read progress.

pub mod auction;
pub mod error;
pub mod event_log;
pub mod persistence;
pub mod progress;
pub mod service;
