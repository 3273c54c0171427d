//! Core of a directory-watching daemon: raw filesystem notifications are
//! reduced to a small domain-event alphabet, and a dispatch loop routes those
//! events to a pluggable processor that forwards new files to an external
//! transfer command.

pub mod dispatcher;
pub mod handler;
pub mod processor;
pub mod provider;
pub mod settings;
pub mod startup;
