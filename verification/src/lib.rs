//! Wipe files and devices with ASCII penises: the verified core.
//!
//! This crate holds the decisions and the byte-level work of the wiper:
//! the penis generator, the path-safety guard, the drive policy, the
//! parsers for kernel tables, the cleanup registry and the bookkeeping of
//! the wipe loops. The program around it performs the I/O.

pub mod dicks;
pub mod text;
pub mod pathname;
pub mod safety;
pub mod mountinfo;
pub mod drive;
pub mod cleanup;
pub mod cli;
pub mod wipe;
pub mod progress;
pub mod run;
pub mod verbs;
pub mod lines;
