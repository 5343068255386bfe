//! Core of a durable, database-backed background task system.
//!
//! Producers insert task rows through the task service; runner processes
//! claim, execute and finalize those tasks with retry, dependency and
//! periodic-scheduling semantics. The store of task rows is modelled here as
//! an in-memory table whose operations carry the same contracts that the
//! SQL-level transitions must satisfy; the surrounding process (polling
//! loops, the real database connection, signal handling) lives outside the
//! verified core and drives it through these operations.

pub mod connection;
pub mod context;
pub mod cronexpr;
pub mod database;
pub mod events;
pub mod json;
pub mod laws;
pub mod name;
pub mod partition;
pub mod periodic;
pub mod queue;
pub mod run;
pub mod schedule;
pub mod store;
pub mod tasks;
pub mod text;
pub mod time;
