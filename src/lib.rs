//! A verified core for a parallel job runner: input claiming, command
//! building, admission control, job supervision decisions, in-order output
//! collection, the job log and the worker state machine.

pub mod errors;
pub mod input;
pub mod collector;
pub mod supervisor;
pub mod admission;
pub mod worker;
pub mod job_log;
pub mod command;
