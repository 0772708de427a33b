pub mod codec;
pub mod config;
pub mod naming;
pub mod outcome;
pub mod queues;
pub mod schedule;
pub mod size;
pub mod workers;
