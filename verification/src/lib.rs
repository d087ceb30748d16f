//! Concurrent TCP port scanning: port sets, the worker pool, the result
//! collector and the orchestrator that ties them together.

pub mod collector;
pub mod options;
pub mod pool;
pub mod ports;
pub mod report;
pub mod scan;
pub mod services;
pub mod text;
