//! Port usage inspection: parsers for the system's socket tables and the
//! decisions of the port allocator, with their contracts.

pub mod text;
pub mod numeric;
pub mod port_info;
pub mod scanner;
pub mod tables;
pub mod report;
pub mod config;
pub mod formatter;
pub mod port_manager;
pub mod laws;
