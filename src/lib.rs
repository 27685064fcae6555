//! Keeps the sandboxing nil assignments of a Lua script commented out.
//!
//! `lua_desanitizer` is the line transform, `file_monitor` the change test
//! on modification times, and `coordinator` the decisions of the watch loop
//! that ties them together; `dcs_directory_finder` builds the path of the
//! watched file, and `configuration_reader` holds the options of a
//! foreground run.

pub mod configuration_reader;
pub mod coordinator;
pub mod dcs_directory_finder;
pub mod file_monitor;
pub mod lua_desanitizer;
