//! Building blocks of a boot and service-management stack: service
//! descriptors, dependency ordering, launch and stop planning, the
//! per-service supervision state machine, and the registry that owns them.

pub mod colour;
pub mod config;
pub mod device_manager;
pub mod errors;
pub mod hardware_drivers;
pub mod ipc;
pub mod kernel;
pub mod lexical;
pub mod loader;
pub mod log;
pub mod manager;
pub mod mount;
pub mod network;
pub mod number;
pub mod ordering;
pub mod parser;
pub mod process;
pub mod service;
pub mod service_file;
pub mod shutdown;
pub mod signal;
pub mod status;
pub mod supervisor;
pub mod text;
pub mod time;
pub mod tty;
pub mod unmount;
pub mod utils;
