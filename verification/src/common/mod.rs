//! Types shared by the reporter side and the fault manager.

pub mod assoc_map;
pub mod catalog;
pub mod config;
pub mod debounce;
pub mod enabling_condition;
pub mod fault;
pub mod fixed_string;
pub mod fixed_vec;
pub mod ids;
pub mod ipc_service_name;
pub mod path_map;
pub mod query_protocol;
pub mod sink_error;
pub mod text;
pub mod types;
