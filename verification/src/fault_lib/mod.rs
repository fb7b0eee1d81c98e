//! The reporter side: what an application uses to report faults.

pub mod api;
pub mod enabling_condition;
pub mod event_publisher;
pub mod fault_manager_sink;
pub mod ipc_worker;
pub mod reporter;
pub mod sink;
pub mod utils;
