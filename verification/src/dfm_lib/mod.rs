//! The diagnostic fault manager.

pub mod aging_manager;
pub mod civil_date;
pub mod diagnostic_fault_manager;
pub mod enabling_condition_registry;
pub mod fault_catalog_registry;
pub mod fault_code;
pub mod fault_key;
pub mod fault_lib_communicator;
pub mod fault_record_processor;
pub mod kvs;
pub mod operation_cycle;
pub mod query_api;
pub mod query_conversion;
pub mod query_ipc;
pub mod query_server;
pub mod sovd_fault_manager;
pub mod sovd_fault_storage;
pub mod timestamp;
pub mod transport;
