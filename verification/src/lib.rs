//! The StarkNet syscall handler of a contract call, over the memory of a Cairo virtual machine.
pub mod business_logic_syscall_handler;
pub mod call_laws;
pub mod config;
pub mod errors;
pub mod felt;
pub mod laws;
pub mod machine;
pub mod memory_laws;
pub mod objects;
pub mod raw_memory;
pub mod relocatable;
pub mod resources;
pub mod state;
pub mod storage_laws;
pub mod syscall_info;
pub mod syscall_request;
pub mod value_laws;
