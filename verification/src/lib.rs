//! A verified core for a Move smart-contract subsystem: address parsing, bytecode
//! bundle checks, gas accounting, storage write sets, publish planning, package
//! manifests and the stdlib registry.
pub mod text;
pub mod types;
pub mod bytecode;
pub mod config;
pub mod write_set;
pub mod vm_types;
pub mod gas;
pub mod state;
pub mod resources;
pub mod session;
pub mod publisher;
pub mod executor;
pub mod abi;
pub mod move_gas_meter;
pub mod stdlib;
pub mod package;
pub mod vm_backend;
