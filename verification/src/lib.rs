//! Per-application DNS routing: packet parsing, rule matching, process
//! attribution and the wire format used by the resolver shim.

pub mod commands;
pub mod common;
pub mod config;
pub mod detect;
pub mod ebpf;
pub mod launcher;
pub mod packet;
pub mod policy;
pub mod process;
pub mod proxy;
pub mod querylog;
pub mod rules;
pub mod shim;
pub mod state;
pub mod text;
pub mod wire;
