//! Control-plane library for supervising virtual-machine processes on a
//! single host: VM lifecycle bookkeeping, the QMP-style monitor protocol,
//! address reservation for a shared bridge network, and the path and
//! command-line computations behind the process supervisor.
//!
//! All file, socket and process I/O lives outside this crate; the library
//! works on plain values and states exactly what it computes.

pub mod api;
pub mod dnsmasq;
pub mod error;
pub mod imagerepo;
pub mod libvirt;
pub mod lockfile;
pub mod models;
pub mod network;
pub mod qemu;
pub mod text;
pub mod vm;
