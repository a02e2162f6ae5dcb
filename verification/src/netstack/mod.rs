//! The userspace network stack of a container.

pub mod client;
pub mod daemon;
pub mod iat;
pub mod nat_backend;
pub mod runtime;
pub mod shim;
pub mod socket_table;
pub mod wire;
