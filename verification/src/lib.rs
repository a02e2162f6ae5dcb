//! Container isolation logic for Windows and Unix hosts.

pub mod cli;
pub mod container;
pub mod inject;
pub mod netstack;
pub mod paths;
pub mod show;
pub mod text;
pub mod wide;
