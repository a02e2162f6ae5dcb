//! Containers: what they are made of and how they are run.

pub mod config;
pub mod env;
pub mod sandbox_env;
pub mod env_block;
pub mod sandbox;
pub mod spawn;
pub mod appcontainer;
pub mod launch;
pub mod junction;
pub mod rootfs;
pub mod glob;
pub mod app_stage;
pub mod lifecycle;
pub mod setup;
pub mod detect;
pub mod bindlink;
pub mod desktop;
pub mod job;
pub mod namespace;
pub mod peb;
