
pub mod cli;
pub mod clone_url;
pub mod config;
pub mod device_flow;
pub mod errors;
pub mod heuristic;
pub mod registry;
pub mod ssh_setup;
pub mod sshgen;
pub mod text;
pub mod types;
pub mod vault;
