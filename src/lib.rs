//! Zero-downtime redeployment of a versioned configuration directory onto
//! running containers or a cluster service.
pub mod cli;
pub mod compose;
pub mod config;
pub mod deployment_manager;
pub mod docker_client;
pub mod env_file;
pub mod git_client;
pub mod http;
pub mod naming;
pub mod targets;
pub mod text;
pub mod types;
