//! The decision logic of douglas, a small container orchestrator.

pub mod application_definition;
pub mod bootstrap;
pub mod build_container;
pub mod client;
pub mod commands;
pub mod connection;
pub mod container_steps;
pub mod docker;
pub mod document;
pub mod drop_seedling;
pub mod encoding;
pub mod executor;
pub mod find_deadwood;
pub mod find_orphans;
pub mod history;
pub mod labels;
pub mod listener;
pub mod modes;
pub mod names;
pub mod naming;
pub mod new_seedling;
pub mod openbao_status;
pub mod paths;
pub mod protocol;
pub mod provision_seedling_secrets;
pub mod prune;
pub mod reconcile_discovery;
pub mod reconcile_seedling;
pub mod rolodex;
pub mod rotate_seedling_logs;
pub mod script;
pub mod seedling;
pub mod sequences;
pub mod server;
pub mod service;
pub mod start_seedling;
pub mod stop_seedling;
pub mod system_bootstrap;
pub mod text;
pub mod watchdog;
pub mod write_traefik_routes;
