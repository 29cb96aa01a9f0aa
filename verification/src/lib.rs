use vstd::prelude::*;

pub mod text;
pub mod case;
pub mod assoc;
pub mod interpolation;
pub mod deps;
pub mod duration;
pub mod clock;
pub mod config;
pub mod validation;
pub mod rollout;
pub mod health;
pub mod plugin_system;
pub mod log_level;
pub mod observability;
pub mod error_pages;
pub mod dns;
pub mod service_proxy;
pub mod fqn;
pub mod signaling_control;
pub mod source_manager;
pub mod sizes;
pub mod service_manager;
pub mod crypto;
pub mod exposure;
pub mod flags;
pub mod executor;
pub mod parser;
pub mod settings;
pub mod obs_plugins;
pub mod proxy_middleware;
pub mod daemon;
pub mod defaults;
pub mod env_plugins;
pub mod flags_cli;
pub mod config_validation;
pub mod job_store;
pub mod rollout_manager;
pub mod registry;
pub mod job_runner;
pub mod container_plan;
pub mod client_session;
pub mod daemon_answers;
pub mod cocoon_spawn;
pub mod github_push;
pub mod webhook;
pub mod daemon_startup;

verus! {
} // verus!
