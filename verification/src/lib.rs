//! The decision core of the opensessions server.

pub mod agents;
pub mod caches;
pub mod commands;
pub mod context;
pub mod debug_log;
pub mod errors;
pub mod http;
pub mod json;
pub mod metadata;
pub mod numerals;
pub mod pi_runtime_registry;
pub mod project_dir_session;
pub mod protocol;
pub mod remote_tmux_provider;
pub mod routing;
pub mod runners;
pub mod sessions;
pub mod sidebar;
pub mod sorting;
pub mod state_changes;
pub mod state_source;
pub mod switching;
pub mod text;
pub mod text_map;
pub mod watchers;
pub mod websocket;
