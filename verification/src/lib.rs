//! The decisions behind the agent configuration panel: which rows it shows for
//! context servers and external agents, what each row says, which actions it
//! offers, and how the settings change when the user toggles or removes a server.

pub use configuration::AgentConfiguration;

pub mod agent_server;
pub mod configuration;
pub mod context_server;
pub mod extension;
pub mod section;
pub mod settings;
pub mod settings_map;
pub mod text;
