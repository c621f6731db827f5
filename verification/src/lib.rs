//! Hook integration for AI coding agent apps: the decisions that
//! the hook entry point takes on an agent's payload, and the edits that install or
//! remove the hook in each agent's config. JSON text is parsed and printed through
//! serde_json; reading and writing files and the terminal is left to the caller.

pub mod agent;
pub mod codec;
pub mod command;
pub mod config;
pub mod files;
pub mod hook;
pub mod json;
pub mod laws;
pub mod text;
pub mod tree;

pub use agent::{Agent, HookFormat};
pub use command::{hook_command, is_our_command, join_paths};
pub use config::{
    copilot_hooks, entry_command_matches, AgentFile, group_has_our_hook, install_agent, uninstall_hooks,
};
pub use files::{
    antigravity_rule_path, config_path, config_text, install_default, install_file, install_line,
    parsed_config, read_json_or, uninstall_file, uninstall_line, ANTIGRAVITY_RULE,
};
pub use hook::{hook_reply, respond, rewrite_response, shell_command};
pub use json::{Json, JsonView};
pub use tree::{json_array_at, put_array_at, ConfigError};
