//! Types shared with the plugin system.  Loading and running plugins
//! happens outside the crate; these are the plain data carriers.

use vstd::prelude::*;

verus! {

/// Per-plugin configuration.
#[derive(Debug)]
pub struct PluginConfig {
    /// Whether the plugin is active.
    pub enabled: bool,
    /// Free-form key/value settings.
    pub settings: Vec<(String, String)>,
}

/// A command a plugin offers.
#[derive(Debug)]
pub struct CommandSpec {
    /// The command's name.
    pub name: String,
    /// What the command does.
    pub description: String,
    /// The shortcut it is bound to, if any.
    pub shortcut: Option<String>,
}

/// The context a plugin command runs in.
pub struct CommandContext {
    /// The directory the command was invoked from.
    pub current_path: String,
    /// The paths selected when the command was invoked.
    pub selected_files: Vec<String>,
}

} // verus!
