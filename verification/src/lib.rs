pub mod text;
pub mod names;
pub mod config;
pub mod cli;
pub mod paths;
pub mod powershell;
pub mod resolver;
pub mod path_bytes;
pub mod completions;
pub mod quote;
pub mod key_history;
pub mod key_bindings;
pub mod key_bindings_nu;
pub mod shell;
pub mod mounts;
pub mod windows_mounts;
pub mod worktree;
pub mod execution;
pub mod laws;
pub mod key_zoxide;
pub mod guarantees;
