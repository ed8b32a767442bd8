//! The commands the menu can run, and path expansion for the files they open.

use vstd::prelude::*;
use vstd::string::*;
use crate::text::str_eq;

verus! {

/// An action requested by name from the menu.
#[derive(Debug, Clone, Copy, PartialEq, Eq, Structural)]
pub enum Command {
    Start,
    Stop,
    Restart,
    Unload,
    Install,
    Uninstall,
    OpenUi,
    ViewLogs,
    ViewConfig,
}

/// A command name that is not known.
#[derive(Debug, Clone)]
pub struct UnknownCommand {
    pub name: String,
}

/// The command a name stands for.
pub open spec fn command_of(name: Seq<char>) -> Option<Command> {
    if name == "do_start"@ {
        Some(Command::Start)
    } else if name == "do_stop"@ {
        Some(Command::Stop)
    } else if name == "do_restart"@ {
        Some(Command::Restart)
    } else if name == "do_unload"@ {
        Some(Command::Unload)
    } else if name == "do_install"@ {
        Some(Command::Install)
    } else if name == "do_uninstall"@ {
        Some(Command::Uninstall)
    } else if name == "open_ui"@ {
        Some(Command::OpenUi)
    } else if name == "view_logs"@ {
        Some(Command::ViewLogs)
    } else if name == "view_config"@ {
        Some(Command::ViewConfig)
    } else {
        None
    }
}

/// Chooses the action for a command name, or refuses an unknown name.
pub fn handle_command(command: &str) -> (r: Result<Command, UnknownCommand>)
    ensures
        match command_of(command@) {
            Some(c) => r == Ok::<Command, UnknownCommand>(c),
            None => r matches Err(e) && e.name@ == command@,
        },
{
    if str_eq(command, "do_start") {
        Ok(Command::Start)
    } else if str_eq(command, "do_stop") {
        Ok(Command::Stop)
    } else if str_eq(command, "do_restart") {
        Ok(Command::Restart)
    } else if str_eq(command, "do_unload") {
        Ok(Command::Unload)
    } else if str_eq(command, "do_install") {
        Ok(Command::Install)
    } else if str_eq(command, "do_uninstall") {
        Ok(Command::Uninstall)
    } else if str_eq(command, "open_ui") {
        Ok(Command::OpenUi)
    } else if str_eq(command, "view_logs") {
        Ok(Command::ViewLogs)
    } else if str_eq(command, "view_config") {
        Ok(Command::ViewConfig)
    } else {
        Err(UnknownCommand { name: command.to_owned() })
    }
}

/// `path` with a leading `~/` standing for `home`.
pub open spec fn expanded(path: Seq<char>, home: Seq<char>) -> Seq<char> {
    if path.len() >= 2 && path[0] == '~' && path[1] == '/' {
        home + path.subrange(1, path.len() as int)
    } else {
        path
    }
}

/// Replaces a leading `~` of a `~/` path by the home directory.
pub fn expand_tilde(path: &str, home: &str) -> (r: String)
    ensures
        r@ == expanded(path@, home@),
{
    let n = path.unicode_len();
    if n >= 2 && path.get_char(0) == '~' && path.get_char(1) == '/' {
        let mut r = home.to_owned();
        r.append(path.substring_char(1, n));
        r
    } else {
        path.to_owned()
    }
}

/// The text a new log file starts with.
pub fn create_default_log() -> (r: &'static str)
    ensures
        r@ == "# Llama-Swap Plugin Log\n"@,
{
    "# Llama-Swap Plugin Log\n"
}

/// The text a new configuration file starts with.
pub fn create_default_config() -> (r: &'static str)
    ensures
        r@ == DEFAULT_CONFIG@,
{
    DEFAULT_CONFIG
}

pub const DEFAULT_CONFIG: &'static str = "# Llama-Swap Configuration
models:
  \"Qwen3-30B-A3B-128K\":
        cmd: >-
        llama-server
        --metrics
        --port 8902
        --model unsloth_Qwen3-30B-A3B-128K-GGUF_Qwen3-30B-A3B-128K-XXX.gguf
        --n-gpu-layers 999
        --flash-attn
        --rope-scaling yarn
        --rope-scale 4
        --yarn-orig-ctx 32768
        --ctx-size 131072
        --cache-type-k q4_1
        --cache-type-v q4_1
        --batch-size 1024
        --temp 0.6
        --top-p 0.95
        --top-k 20
        --min-p 0
";

} // verus!
