//! Which menu commands are offered in which state, and the status colours.

use vstd::prelude::*;
use crate::state_model::DisplayState;
use crate::text::str_eq;

verus! {

/// A menu entry that runs a command.
#[derive(Debug, Clone)]
pub struct MenuCommand {
    pub icon: &'static str,
    pub label: &'static str,
    pub action: &'static str,
    /// The states in which the entry is offered; empty means every state.
    pub states: Vec<DisplayState>,
}

impl MenuCommand {
    pub open spec fn available_in(&self, state: DisplayState) -> bool {
        self.states@.len() == 0 || self.states@.contains(state)
    }

    /// Whether the entry is offered in `state`.
    pub fn is_available_for_state(&self, state: DisplayState) -> (r: bool)
        ensures
            r == self.available_in(state),
    {
        if self.states.len() == 0 {
            return true;
        }
        let mut i: usize = 0;
        while i < self.states.len()
            invariant
                i <= self.states@.len(),
                forall|j: int| 0 <= j < i ==> self.states@[j] != state,
            decreases self.states@.len() - i,
        {
            if self.states[i] == state {
                return true;
            }
            i = i + 1;
        }
        false
    }

    /// Unload, stop and start, in menu order.
    pub fn control_commands() -> (r: Vec<MenuCommand>)
        ensures
            r@.len() == 3,
            r@[0].action@ == "do_unload"@,
            r@[0].states@ == seq![DisplayState::ModelProcessingQueue, DisplayState::ModelReady,
                DisplayState::ServiceLoadedNoModel],
            r@[1].action@ == "do_stop"@,
            r@[1].states@ == seq![DisplayState::ModelProcessingQueue, DisplayState::ModelReady,
                DisplayState::ServiceLoadedNoModel, DisplayState::AgentStarting],
            r@[2].action@ == "do_start"@,
            r@[2].states@ == seq![DisplayState::ServiceStopped],
    {
        let unload = MenuCommand {
            icon: ":eject:",
            label: "Unload Model(s)",
            action: "do_unload",
            states: vec![DisplayState::ModelProcessingQueue, DisplayState::ModelReady,
                DisplayState::ServiceLoadedNoModel],
        };
        let stop = MenuCommand {
            icon: ":stop.fill:",
            label: "Stop Llama-Swap Service",
            action: "do_stop",
            states: vec![DisplayState::ModelProcessingQueue, DisplayState::ModelReady,
                DisplayState::ServiceLoadedNoModel, DisplayState::AgentStarting],
        };
        let start = MenuCommand {
            icon: ":play.fill:",
            label: "Start Llama-Swap Service",
            action: "do_start",
            states: vec![DisplayState::ServiceStopped],
        };
        vec![unload, stop, start]
    }

    /// Opening the configuration, offered in every state.
    pub fn config_command() -> (r: MenuCommand)
        ensures
            r.action@ == "view_config"@,
            r.states@.len() == 0,
    {
        MenuCommand { icon: ":gearshape:", label: "Edit Llama-Swap Configuration", action: "view_config", states: Vec::new() }
    }

    /// Opening the web UI, offered while the API answers.
    pub fn ui_command() -> (r: MenuCommand)
        ensures
            r.action@ == "open_ui"@,
            r.states@ == seq![DisplayState::ModelProcessingQueue, DisplayState::ModelReady,
                DisplayState::ServiceLoadedNoModel],
    {
        MenuCommand {
            icon: ":globe:",
            label: "Open Llama-Swap UI",
            action: "open_ui",
            states: vec![DisplayState::ModelProcessingQueue, DisplayState::ModelReady,
                DisplayState::ServiceLoadedNoModel],
        }
    }

    /// Restarting the service, offered in every state.
    pub fn restart_command() -> (r: MenuCommand)
        ensures
            r.action@ == "do_restart"@,
            r.states@.len() == 0,
    {
        MenuCommand { icon: ":arrow.2.circlepath:", label: "Restart Llama-Swap Service", action: "do_restart", states: Vec::new() }
    }

    /// Installing the service, offered while requirements are missing.
    pub fn install_command() -> (r: MenuCommand)
        ensures
            r.action@ == "do_install"@,
            r.states@ == seq![DisplayState::AgentNotLoaded],
    {
        MenuCommand {
            icon: ":arrow.down.doc:",
            label: "Install Llama-Swap Service",
            action: "do_install",
            states: vec![DisplayState::AgentNotLoaded],
        }
    }

    /// Uninstalling the service.
    pub fn uninstall_command() -> (r: MenuCommand)
        ensures
            r.action@ == "do_uninstall"@,
            r.states@.len() == 0,
    {
        MenuCommand { icon: ":trash:", label: "Uninstall Llama-Swap Service", action: "do_uninstall", states: Vec::new() }
    }
}

/// The hex code of a status colour name; unknown names are grey.
pub open spec fn hex_color_of(color: Seq<char>) -> &'static str {
    if color == "red"@ {
        "#FF3B30"
    } else if color == "grey"@ {
        "#8E8E93"
    } else if color == "yellow"@ {
        "#FF9500"
    } else if color == "green"@ {
        "#34C759"
    } else if color == "blue"@ {
        "#007AFF"
    } else {
        "#8E8E93"
    }
}

/// See `hex_color_of`.
pub fn get_hex_color(color: &str) -> (r: &'static str)
    ensures
        r == hex_color_of(color@),
{
    if str_eq(color, "red") {
        "#FF3B30"
    } else if str_eq(color, "grey") {
        "#8E8E93"
    } else if str_eq(color, "yellow") {
        "#FF9500"
    } else if str_eq(color, "green") {
        "#34C759"
    } else if str_eq(color, "blue") {
        "#007AFF"
    } else {
        "#8E8E93"
    }
}

} // verus!
