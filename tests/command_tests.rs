use llama_swap_swiftbar::charts::MetricType;
use llama_swap_swiftbar::commands::{create_default_config, create_default_log, expand_tilde, handle_command, Command};
use llama_swap_swiftbar::menu::{get_hex_color, MenuCommand};
use llama_swap_swiftbar::state_machines::agent::{
    AgentContext, AgentError, AgentEvents, AgentStateMachine, AgentStates, ServiceRunning, StartupTimeout,
};
use llama_swap_swiftbar::state_machines::model::{ModelActive, ModelContext, ModelEvents, ModelLoading, ModelStateMachine, ModelStates};
use llama_swap_swiftbar::state_machines::polling_mode::{
    MinimumDurationElapsed, PollingModeContext, PollingModeError, PollingModeEvents, PollingModeStateMachine,
    PollingModeStates, QueueActivity, StateChange,
};
use llama_swap_swiftbar::state_machines::program::{
    AgentUpdate, ModelUpdate, ProgramContext, ProgramError, ProgramEvents, ProgramStateMachine, ProgramStates,
};
use llama_swap_swiftbar::state_model::DisplayState;

#[test]
fn command_names() {
    assert_eq!(handle_command("do_start").unwrap(), Command::Start);
    assert_eq!(handle_command("view_config").unwrap(), Command::ViewConfig);
    assert_eq!(handle_command("open_ui").unwrap(), Command::OpenUi);
    let err = handle_command("do_dance").unwrap_err();
    assert_eq!(err.name, "do_dance");
}

#[test]
fn tilde_expansion() {
    assert_eq!(expand_tilde("~/Library/Logs/x.log", "/Users/me"), "/Users/me/Library/Logs/x.log");
    assert_eq!(expand_tilde("/tmp/x", "/Users/me"), "/tmp/x");
    assert_eq!(expand_tilde("~", "/Users/me"), "~");
    assert_eq!(create_default_log(), "# Llama-Swap Plugin Log\n");
    assert!(create_default_config().starts_with("# Llama-Swap Configuration"));
}

#[test]
fn hex_colours_and_menu_availability() {
    assert_eq!(get_hex_color("red"), "#FF3B30");
    assert_eq!(get_hex_color("blue"), "#007AFF");
    assert_eq!(get_hex_color("purple"), "#8E8E93");
    let control = MenuCommand::control_commands();
    assert!(control[2].is_available_for_state(DisplayState::ServiceStopped));
    assert!(!control[2].is_available_for_state(DisplayState::ModelReady));
    assert!(control[1].is_available_for_state(DisplayState::AgentStarting));
    assert!(MenuCommand::restart_command().is_available_for_state(DisplayState::AgentNotLoaded));
    assert!(MenuCommand::install_command().is_available_for_state(DisplayState::AgentNotLoaded));
    assert!(!MenuCommand::ui_command().is_available_for_state(DisplayState::ServiceStopped));
    assert_eq!(MetricType::Tps.color(), (0, 255, 127));
}

#[test]
fn agent_machine() {
    let mut sm = AgentStateMachine::new(AgentContext::new());
    assert_eq!(sm.state(), AgentStates::NotInstalled);
    assert_eq!(sm.process_event(AgentEvents::StartupComplete(StartupTimeout), 0), Err(AgentError::InvalidEvent));
    assert_eq!(sm.process_event(AgentEvents::ServiceDetected(ServiceRunning(true)), 1_000), Ok(AgentStates::Starting));
    assert_eq!(sm.context().transition_start_time, Some(1_000));
    assert!(!sm.context().should_complete_startup(5_999));
    assert!(sm.context().should_complete_startup(6_000));
    assert_eq!(sm.process_event(AgentEvents::StartupComplete(StartupTimeout), 6_000), Ok(AgentStates::Running));
    assert_eq!(sm.process_event(AgentEvents::ServiceDetected(ServiceRunning(false)), 7_000), Ok(AgentStates::Stopped));
    assert_eq!(AgentStates::Stopped.icon_color(), "red");
    assert_eq!(AgentStates::Running.description(), "Agent running");
}

#[test]
fn model_machine() {
    let mut sm = ModelStateMachine::new(ModelContext::new());
    assert!(sm.state().is_unknown());
    assert_eq!(sm.process_event(ModelEvents::LoadingUpdate(ModelLoading(true))), ModelStates::Loading);
    assert_eq!(sm.process_event(ModelEvents::ActiveUpdate(ModelActive(true))), ModelStates::Running);
    assert_eq!(sm.process_event(ModelEvents::LoadingUpdate(ModelLoading(false))), ModelStates::Running);
    assert!(sm.state().is_running());
    assert_eq!(sm.process_event(ModelEvents::ActiveUpdate(ModelActive(false))), ModelStates::Unknown);
    assert!(!sm.state().is_loading());
}

#[test]
fn polling_machine() {
    let mut ctx = PollingModeContext::new();
    ctx.update_activity(true);
    let mut sm = PollingModeStateMachine::new(ctx);
    assert_eq!(
        sm.process_event(PollingModeEvents::MinimumDurationComplete(MinimumDurationElapsed), 0),
        Err(PollingModeError::InvalidEvent)
    );
    assert_eq!(sm.process_event(PollingModeEvents::StateChangeDetected(StateChange), 1_000), Ok(PollingModeStates::Starting));
    assert_eq!(sm.process_event(PollingModeEvents::ActivityCheck(QueueActivity(false)), 2_000), Ok(PollingModeStates::Starting));
    assert_eq!(
        sm.process_event(PollingModeEvents::MinimumDurationComplete(MinimumDurationElapsed), 3_000),
        Err(PollingModeError::TransitionsFailed)
    );
    assert_eq!(
        sm.process_event(PollingModeEvents::MinimumDurationComplete(MinimumDurationElapsed), 6_000),
        Ok(PollingModeStates::Active)
    );
    assert_eq!(sm.process_event(PollingModeEvents::ActivityCheck(QueueActivity(false)), 7_000), Ok(PollingModeStates::Idle));
    assert_eq!(PollingModeStates::Active.interval_secs(), 1);
    assert_eq!(PollingModeStates::Starting.description(), "transition polling");
}

#[test]
fn program_machine() {
    let mut sm = ProgramStateMachine::new(ProgramContext::new());
    let models = ModelUpdate { has_models: true, has_loading: false, has_activity: true };
    assert_eq!(sm.process_event(ProgramEvents::ModelStateChanged(models)), Err(ProgramError::InvalidEvent));
    assert_eq!(
        sm.process_event(ProgramEvents::AgentStateChanged(AgentUpdate(AgentStates::Running))),
        Ok(ProgramStates::ServiceLoadedNoModel)
    );
    assert_eq!(sm.process_event(ProgramEvents::ModelStateChanged(models)), Ok(ProgramStates::ModelProcessingQueue));
    assert_eq!(
        sm.process_event(ProgramEvents::AgentStateChanged(AgentUpdate(AgentStates::Running))),
        Err(ProgramError::TransitionsFailed)
    );
    assert_eq!(sm.state(), ProgramStates::ModelProcessingQueue);
    assert_eq!(
        sm.process_event(ProgramEvents::AgentStateChanged(AgentUpdate(AgentStates::Stopped))),
        Ok(ProgramStates::AgentNotLoaded)
    );
    assert_eq!(ProgramStates::ModelReady.icon_color(), "green");
    assert_eq!(ProgramStates::AgentStarting.status_message(), "Agent starting");
}
