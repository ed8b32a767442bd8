use llama_swap_swiftbar::models::{
    self, AllMetrics, Metrics, ModelMetrics, SystemMetrics, MAX_CAPACITY, UNITS_PER_WHOLE,
};
use llama_swap_swiftbar::state_model::{
    derive_agent_state, AgentState, DisplayState, ModelState, NotReadyReason, PollingMode,
};
use llama_swap_swiftbar::types::{CapacityError, ModeReason, PluginState, ProbeError, ServiceStatus};
use llama_swap_swiftbar::models::QueueStatus;

fn status(installed: bool, loaded: bool, running: bool, api: bool) -> ServiceStatus {
    ServiceStatus { plist_installed: installed, launchctl_loaded: loaded, process_running: running, api_responsive: api }
}

fn idle_system() -> SystemMetrics {
    SystemMetrics { cpu_usage_percent: 0, used_memory_gb: 0, memory_usage_percent: 0 }
}

fn probe(models: Vec<(&str, models::ModelState, u32)>) -> AllMetrics {
    AllMetrics {
        models: models
            .into_iter()
            .map(|(name, state, processing)| ModelMetrics {
                model_name: name.to_string(),
                model_state: state,
                metrics: Metrics { requests_processing: processing, ..Metrics::default() },
            })
            .collect(),
        total_llama_memory_mb: 0,
        system_metrics: idle_system(),
    }
}

#[test]
fn derivation_covers_every_signal_combination() {
    for bits in 0u8..8 {
        let installed = bits & 1 != 0;
        let loaded = bits & 2 != 0;
        let running = bits & 4 != 0;
        let s = status(installed, loaded, running, false);
        let state = derive_agent_state(&s, false, false);
        let expected = if running {
            AgentState::Running
        } else if loaded {
            AgentState::Stopped
        } else if !installed {
            AgentState::NotReady { reason: NotReadyReason::BinaryNotFound }
        } else {
            AgentState::NotReady { reason: NotReadyReason::PlistMissing }
        };
        assert_eq!(state, expected);
    }
}

#[test]
fn loaded_but_not_running_is_stopped() {
    let s = status(true, true, false, false);
    let agent = derive_agent_state(&s, false, false);
    assert_eq!(agent, AgentState::Stopped);
    assert_eq!(DisplayState::derive(agent, false, false, false), DisplayState::ServiceStopped);
    assert_eq!(s.status_description(), "Loaded but not running");
}

#[test]
fn stopped_to_running_passes_through_starting() {
    let up = status(true, true, true, true);
    assert!(up.is_fully_running());
    let first = AgentState::next(AgentState::Stopped, &up, true);
    assert_eq!(first, AgentState::Starting);
    let early = AgentState::next(first, &up, false);
    assert_eq!(early, AgentState::Starting);
    let later = AgentState::next(early, &up, true);
    assert_eq!(later, AgentState::Running);
    let lost = AgentState::next(AgentState::Starting, &status(true, true, false, false), true);
    assert_eq!(lost, AgentState::Stopped);
}

#[test]
fn loading_beats_activity() {
    assert_eq!(DisplayState::derive(AgentState::Running, true, true, true), DisplayState::ModelLoading);
    assert_eq!(DisplayState::derive(AgentState::Running, true, false, true), DisplayState::ModelProcessingQueue);
    assert_eq!(DisplayState::derive(AgentState::Running, true, false, false), DisplayState::ModelReady);
    assert_eq!(DisplayState::derive(AgentState::Running, false, false, true), DisplayState::ServiceLoadedNoModel);
    assert_eq!(DisplayState::derive(AgentState::Starting, true, true, true), DisplayState::AgentStarting);
    assert_eq!(
        DisplayState::derive(AgentState::NotReady { reason: NotReadyReason::PlistMissing }, true, true, true),
        DisplayState::AgentNotLoaded
    );
}

#[test]
fn monitor_shows_loading_model_over_activity() {
    let mut state = PluginState::new(status(true, true, true, true), 0);
    assert_eq!(state.agent_state, AgentState::Running);
    state.update_state(
        &idle_system(),
        0,
        Ok(probe(vec![("m1", models::ModelState::Loading, 1)])),
        true,
        true,
        true,
        1_000,
    );
    assert!(state.has_queue_activity());
    assert!(state.has_loading_models());
    assert_eq!(state.get_display_state(), DisplayState::ModelLoading);
    assert_eq!(state.display_state().status_message(), "Loading model...");
}

#[test]
fn monitor_iteration_cycle() {
    let mut state = PluginState::new(status(true, true, false, false), 0);
    assert_eq!(state.agent_state, AgentState::Stopped);
    assert_eq!(state.get_display_state(), DisplayState::ServiceStopped);

    // The process appears: the agent starts, and polling enters its transition mode.
    state.update_state(&idle_system(), 0, Ok(probe(vec![("m", models::ModelState::Running, 0)])), true, true, true, 10_000);
    assert_eq!(state.agent_state, AgentState::Starting);
    assert_eq!(state.polling_mode, PollingMode::Starting);
    assert_eq!(state.next_interval(), 2);
    assert_eq!(state.get_display_state(), DisplayState::AgentStarting);

    // Still within the dwell time.
    state.update_state(&idle_system(), 0, Ok(probe(vec![("m", models::ModelState::Running, 0)])), true, true, true, 12_000);
    assert_eq!(state.agent_state, AgentState::Starting);

    // The dwell time has passed with the process alive.
    state.update_state(&idle_system(), 0, Ok(probe(vec![("m", models::ModelState::Running, 2)])), true, true, true, 15_000);
    assert_eq!(state.agent_state, AgentState::Running);
    assert_eq!(state.get_display_state(), DisplayState::ModelProcessingQueue);

    // Five quiet seconds later polling settles on activity.
    state.update_state(&idle_system(), 0, Ok(probe(vec![("m", models::ModelState::Running, 2)])), true, true, true, 20_000);
    assert_eq!(state.polling_mode, PollingMode::Active);
    assert_eq!(state.next_interval(), 1);
    state.update_state(&idle_system(), 0, Ok(probe(vec![("m", models::ModelState::Running, 0)])), true, true, true, 21_000);
    assert_eq!(state.polling_mode, PollingMode::Idle);
    assert_eq!(state.get_display_state(), DisplayState::ModelReady);
    assert_eq!(state.error_count(), 0);

    // A failed probe is counted and forgets the models, keeping history.
    state.update_state(&idle_system(), 0, Err(ProbeError), true, true, true, 22_000);
    assert_eq!(state.error_count(), 1);
    assert!(state.current_all_metrics.is_none());
    assert_eq!(state.get_display_state(), DisplayState::ServiceLoadedNoModel);
    assert_eq!(state.metrics_history.models.len(), 1);
    assert!(!state.service_status.api_responsive);
    state.update_state(&idle_system(), 0, Err(ProbeError), true, true, false, 23_000);
    assert_eq!(state.error_count(), 2);
    assert_eq!(state.agent_state, AgentState::Stopped);
}

#[test]
fn model_states_follow_latest_probe() {
    let mut state = PluginState::new(status(true, true, true, true), 0);
    state.update_model_states(&probe(vec![
        ("a", models::ModelState::Running, 0),
        ("b", models::ModelState::Unknown, 0),
        ("a", models::ModelState::Loading, 0),
    ]));
    assert_eq!(state.model_states.len(), 2);
    let a = state.model_states.iter().find(|e| e.name == "a").unwrap();
    assert_eq!(a.state, ModelState::Loading);
    state.update_model_states(&probe(vec![("b", models::ModelState::Running, 0)]));
    assert_eq!(state.model_states.len(), 1);
    assert_eq!(state.model_states[0].state, ModelState::Running);
    assert!(!state.has_loading_models());
}

#[test]
fn polling_mode_holds_starting_for_dwell() {
    assert_eq!(PollingMode::compute(PollingMode::Idle, true, false, 0), PollingMode::Starting);
    assert_eq!(PollingMode::compute(PollingMode::Starting, false, true, 4_999), PollingMode::Starting);
    assert_eq!(PollingMode::compute(PollingMode::Starting, false, true, 5_000), PollingMode::Active);
    assert_eq!(PollingMode::compute(PollingMode::Active, false, false, 100), PollingMode::Idle);
    assert_eq!(PollingMode::Idle.interval(), 3);
    assert_eq!(PollingMode::Starting.description(), "Starting");
}

#[test]
fn status_descriptions() {
    assert_eq!(status(true, true, true, true).status_description(), "Running");
    assert_eq!(status(true, true, true, false).status_description(), "Process running but API unresponsive");
    assert_eq!(status(true, false, false, false).status_description(), "Stopped");
    assert_eq!(status(false, true, true, true).status_description(), "Not installed");
    assert_eq!(status(true, false, true, false).status_description(), "Unknown state");
    assert_eq!(ServiceStatus::default(), ServiceStatus::new());
    let mut s = ServiceStatus::new();
    s.update(true, true, false, true);
    assert_eq!(s, status(true, true, false, true));
}

#[test]
fn system_check_table() {
    assert_eq!(AgentState::from_system_check(false, false, true), AgentState::Running);
    assert_eq!(AgentState::from_system_check(true, true, false), AgentState::Stopped);
    assert_eq!(
        AgentState::from_system_check(true, false, false),
        AgentState::NotReady { reason: NotReadyReason::BinaryNotFound }
    );
    assert_eq!(
        AgentState::from_system_check(false, true, false),
        AgentState::NotReady { reason: NotReadyReason::PlistMissing }
    );
}

#[test]
fn display_colours() {
    assert_eq!(DisplayState::ModelProcessingQueue.icon_color(), "blue");
    assert_eq!(DisplayState::ServiceStopped.icon_color(), "red");
    assert_eq!(DisplayState::ServiceLoadedNoModel.status_message(), "No models loaded");
    let _ = UNITS_PER_WHOLE;
}

#[test]
fn mode_reason_and_queue_status() {
    let mut state = PluginState::new(status(true, true, true, true), 0);
    assert_eq!(state.get_mode_reason(), ModeReason::NoActivity);
    let mut all = probe(vec![("a", models::ModelState::Running, 2), ("b", models::ModelState::Running, 3)]);
    all.models[1].metrics.requests_deferred = 4;
    state.update_state(&idle_system(), 0, Ok(all), true, true, true, 1_000);
    assert_eq!(state.get_mode_reason(), ModeReason::Processing(5));
    let waiting = probe(vec![("a", models::ModelState::Running, 0)]);
    let mut waiting = waiting;
    waiting.models[0].metrics.requests_deferred = 3;
    state.update_state(&idle_system(), 0, Ok(waiting), true, true, true, 2_000);
    assert_eq!(state.get_mode_reason(), ModeReason::Queued(3));

    let m = |p: u32, d: u32| Metrics { requests_processing: p, requests_deferred: d, ..Metrics::default() };
    assert_eq!(m(0, 0).queue_status(), QueueStatus::Idle);
    assert_eq!(m(2, 0).queue_status(), QueueStatus::Active(2));
    assert_eq!(m(0, 5).queue_status(), QueueStatus::Queued(5));
    assert_eq!(m(1, 1).queue_status(), QueueStatus::ActiveAndQueued(1, 1));
}

#[test]
fn capacity_is_checked_at_construction() {
    let ok = PluginState::with_capacity(status(true, false, false, false), 7, MAX_CAPACITY).unwrap();
    assert_eq!(ok.metrics_history.max_size, MAX_CAPACITY);
    assert_eq!(ok.agent_state, AgentState::NotReady { reason: NotReadyReason::PlistMissing });
    let err = PluginState::with_capacity(status(true, false, false, false), 7, MAX_CAPACITY + 1).unwrap_err();
    assert_eq!(err, CapacityError { requested: MAX_CAPACITY + 1 });
}

#[test]
fn starting_agent_that_loses_everything_falls_back_to_stopped() {
    let gone = status(true, false, false, false);
    assert_eq!(AgentState::next(AgentState::Starting, &gone, false), AgentState::Stopped);
    assert_eq!(AgentState::next(AgentState::Starting, &status(false, false, false, false), true), AgentState::Stopped);
    let mut state = PluginState::new(status(true, true, false, false), 0);
    state.update_state(&idle_system(), 0, Err(ProbeError), true, true, true, 10_000);
    assert_eq!(state.agent_state, AgentState::Starting);
    state.update_state(&idle_system(), 0, Err(ProbeError), false, false, false, 11_000);
    assert_eq!(state.agent_state, AgentState::Stopped);
    // With nothing starting, the signals alone decide.
    state.update_state(&idle_system(), 0, Err(ProbeError), false, false, false, 12_000);
    assert_eq!(state.agent_state, AgentState::NotReady { reason: NotReadyReason::BinaryNotFound });
}

#[test]
fn failed_probes_still_age_out_history() {
    let mut state = PluginState::new(status(true, true, true, true), 0);
    state.update_state(&idle_system(), 0, Ok(probe(vec![("m", models::ModelState::Running, 0)])), true, true, true, 1_000_000);
    assert_eq!(state.metrics_history.models.len(), 1);
    assert_eq!(state.metrics_history.cpu_usage_percent.len(), 1);
    // Ten minutes later, with the probe failing, the old samples have left their windows.
    state.update_state(&idle_system(), 0, Err(ProbeError), true, true, true, 1_600_000);
    assert_eq!(state.metrics_history.models.len(), 0);
    assert_eq!(state.metrics_history.cpu_usage_percent.len(), 1);
    assert_eq!(state.metrics_history.cpu_usage_percent.iter().next().unwrap().timestamp, 1_600);
}
