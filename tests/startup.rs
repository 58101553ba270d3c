use soulsense::plugin::{Plugin, PluginSet, SetupError};
use soulsense::startup::{
    startup_steps, Action, ExitStatus, LogLevel, Outcome, Startup, StartupConfig, Step,
    DEEP_LINK_SCHEME, LOG_LEVEL, SIDECAR_NAME,
};

fn all_configs() -> Vec<StartupConfig> {
    let mut v = Vec::new();
    for debug in [false, true] {
        for crash_reporting in [false, true] {
            for auto_update in [false, true] {
                v.push(StartupConfig { debug, crash_reporting, auto_update });
            }
        }
    }
    v
}

/// Answers every requested step with `Done` until the start-up ends,
/// returning the actions that were asked for.
fn run_clean(s: &mut Startup) -> Vec<Action> {
    let mut actions = vec![s.current_action()];
    while let Action::Perform(_) = s.current_action() {
        actions.push(s.on_outcome(Outcome::Done));
    }
    actions
}

/// Answers `Done` until `step` is asked for.
fn run_until(s: &mut Startup, step: Step) {
    while s.current_action() != Action::Perform(step) {
        match s.current_action() {
            Action::Perform(_) => {
                s.on_outcome(Outcome::Done);
            }
            Action::Exit(e) => panic!("ended early: {:?}", e),
        }
    }
}

#[test]
fn standard_debug_plan() {
    assert_eq!(
        startup_steps(StartupConfig::standard(true)),
        vec![
            Step::InitCrashReporting,
            Step::Register(Plugin::Shell),
            Step::Register(Plugin::Updater),
            Step::Register(Plugin::DeepLink),
            Step::StartHost,
            Step::Register(Plugin::Logging),
            Step::Register(Plugin::DeepLinkHandler),
            Step::SpawnSidecar,
            Step::EnterRunLoop,
        ]
    );
}

#[test]
fn minimal_release_plan() {
    assert_eq!(
        startup_steps(StartupConfig::minimal(false)),
        vec![
            Step::Register(Plugin::Shell),
            Step::Register(Plugin::DeepLink),
            Step::StartHost,
            Step::Register(Plugin::DeepLinkHandler),
            Step::SpawnSidecar,
            Step::EnterRunLoop,
        ]
    );
}

#[test]
fn config_constructors() {
    let s = StartupConfig::standard(false);
    assert!(!s.debug && s.crash_reporting && s.auto_update);
    let m = StartupConfig::minimal(true);
    assert!(m.debug && !m.crash_reporting && !m.auto_update);
}

#[test]
fn fixed_names_and_level() {
    assert_eq!(SIDECAR_NAME, "soul-sense-backend");
    assert_eq!(DEEP_LINK_SCHEME, "soulsense");
    assert_eq!(LOG_LEVEL, LogLevel::Info);
}

#[test]
fn new_startup_asks_for_first_step() {
    let s = Startup::new(StartupConfig::standard(true));
    assert_eq!(s.current_action(), Action::Perform(Step::InitCrashReporting));
    assert_eq!(s.spawn_attempts(), 0);
    assert_eq!(s.exit_status(), None);
    assert_eq!(s.config(), StartupConfig::standard(true));
    let m = Startup::new(StartupConfig::minimal(false));
    assert_eq!(m.current_action(), Action::Perform(Step::Register(Plugin::Shell)));
}

#[test]
fn clean_start_ends_normally_in_every_configuration() {
    for c in all_configs() {
        let mut s = Startup::new(c);
        let actions = run_clean(&mut s);
        assert_eq!(*actions.last().unwrap(), Action::Exit(ExitStatus::Normal));
        assert_eq!(s.exit_status(), Some(ExitStatus::Normal));
        assert_eq!(ExitStatus::Normal.exit_code(), 0);
        assert_eq!(s.spawn_attempts(), 1);
        let spawns = actions.iter().filter(|a| **a == Action::Perform(Step::SpawnSidecar)).count();
        assert_eq!(spawns, 1);
        let run_loop = actions.iter().position(|a| *a == Action::Perform(Step::EnterRunLoop));
        let spawn = actions.iter().position(|a| *a == Action::Perform(Step::SpawnSidecar));
        assert!(spawn.unwrap() < run_loop.unwrap());
    }
}

#[test]
fn logging_registered_before_deep_link_and_sidecar_in_debug() {
    for c in all_configs().into_iter().filter(|c| c.debug) {
        let mut s = Startup::new(c);
        let actions = run_clean(&mut s);
        let log = actions
            .iter()
            .position(|a| *a == Action::Perform(Step::Register(Plugin::Logging)))
            .unwrap();
        let handler = actions
            .iter()
            .position(|a| *a == Action::Perform(Step::Register(Plugin::DeepLinkHandler)))
            .unwrap();
        let spawn = actions.iter().position(|a| *a == Action::Perform(Step::SpawnSidecar)).unwrap();
        assert!(log < handler && handler < spawn);
        assert!(s.is_registered(Plugin::Logging));
    }
}

#[test]
fn logging_never_registered_in_release() {
    for c in all_configs().into_iter().filter(|c| !c.debug) {
        let mut s = Startup::new(c);
        let actions = run_clean(&mut s);
        assert!(!actions.contains(&Action::Perform(Step::Register(Plugin::Logging))));
        assert!(!s.is_registered(Plugin::Logging));
        assert!(s.is_registered(Plugin::DeepLinkHandler));
    }
}

#[test]
fn missing_sidecar_stops_before_run_loop() {
    for c in all_configs() {
        let mut s = Startup::new(c);
        run_until(&mut s, Step::SpawnSidecar);
        assert_eq!(s.spawn_attempts(), 1);
        let a = s.on_outcome(Outcome::Missing);
        assert_eq!(a, Action::Exit(ExitStatus::SidecarMissing));
        assert_ne!(ExitStatus::SidecarMissing.exit_code(), 0);
        assert_eq!(s.on_outcome(Outcome::Done), Action::Exit(ExitStatus::SidecarMissing));
        assert_eq!(s.exit_status(), Some(ExitStatus::SidecarMissing));
        assert_eq!(s.spawn_attempts(), 1);
    }
}

#[test]
fn sidecar_spawn_failure_is_fatal() {
    let mut s = Startup::new(StartupConfig::standard(false));
    run_until(&mut s, Step::SpawnSidecar);
    assert_eq!(s.on_outcome(Outcome::Failed), Action::Exit(ExitStatus::SidecarSpawnFailed));
    assert_eq!(ExitStatus::SidecarSpawnFailed.exit_code(), 1);
}

#[test]
fn crash_reporting_failure_is_not_fatal() {
    let mut s = Startup::new(StartupConfig::standard(false));
    let a = s.on_outcome(Outcome::Failed);
    assert_eq!(a, Action::Perform(Step::Register(Plugin::Shell)));
    assert_eq!(s.exit_status(), None);
}

#[test]
fn plugin_failure_aborts_setup() {
    let mut s = Startup::new(StartupConfig::standard(true));
    run_until(&mut s, Step::Register(Plugin::DeepLinkHandler));
    let a = s.on_outcome(Outcome::Failed);
    let status = ExitStatus::SetupFailed(SetupError::PluginFailed(Plugin::DeepLinkHandler));
    assert_eq!(a, Action::Exit(status));
    assert_eq!(s.spawn_attempts(), 0);
    assert_eq!(status.exit_code(), 1);
}

#[test]
fn host_failure_is_fatal() {
    let mut s = Startup::new(StartupConfig::minimal(false));
    run_until(&mut s, Step::StartHost);
    assert_eq!(s.on_outcome(Outcome::Failed), Action::Exit(ExitStatus::HostFailed));
    assert_eq!(s.spawn_attempts(), 0);
}

#[test]
fn run_loop_failure_is_fatal() {
    let mut s = Startup::new(StartupConfig::minimal(false));
    run_until(&mut s, Step::EnterRunLoop);
    assert_eq!(s.on_outcome(Outcome::Failed), Action::Exit(ExitStatus::HostFailed));
    assert_eq!(ExitStatus::HostFailed.exit_code(), 1);
}

#[test]
fn deep_link_delivered_while_sidecar_pending() {
    for c in all_configs() {
        let mut s = Startup::new(c);
        run_until(&mut s, Step::SpawnSidecar);
        let r = s.deep_link("soulsense://auth/callback?code=abc".to_string());
        assert_eq!(r, Some("soulsense://auth/callback?code=abc".to_string()));
    }
}

#[test]
fn deep_link_dropped_before_handler_and_after_exit() {
    let mut s = Startup::new(StartupConfig::standard(true));
    run_until(&mut s, Step::Register(Plugin::DeepLinkHandler));
    assert_eq!(s.deep_link("soulsense://x".to_string()), None);
    s.on_outcome(Outcome::Done);
    assert_eq!(s.deep_link("soulsense://x".to_string()), Some("soulsense://x".to_string()));
    run_clean(&mut s);
    assert_eq!(s.deep_link("soulsense://x".to_string()), None);
}

#[test]
fn second_registration_is_refused() {
    let mut set = PluginSet::new();
    assert_eq!(set.len(), 0);
    assert_eq!(set.register(Plugin::Shell), Ok(()));
    assert_eq!(set.register(Plugin::Updater), Ok(()));
    assert_eq!(set.register(Plugin::Shell), Err(SetupError::DuplicatePlugin(Plugin::Shell)));
    assert_eq!(set.len(), 2);
    assert!(set.contains(Plugin::Shell));
    assert!(set.contains(Plugin::Updater));
    assert!(!set.contains(Plugin::Logging));
}
