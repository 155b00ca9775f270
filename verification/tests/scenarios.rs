use sidecar_supervisor::coordinator::{
    on_kill_returned, on_registry_locked, on_window_event, Action, WindowEvent,
};
use sidecar_supervisor::error::{KillError, SpawnError};
use sidecar_supervisor::lifecycle::ShutdownState;
use sidecar_supervisor::registry::Registry;
use sidecar_supervisor::spawner::{register, Deployment, SpawnOutcome};

fn kill_error(message: &str) -> KillError {
    KillError { message: String::from(message) }
}

fn spawn_error(message: &str) -> SpawnError {
    SpawnError { message: String::from(message) }
}

/// Stands in for the application. It performs actions in the order given,
/// hands the registry and the outcome of the kill back to the coordinator as
/// the actions ask, and writes down what it did.
struct Application {
    registry: Registry<u32>,
    kill_outcome: Result<(), KillError>,
    journal: Vec<String>,
    state: Option<ShutdownState>,
}

impl Application {
    /// Runs the setup: spawns only where the deployment says so, and hands
    /// the outcome to the library.
    fn set_up(
        deployment: Deployment,
        spawn: Result<u32, SpawnError>,
        kill_outcome: Result<(), KillError>,
    ) -> Application {
        let mut journal = Vec::new();
        let outcome = if deployment.spawns_worker() {
            journal.push(String::from("spawn"));
            match spawn {
                Ok(handle) => SpawnOutcome::Spawned(handle),
                Err(error) => SpawnOutcome::Failed(error),
            }
        } else {
            SpawnOutcome::Skipped
        };
        let (registry, failure) = register(outcome);
        if let Some(error) = failure {
            journal.push(format!("report {}", error.message));
        }
        Application { registry, kill_outcome, journal, state: Some(ShutdownState::Running) }
    }

    fn deliver(&mut self, event: WindowEvent) {
        let actions = on_window_event(event);
        self.perform(actions);
    }

    fn perform(&mut self, actions: Vec<Action<u32>>) {
        for action in actions {
            self.state = self.state.and_then(|state| state.after(&action));
            match action {
                Action::PreventClose => self.journal.push(String::from("prevent-close")),
                Action::LockRegistry => {
                    let next = on_registry_locked(&mut self.registry);
                    self.perform(next);
                }
                Action::Kill(handle) => {
                    self.journal.push(format!("kill {}", handle));
                    let next = on_kill_returned(self.kill_outcome.clone());
                    self.perform(next);
                }
                Action::Report(error) => self.journal.push(format!("report {}", error.message)),
                Action::Exit(code) => self.journal.push(format!("exit {}", code)),
            }
        }
    }
}

#[test]
fn worker_is_killed_before_the_application_exits() {
    let mut app = Application::set_up(Deployment::Production, Ok(1234), Ok(()));
    assert_eq!(app.registry.peek(), Some(&1234));

    app.deliver(WindowEvent::CloseRequested);

    assert_eq!(app.journal, vec!["spawn", "prevent-close", "kill 1234", "exit 0"]);
    assert_eq!(app.state, Some(ShutdownState::Exited));
    assert_eq!(app.registry.take(), None);
}

#[test]
fn development_mode_exits_without_a_kill() {
    let mut app = Application::set_up(Deployment::Development, Ok(1234), Ok(()));
    assert_eq!(app.registry.peek(), None);

    app.deliver(WindowEvent::CloseRequested);

    assert_eq!(app.journal, vec!["prevent-close", "exit 0"]);
    assert_eq!(app.state, Some(ShutdownState::Exited));
}

#[test]
fn failed_kill_is_logged_and_the_application_still_exits() {
    let mut app =
        Application::set_up(Deployment::Production, Ok(88), Err(kill_error("already exited")));

    app.deliver(WindowEvent::CloseRequested);

    assert_eq!(
        app.journal,
        vec!["spawn", "prevent-close", "kill 88", "report already exited", "exit 0"]
    );
    assert_eq!(app.state, Some(ShutdownState::Exited));
}

#[test]
fn failed_spawn_opens_the_window_without_a_worker() {
    let mut app =
        Application::set_up(Deployment::Production, Err(spawn_error("permission denied")), Ok(()));
    assert!(!app.registry.is_holding());

    app.deliver(WindowEvent::Other);
    app.deliver(WindowEvent::CloseRequested);

    assert_eq!(app.journal, vec!["spawn", "report permission denied", "prevent-close", "exit 0"]);
}

#[test]
fn duplicate_close_requests_neither_crash_nor_kill_twice() {
    let mut app = Application::set_up(Deployment::Production, Ok(5), Ok(()));

    for _ in 0..3 {
        app.deliver(WindowEvent::CloseRequested);
    }

    assert_eq!(
        app.journal,
        vec![
            "spawn",
            "prevent-close",
            "kill 5",
            "exit 0",
            "prevent-close",
            "exit 0",
            "prevent-close",
            "exit 0",
        ]
    );
    assert_eq!(app.journal.iter().filter(|entry| entry.starts_with("kill")).count(), 1);
    assert_eq!(app.state, Some(ShutdownState::Exited));
}

#[test]
fn one_close_request_kills_once() {
    let mut app = Application::set_up(Deployment::Production, Ok(6), Ok(()));
    app.deliver(WindowEvent::CloseRequested);
    assert_eq!(app.journal.iter().filter(|entry| entry.starts_with("kill")).count(), 1);
}

#[test]
fn close_request_without_install_exits_without_error() {
    let mut app = Application {
        registry: Registry::new(),
        kill_outcome: Err(kill_error("never asked for")),
        journal: Vec::new(),
        state: Some(ShutdownState::Running),
    };

    app.deliver(WindowEvent::CloseRequested);

    assert_eq!(app.journal, vec!["prevent-close", "exit 0"]);
    assert_eq!(app.state, Some(ShutdownState::Exited));
    assert!(!app.registry.is_holding());
}

#[test]
fn other_events_leave_the_application_running() {
    let mut app = Application::set_up(Deployment::Production, Ok(30), Ok(()));

    for _ in 0..4 {
        app.deliver(WindowEvent::Other);
    }

    assert_eq!(app.journal, vec!["spawn"]);
    assert_eq!(app.state, Some(ShutdownState::Running));
    assert_eq!(app.registry.peek(), Some(&30));
}

#[test]
fn exit_never_comes_before_the_kill() {
    for outcome in [Ok(()), Err(kill_error("refused"))] {
        let mut app = Application::set_up(Deployment::Production, Ok(21), outcome);
        app.deliver(WindowEvent::CloseRequested);

        let journal = &app.journal;
        let suppress = journal.iter().position(|entry| entry == "prevent-close").unwrap();
        let kill = journal.iter().position(|entry| entry == "kill 21").unwrap();
        let exit = journal.iter().position(|entry| entry == "exit 0").unwrap();
        assert!(suppress < kill);
        assert!(kill < exit);
        assert_eq!(exit, journal.len() - 1);
    }
}

#[test]
fn close_is_prevented_before_the_registry_is_touched() {
    let mut registry = Registry::new();
    registry.install(11u32).unwrap();

    let actions = on_window_event::<u32>(WindowEvent::CloseRequested);
    assert_eq!(actions[0], Action::PreventClose);
    assert_eq!(registry.peek(), Some(&11));

    assert_eq!(actions[1], Action::LockRegistry);
    assert_eq!(on_registry_locked(&mut registry), vec![Action::Kill(11)]);
    assert_eq!(registry.peek(), None);
}

#[test]
fn close_requests_between_other_events_kill_once() {
    let mut app = Application::set_up(Deployment::Production, Ok(9), Err(kill_error("refused")));
    let events = [
        WindowEvent::Other,
        WindowEvent::CloseRequested,
        WindowEvent::Other,
        WindowEvent::CloseRequested,
        WindowEvent::CloseRequested,
    ];
    for event in events {
        app.deliver(event);
    }
    assert_eq!(
        app.journal,
        vec![
            "spawn",
            "prevent-close",
            "kill 9",
            "report refused",
            "exit 0",
            "prevent-close",
            "exit 0",
            "prevent-close",
            "exit 0",
        ]
    );
    assert_eq!(app.state, Some(ShutdownState::Exited));
}
