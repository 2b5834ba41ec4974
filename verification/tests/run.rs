use dgs::game::Catalog;
use dgs::game::GameName;
use dgs::runtime::PortType;
use dgs::server::pull::report;
use dgs::server::pull::pull_announcement;
use dgs::server::pull::PullError;
use dgs::server::pull::PullProgress;
use dgs::server::pull::PullRequest;
use dgs::server::tmp::allocate;
use dgs::server::tmp::allocation;
use dgs::server::tmp::port_announcement;
use dgs::server::tmp::step;
use dgs::server::tmp::Action;
use dgs::server::tmp::CreateRequest;
use dgs::server::tmp::Event;
use dgs::server::tmp::GameOptions;
use dgs::server::tmp::LifecycleStep;
use dgs::server::tmp::PortBinding;
use dgs::server::tmp::RunError;
use dgs::server::tmp::RunState;
use dgs::server::tmp::Tmp;

fn request() -> CreateRequest {
    CreateRequest {
        name: "dgs-tmp_minecraft_now".to_string(),
        image: "docker.io/itzg/minecraft-server".to_string(),
        env: vec!["EULA=TRUE".to_string()],
        port_bindings: vec![PortBinding { key: "25565/tcp".to_string(), host_port: 40001 }],
        labels: vec![("dgs".to_string(), "dgs".to_string())],
    }
}

fn version(text: &str) -> GameOptions {
    GameOptions { version: Some(text.to_string()) }
}

/// What a runtime answers to each request: the container `c1`, and the
/// failures that the test has asked for.
struct Runtime {
    fail_pull: bool,
    fail_create: bool,
    fail_start: bool,
    fail_stop: bool,
    fail_remove: bool,
    calls: Vec<String>,
}

impl Runtime {
    fn new() -> Runtime {
        Runtime {
            fail_pull: false,
            fail_create: false,
            fail_start: false,
            fail_stop: false,
            fail_remove: false,
            calls: Vec::new(),
        }
    }

    fn answer(fails: bool, what: &str) -> Result<(), String> {
        if fails {
            Err(format!("{} failed", what))
        } else {
            Ok(())
        }
    }

    fn perform(&mut self, action: &Action) -> Option<Event> {
        match action {
            Action::Pull(request) => {
                self.calls.push(format!("pull {}:{}", request.image, request.tag));
                let outcome = Runtime::answer(self.fail_pull, "pull");
                Some(Event::PullFinished(outcome.map_err(PullError::StreamError)))
            }
            Action::Prepare => {
                self.calls.push("prepare".to_string());
                Some(Event::Prepared(Ok(request())))
            }
            Action::Create(_) => {
                self.calls.push("create".to_string());
                let outcome = Runtime::answer(self.fail_create, "create");
                Some(Event::CreateFinished(outcome.map(|_| "c1".to_string())))
            }
            Action::Start(handle) => {
                self.calls.push(format!("start {}", handle));
                Some(Event::StartFinished(Runtime::answer(self.fail_start, "start")))
            }
            Action::Prompt => {
                self.calls.push("prompt".to_string());
                Some(Event::Prompted)
            }
            Action::AwaitInterrupt => {
                self.calls.push("wait".to_string());
                Some(Event::Interrupted)
            }
            Action::Stop(handle) => {
                self.calls.push(format!("stop {}", handle));
                Some(Event::StopFinished(Runtime::answer(self.fail_stop, "stop")))
            }
            Action::Remove(handle) => {
                self.calls.push(format!("remove {}", handle));
                Some(Event::RemoveFinished(Runtime::answer(self.fail_remove, "remove")))
            }
            Action::Finish | Action::Ignore => None,
        }
    }

    fn run(&mut self, pull: Option<PullRequest>) -> RunState {
        let (mut state, mut action) = step(RunState::Idle, Event::Begin(pull));
        while let Some(event) = self.perform(&action) {
            let (next_state, next_action) = step(state, event);
            state = next_state;
            action = next_action;
        }
        assert_eq!(action, Action::Finish);
        state
    }

    fn count(&self, call: &str) -> usize {
        self.calls.iter().filter(|c| c.as_str() == call).count()
    }
}

#[test]
fn run_goes_from_create_to_remove() {
    let mut runtime = Runtime::new();
    let end = runtime.run(None);
    assert_eq!(end, RunState::Removed);
    assert_eq!(
        runtime.calls,
        vec!["prepare", "create", "start c1", "prompt", "wait", "stop c1", "remove c1"]
    );
}

#[test]
fn run_pulls_first_where_a_pull_is_asked_for() {
    let mut runtime = Runtime::new();
    let pull = PullRequest {
        image: "docker.io/factoriotools/factorio".to_string(),
        repo: "docker.io".to_string(),
        tag: "1.1".to_string(),
    };
    let end = runtime.run(Some(pull));
    assert_eq!(end, RunState::Removed);
    assert_eq!(
        runtime.calls,
        vec![
            "pull docker.io/factoriotools/factorio:1.1",
            "prepare",
            "create",
            "start c1",
            "prompt",
            "wait",
            "stop c1",
            "remove c1"
        ]
    );
}

#[test]
fn remove_is_called_once_after_a_stop_that_failed() {
    let mut runtime = Runtime::new();
    runtime.fail_stop = true;
    let end = runtime.run(None);
    let error = RunError::Step {
        step: LifecycleStep::Stop,
        handle: Some("c1".to_string()),
        message: "stop failed".to_string(),
    };
    assert_eq!(end, RunState::Failed { error: error.clone() });
    assert_eq!(error.message(), "stop failed (container `c1`)");
    assert_eq!(runtime.count("remove c1"), 1);
    assert_eq!(runtime.count("stop c1"), 1);
    let stop = runtime.calls.iter().position(|c| c == "stop c1").unwrap();
    let remove = runtime.calls.iter().position(|c| c == "remove c1").unwrap();
    assert!(stop < remove);
}

#[test]
fn stop_comes_before_remove_in_every_run() {
    for fail_stop in [false, true] {
        for fail_remove in [false, true] {
            let mut runtime = Runtime::new();
            runtime.fail_stop = fail_stop;
            runtime.fail_remove = fail_remove;
            runtime.run(None);
            assert_eq!(runtime.count("stop c1"), 1);
            assert_eq!(runtime.count("remove c1"), 1);
            let stop = runtime.calls.iter().position(|c| c == "stop c1").unwrap();
            let remove = runtime.calls.iter().position(|c| c == "remove c1").unwrap();
            assert!(stop < remove);
        }
    }
}

#[test]
fn remove_failure_reports_the_handle_and_the_last_error() {
    let mut runtime = Runtime::new();
    runtime.fail_stop = true;
    runtime.fail_remove = true;
    let end = runtime.run(None);
    let error = RunError::Step {
        step: LifecycleStep::Remove,
        handle: Some("c1".to_string()),
        message: "remove failed".to_string(),
    };
    assert_eq!(end, RunState::Failed { error: error.clone() });
    assert_eq!(error.message(), "remove failed (container `c1`)");
}

#[test]
fn pull_failure_ends_the_run_before_create() {
    let mut runtime = Runtime::new();
    runtime.fail_pull = true;
    let pull = PullRequest {
        image: "i".to_string(),
        repo: "docker.io".to_string(),
        tag: "t".to_string(),
    };
    let end = runtime.run(Some(pull));
    let error = RunError::Pull(PullError::StreamError("pull failed".to_string()));
    assert_eq!(end, RunState::Failed { error: error.clone() });
    assert_eq!(runtime.calls, vec!["pull i:t"]);
    assert_eq!(error.message(), "pull failed");
}

#[test]
fn create_failure_ends_the_run() {
    let mut runtime = Runtime::new();
    runtime.fail_create = true;
    let end = runtime.run(None);
    let error = RunError::Step {
        step: LifecycleStep::Create,
        handle: None,
        message: "create failed".to_string(),
    };
    assert_eq!(end, RunState::Failed { error: error.clone() });
    assert_eq!(runtime.calls, vec!["prepare", "create"]);
    assert_eq!(error.message(), "create failed");
}

#[test]
fn start_failure_leaves_the_container_behind() {
    let mut runtime = Runtime::new();
    runtime.fail_start = true;
    let end = runtime.run(None);
    let error = RunError::Step {
        step: LifecycleStep::Start,
        handle: Some("c1".to_string()),
        message: "start failed".to_string(),
    };
    assert_eq!(end, RunState::Failed { error: error.clone() });
    assert_eq!(runtime.calls, vec!["prepare", "create", "start c1"]);
    assert_eq!(error.message(), "start failed (container `c1`)");
}

#[test]
fn failure_to_prepare_ends_the_run() {
    for error in [RunError::PortAllocation, RunError::UnsupportedPorts] {
        let (state, action) = step(RunState::Preparing, Event::Prepared(Err(error.clone())));
        assert_eq!(state, RunState::Failed { error });
        assert_eq!(action, Action::Finish);
    }
    assert_eq!(RunError::PortAllocation.message(), "Did not find any open port LUL.");
    assert_eq!(
        RunError::UnsupportedPorts.message(),
        "Games with a fixed set of ports cannot be run yet."
    );
}

#[test]
fn an_event_that_is_not_awaited_changes_nothing() {
    let handle = "c1".to_string();
    let states = vec![
        RunState::Idle,
        RunState::Pulling,
        RunState::Preparing,
        RunState::Creating,
        RunState::Created { handle: handle.clone() },
        RunState::Started { handle: handle.clone() },
        RunState::Stopping { handle: handle.clone() },
        RunState::Removing { handle: handle.clone(), stop_error: None },
    ];
    for state in states {
        let (after, action) = step(state.clone(), Event::Interrupted);
        assert_eq!(after, state);
        assert_eq!(action, Action::Ignore);
    }
    let (after, action) =
        step(RunState::AwaitingInterrupt { handle: handle.clone() }, Event::Prompted);
    assert_eq!(after, RunState::AwaitingInterrupt { handle });
    assert_eq!(action, Action::Ignore);
}

#[test]
fn a_run_that_has_ended_stays_as_it_is() {
    let ended = vec![
        RunState::Removed,
        RunState::Failed { error: RunError::PortAllocation },
    ];
    for state in ended {
        let events = vec![
            Event::Begin(None),
            Event::Interrupted,
            Event::StopFinished(Ok(())),
            Event::RemoveFinished(Err("x".to_string())),
        ];
        for event in events {
            let (after, action) = step(state.clone(), event);
            assert_eq!(after, state);
            assert_eq!(action, Action::Finish);
        }
    }
}

#[test]
fn temporary_server_without_a_version_allocates_one_port_and_never_pulls() {
    let catalog = Catalog::builtin();
    let game = catalog.get(GameName::Minecraft).unwrap();
    let tmp = Tmp { game, options: GameOptions { version: None } };
    assert_eq!(tmp.pull_request(), None);
    let (mut state, mut action) = tmp.begin();
    assert_eq!(state, RunState::Preparing);
    assert_eq!(action, Action::Prepare);
    let mut allocated: Vec<u16> = Vec::new();
    let mut created: Vec<CreateRequest> = Vec::new();
    loop {
        let event = match &action {
            Action::Pull(_) => panic!("a pull was attempted"),
            Action::Prepare => {
                let prepared = tmp.prepare_create();
                if let Ok(request) = &prepared {
                    allocated.extend(request.port_bindings.iter().map(|b| b.host_port));
                }
                Event::Prepared(prepared)
            }
            Action::Create(request) => {
                created.push(request.clone());
                Event::CreateFinished(Ok("c1".to_string()))
            }
            Action::Start(_) => Event::StartFinished(Ok(())),
            Action::Prompt => Event::Prompted,
            Action::AwaitInterrupt => Event::Interrupted,
            Action::Stop(_) => Event::StopFinished(Ok(())),
            Action::Remove(_) => Event::RemoveFinished(Ok(())),
            Action::Finish => break,
            Action::Ignore => unreachable!(),
        };
        let (next_state, next_action) = step(state, event);
        state = next_state;
        action = next_action;
    }
    assert_eq!(state, RunState::Removed);
    assert_eq!(allocated.len(), 1);
    assert_eq!(created.len(), 1);
    let request = &created[0];
    assert_eq!(
        request.port_bindings,
        vec![PortBinding { key: "25565/tcp".to_string(), host_port: allocated[0] }]
    );
    assert_eq!(request.image, "docker.io/itzg/minecraft-server");
    assert_eq!(request.env, vec!["EULA=TRUE".to_string()]);
    assert_eq!(request.labels, vec![("dgs".to_string(), "dgs".to_string())]);
    let stamp = request.name.strip_prefix("dgs-tmp_minecraft_").unwrap();
    assert_eq!(stamp.len(), "2021-04-01_12-30-45.123".len());
    assert_eq!(stamp.as_bytes()[4], b'-');
    assert_eq!(stamp.as_bytes()[10], b'_');
    assert_eq!(stamp.as_bytes()[19], b'.');
}

#[test]
fn create_request_is_put_together_from_the_game() {
    let catalog = Catalog::builtin();
    let tmp = Tmp { game: catalog.get(GameName::Minecraft).unwrap(), options: version("1.16.5") };
    assert_eq!(
        tmp.create_request(40001, "2021-04-01_12-30-45.123"),
        Ok(CreateRequest {
            name: "dgs-tmp_minecraft_2021-04-01_12-30-45.123".to_string(),
            image: "docker.io/itzg/minecraft-server".to_string(),
            env: vec!["EULA=TRUE".to_string(), "VERSION=1.16.5".to_string()],
            port_bindings: vec![PortBinding { key: "25565/tcp".to_string(), host_port: 40001 }],
            labels: vec![("dgs".to_string(), "dgs".to_string())],
        })
    );
    let tmp = Tmp { game: catalog.get(GameName::Factorio).unwrap(), options: version("1.1") };
    assert_eq!(
        tmp.create_request(0, ""),
        Ok(CreateRequest {
            name: "dgs-tmp_factorio_".to_string(),
            image: "docker.io/factoriotools/factorio".to_string(),
            env: vec![],
            port_bindings: vec![PortBinding { key: "34197/udp".to_string(), host_port: 0 }],
            labels: vec![("dgs".to_string(), "dgs".to_string())],
        })
    );
}

#[test]
fn create_request_fails_for_a_fixed_set_of_ports() {
    let catalog = Catalog::builtin();
    let tmp = Tmp {
        game: catalog.get(GameName::Valheim).unwrap(),
        options: GameOptions { version: None },
    };
    assert_eq!(tmp.create_request(40001, "now"), Err(RunError::UnsupportedPorts));
    assert_eq!(tmp.prepare_create(), Err(RunError::UnsupportedPorts));
    assert_eq!(tmp.pull_request(), None);
}

#[test]
fn pull_request_is_made_for_a_version_that_is_a_tag() {
    let catalog = Catalog::builtin();
    let factorio = catalog.get(GameName::Factorio).unwrap();
    let tmp = Tmp { game: factorio, options: version("stable") };
    let pull = PullRequest {
        image: "docker.io/factoriotools/factorio".to_string(),
        repo: "docker.io".to_string(),
        tag: "stable".to_string(),
    };
    assert_eq!(tmp.pull_request(), Some(pull.clone()));
    assert_eq!(tmp.begin(), (RunState::Pulling, Action::Pull(pull)));
    let tmp = Tmp { game: factorio, options: GameOptions { version: None } };
    assert_eq!(tmp.pull_request(), None);
    assert_eq!(tmp.begin(), (RunState::Preparing, Action::Prepare));
    let minecraft = catalog.get(GameName::Minecraft).unwrap();
    let tmp = Tmp { game: minecraft, options: version("1.16.5") };
    assert_eq!(tmp.pull_request(), None);
    assert_eq!(tmp.begin(), (RunState::Preparing, Action::Prepare));
}

#[test]
fn environment_carries_the_version_where_the_game_reads_it_there() {
    let catalog = Catalog::builtin();
    let minecraft = catalog.get(GameName::Minecraft).unwrap();
    let tmp = Tmp { game: minecraft, options: version("SNAPSHOT") };
    assert_eq!(tmp.environment(), vec!["EULA=TRUE".to_string(), "VERSION=SNAPSHOT".to_string()]);
    let tmp = Tmp { game: minecraft, options: GameOptions { version: None } };
    assert_eq!(tmp.environment(), vec!["EULA=TRUE".to_string()]);
    let factorio = catalog.get(GameName::Factorio).unwrap();
    let tmp = Tmp { game: factorio, options: version("1.1") };
    assert!(tmp.environment().is_empty());
}

#[test]
fn port_announcement_names_the_host_port() {
    assert_eq!(port_announcement(40001), "Running on Port: `40001`");
    assert_eq!(port_announcement(0), "Running on Port: `0`");
    assert_eq!(port_announcement(65535), "Running on Port: `65535`");
}

#[test]
fn port_type_is_written_as_on_the_wire() {
    let catalog = Catalog::builtin();
    let factorio = catalog.get(GameName::Factorio).unwrap();
    let tmp = Tmp { game: factorio, options: GameOptions { version: None } };
    let request = tmp.create_request(1, "t").unwrap();
    assert_eq!(request.port_bindings[0].key, "34197/udp");
    assert_ne!(PortType::Udp, PortType::Tcp);
}

fn progress(
    status: Option<&str>,
    current: Option<i64>,
    total: Option<i64>,
    error: Option<&str>,
) -> PullProgress {
    PullProgress {
        status: status.map(|s| s.to_string()),
        current,
        total,
        error: error.map(|s| s.to_string()),
    }
}

#[test]
fn pull_progress_line_shows_status_and_bytes() {
    assert_eq!(
        progress(Some("Downloading"), Some(10), Some(200), None).line(),
        Ok("Downloading: (10/200)".to_string())
    );
    assert_eq!(
        progress(Some("Pull complete"), None, None, None).line(),
        Ok("Pull complete".to_string())
    );
    assert_eq!(
        progress(Some("Waiting"), Some(10), None, None).line(),
        Ok("Waiting".to_string())
    );
    assert_eq!(
        progress(Some("Waiting"), None, Some(10), None).line(),
        Ok("Waiting".to_string())
    );
    assert_eq!(
        progress(None, Some(0), Some(-1), None).line(),
        Ok("Downloading image: (0/-1)".to_string())
    );
    assert_eq!(progress(None, None, None, None).line(), Ok("Downloading image".to_string()));
}

#[test]
fn pull_progress_with_an_error_fails() {
    assert_eq!(
        progress(Some("Downloading"), Some(1), Some(2), Some("manifest unknown")).line(),
        Err(PullError::StreamError("manifest unknown".to_string()))
    );
    assert_eq!(
        progress(None, None, None, Some("")).line(),
        Err(PullError::StreamError(String::new()))
    );
}

#[test]
fn pull_report_stops_at_the_first_error() {
    let reports = vec![
        progress(Some("Pulling from library"), None, None, None),
        progress(Some("Downloading"), Some(1), Some(2), None),
        progress(None, None, None, Some("connection lost")),
        progress(Some("Downloading"), Some(2), Some(2), None),
        progress(None, None, None, Some("second error")),
    ];
    let (lines, outcome) = report(&reports);
    assert_eq!(lines, vec!["Pulling from library".to_string(), "Downloading: (1/2)".to_string()]);
    assert_eq!(outcome, Err(PullError::StreamError("connection lost".to_string())));
}

#[test]
fn pull_report_succeeds_where_no_report_carries_an_error() {
    let reports = vec![
        progress(Some("Downloading"), Some(1), Some(2), None),
        progress(Some("Pull complete"), None, None, None),
    ];
    let (lines, outcome) = report(&reports);
    assert_eq!(lines, vec!["Downloading: (1/2)".to_string(), "Pull complete".to_string()]);
    assert_eq!(outcome, Ok(()));
    assert_eq!(report(&vec![]), (vec![], Ok(())));
}

#[test]
fn pull_announcement_names_the_image() {
    assert_eq!(pull_announcement("docker.io/itzg/minecraft-server"), "Pulling docker.io/itzg/minecraft-server");
}

#[test]
fn allocate_gives_a_port_or_says_that_none_is_free() {
    match allocate() {
        Ok(port) => assert_ne!(port, 0),
        Err(error) => assert_eq!(error, RunError::PortAllocation),
    }
}

#[test]
fn removal_after_a_failed_stop_ends_the_run_as_failed() {
    let handle = "c1".to_string();
    let (state, action) =
        step(RunState::Stopping { handle: handle.clone() }, Event::StopFinished(Err("e".to_string())));
    assert_eq!(
        state,
        RunState::Removing { handle: handle.clone(), stop_error: Some("e".to_string()) }
    );
    assert_eq!(action, Action::Remove(handle.clone()));
    let (state, action) = step(state, Event::RemoveFinished(Ok(())));
    assert_eq!(
        state,
        RunState::Failed {
            error: RunError::Step {
                step: LifecycleStep::Stop,
                handle: Some(handle.clone()),
                message: "e".to_string(),
            }
        }
    );
    assert_eq!(action, Action::Finish);
    let (state, action) =
        step(RunState::Stopping { handle: handle.clone() }, Event::StopFinished(Ok(())));
    assert_eq!(state, RunState::Removing { handle: handle.clone(), stop_error: None });
    assert_eq!(action, Action::Remove(handle));
    assert_eq!(step(state, Event::RemoveFinished(Ok(()))), (RunState::Removed, Action::Finish));
}

#[test]
fn allocation_fails_where_no_port_was_found() {
    assert_eq!(allocation(Some(40001)), Ok(40001));
    assert_eq!(allocation(Some(0)), Ok(0));
    assert_eq!(allocation(Some(65535)), Ok(65535));
    assert_eq!(allocation(None), Err(RunError::PortAllocation));
}
