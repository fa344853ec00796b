use k8sfwd::config::config_id::ConfigId;
use k8sfwd::config::port::Port;
use k8sfwd::config::port_forward_config::PortForwardConfig;
use k8sfwd::config::resource_type::ResourceType;
use k8sfwd::config::retry_delay::RetryDelay;
use k8sfwd::config::tag::TagSet;
use k8sfwd::kubectl::{
    parse_current_cluster, parse_current_context, parse_lookup_output, render_event,
    supervisor_action, supervisor_step, ChildError, ChildEvent, ChildExitStatus, ExitCategory,
    Kubectl, RestartPolicy, StreamSource, SupervisorAction, SupervisorEvent, SupervisorState,
};

/// A scripted stand-in for the external collaborator: its child exits
/// immediately each time it is spawned.
struct ImmediateExit {
    spawns: usize,
}

impl ImmediateExit {
    fn perform(&mut self, action: SupervisorAction, slept: &mut Vec<u64>) -> SupervisorEvent {
        match action {
            SupervisorAction::Spawn => {
                self.spawns += 1;
                SupervisorEvent::Spawned
            }
            SupervisorAction::AwaitExit => SupervisorEvent::Exited(ChildExitStatus {
                code: Some(1),
            }),
            SupervisorAction::Sleep(d) => {
                slept.push(d.as_millis());
                SupervisorEvent::Slept
            }
            SupervisorAction::Stop => panic!("the loop must not stop"),
        }
    }
}

#[test]
fn backoff_between_respawns() {
    let id = ConfigId::new(0);
    let delay = RetryDelay::from_millis(2000);
    let mut runner = ImmediateExit { spawns: 0 };
    let mut slept: Vec<u64> = Vec::new();
    let mut exits = 0;
    let mut errors = 0;

    let mut state = SupervisorState::Starting;
    // Drive the loop until the third spawn has happened and its exit was seen.
    while !(runner.spawns == 3 && exits == 3) {
        let action = supervisor_action(&state, delay);
        // The first spawn happens before any sleep: bootstrap is immediate.
        if runner.spawns == 0 {
            assert!(slept.is_empty());
        }
        let event = runner.perform(action, &mut slept);
        let (next, emitted) = supervisor_step(state, event, id, delay);
        match emitted {
            Some(ChildEvent::Exit(eid, status, RestartPolicy::WillRestartIn(d))) => {
                assert_eq!(eid, id);
                assert_eq!(status.code, Some(1));
                assert_eq!(d, delay);
                exits += 1;
            }
            Some(ChildEvent::Error(_, _)) => {
                errors += 1;
            }
            Some(ChildEvent::Output(_, _, _)) => panic!("the machine never emits output"),
            None => {}
        }
        state = next;
    }

    // Three spawns, three exits, no errors; the delay was slept exactly
    // between the spawns: after exit one and after exit two.
    assert_eq!(runner.spawns, 3);
    assert_eq!(exits, 3);
    assert_eq!(errors, 0);
    assert_eq!(slept, vec![2000, 2000]);
}

#[test]
fn wait_failure_respawns_without_backoff() {
    let id = ConfigId::new(4);
    let delay = RetryDelay::from_millis(2000);
    let (next, emitted) = supervisor_step(
        SupervisorState::Running,
        SupervisorEvent::WaitFailed(String::from("interrupted")),
        id,
        delay,
    );
    // Straight back to the spawn, no backoff state in between.
    assert_eq!(next, SupervisorState::Starting);
    match emitted {
        Some(ChildEvent::Error(eid, ChildError::Wait(m))) => {
            assert_eq!(eid, id);
            assert_eq!(m, "interrupted");
        }
        _ => panic!("a wait failure is published as an error"),
    }
}

#[test]
fn spawn_failure_is_fatal_for_the_target_only() {
    let id = ConfigId::new(1);
    let delay = RetryDelay::from_millis(1000);
    let (next, emitted) = supervisor_step(
        SupervisorState::Starting,
        SupervisorEvent::SpawnFailed,
        id,
        delay,
    );
    assert_eq!(next, SupervisorState::Failed);
    assert!(emitted.is_none());
    assert!(matches!(
        supervisor_action(&next, delay),
        SupervisorAction::Stop
    ));
}

#[test]
fn event_rendering() {
    let id = ConfigId::new(3);
    let (line, to_stderr) = render_event(&ChildEvent::Output(
        id,
        StreamSource::StdOut,
        String::from("Forwarding from 127.0.0.1:5012 -> 80"),
    ));
    assert_eq!(line, "#3: Forwarding from 127.0.0.1:5012 -> 80");
    assert!(!to_stderr);

    let (line, to_stderr) = render_event(&ChildEvent::Exit(
        id,
        ChildExitStatus { code: Some(1) },
        RestartPolicy::WillRestartIn(RetryDelay::from_millis(3140)),
    ));
    assert_eq!(
        line,
        "#3: Process exited with exit status: 1 - will retry in 3.14 sec"
    );
    assert!(to_stderr);

    let (line, to_stderr) = render_event(&ChildEvent::Exit(
        id,
        ChildExitStatus { code: None },
        RestartPolicy::WillRestartIn(RetryDelay::from_millis(0)),
    ));
    assert_eq!(
        line,
        "#3: Process exited with terminated by signal - retrying immediately"
    );
    assert!(to_stderr);

    let (line, to_stderr) = render_event(&ChildEvent::Error(
        id,
        ChildError::Wait(String::from("interrupted")),
    ));
    assert_eq!(line, "#3: An error occurred: interrupted");
    assert!(to_stderr);
}

#[test]
fn forward_command_arguments() {
    let tags = TagSet::new();
    let fwd = PortForwardConfig {
        source_file: None,
        name: Some(String::from("API")),
        tags,
        context: Some(String::from("dev-ctx")),
        cluster: Some(String::from("dev-cluster")),
        listen_addrs: vec![String::from("127.0.0.1"), String::from("[::1]")],
        namespace: String::from("billing"),
        resource_type: ResourceType::Deployment,
        target: String::from("api"),
        ports: vec![
            Port { local: Some(5012), remote: 80 },
            Port { local: None, remote: 8080 },
        ],
    };
    let kubectl = Kubectl::new(String::from("kubectl"), String::from("/tmp"));
    let args = kubectl.forward_command_args(&fwd);
    assert_eq!(
        args,
        vec![
            String::from("port-forward"),
            String::from("--context"),
            String::from("dev-ctx"),
            String::from("--cluster"),
            String::from("dev-cluster"),
            String::from("--address"),
            String::from("127.0.0.1,[::1]"),
            String::from("-n"),
            String::from("billing"),
            String::from("deployment/api"),
            String::from("5012:80"),
            String::from(":8080"),
        ]
    );
    assert_eq!(kubectl.program(), "kubectl");
    assert_eq!(kubectl.working_dir(), "/tmp");
}

#[test]
fn exit_codes_are_distinct() {
    assert_eq!(ExitCategory::Success.code(), 0);
    assert_eq!(ExitCategory::ConfigInvalid.code(), 78);
    assert_eq!(ExitCategory::Unavailable.code(), 69);
    assert_eq!(ExitCategory::NoTargets.code(), 66);
}

#[test]
fn lookup_output_parsing() {
    assert_eq!(parse_current_context("'dev'"), "dev");
    assert_eq!(parse_current_context("''"), "");
    assert_eq!(parse_current_cluster("'prod'"), Some(String::from("prod")));
    assert_eq!(parse_current_cluster("''"), None);
    assert_eq!(parse_lookup_output("'ctx'"), Some(String::from("ctx")));
    assert_eq!(parse_lookup_output("'ctx1 ctx2'"), None);
    assert_eq!(parse_lookup_output("''"), None);
}

#[test]
fn delay_rendering() {
    assert_eq!(RetryDelay::from_millis(2000).display(), "2 sec");
    assert_eq!(RetryDelay::from_millis(3140).display(), "3.14 sec");
    assert_eq!(RetryDelay::from_millis(3100).display(), "3.1 sec");
    assert_eq!(RetryDelay::from_millis(3004).display(), "3.004 sec");
    assert_eq!(RetryDelay::from_millis(0).display(), "0 sec");
    assert!(RetryDelay::from_millis(0).is_none());
    assert_eq!(RetryDelay::none().as_millis(), 0);
}

#[test]
fn identifier_rendering() {
    assert_eq!(ConfigId::new(0).display(), "#0");
    assert_eq!(ConfigId::new(1234).display(), "#1234");
}

#[test]
fn quote_trimming_edges() {
    assert_eq!(parse_current_context("''quoted''"), "quoted");
    assert_eq!(parse_current_context("a'b"), "a'b");
    assert_eq!(parse_current_context(""), "");
}
