use microclaw::clock::Duration;
use microclaw::sandbox::config::{
    ExtraMount, SandboxBackend, SandboxConfig, SandboxExecOptions, SandboxMode, SecurityProfile,
};
use microclaw::sandbox::docker::{
    finish_container_command, is_running, sanitize_segment, started, DockerSandbox,
};
use microclaw::sandbox::host::{exec_host_command, finish_host_command};
use microclaw::sandbox::process::{CommandOutcome, ExecOutcome};
use microclaw::sandbox::router::{
    Backend, ExecPlan, NoSandbox, RunAction, RunEvent, Sandbox, SandboxRouter,
};
use microclaw::sandbox::runtime::{
    pick_runtime, resolve_runtime, runtime_available, runtime_available_for_backend,
    selected_runtime_cli, AvailableRuntimes, ContainerRuntime,
};

fn options() -> SandboxExecOptions {
    SandboxExecOptions {
        timeout: Duration::from_secs(2),
        working_dir: None,
        envs: Vec::new(),
        env_files: Vec::new(),
    }
}

fn pair(a: &str, b: &str) -> (String, String) {
    (a.to_string(), b.to_string())
}

fn ran(success: bool, stdout: &str, stderr: &str) -> CommandOutcome {
    CommandOutcome::Exited {
        success,
        stdout: stdout.as_bytes().to_vec(),
        stderr: stderr.as_bytes().to_vec(),
    }
}

fn exited(code: Option<i32>, stdout: &[u8], stderr: &[u8]) -> ExecOutcome {
    ExecOutcome::Exited { code, stdout: stdout.to_vec(), stderr: stderr.to_vec() }
}

fn docker(config: SandboxConfig, extra_mounts: Vec<ExtraMount>) -> DockerSandbox {
    DockerSandbox::new(ContainerRuntime::Docker, config, "/work".to_string(), extra_mounts)
}

#[test]
fn test_sanitize_segment() {
    assert_eq!(sanitize_segment("Web:10001"), "web-10001");
}

#[test]
fn sanitized_segments_are_plain_and_stay() {
    assert_eq!(sanitize_segment(""), "default");
    assert_eq!(sanitize_segment("A_b.C-9"), "a_b.c-9");
    assert_eq!(sanitize_segment("a b/ß"), "a-b--");
    for s in ["", "Web:10001", "A_b.C-9", "a b/ß", "---"] {
        let once = sanitize_segment(s);
        assert_eq!(sanitize_segment(&once), once);
        assert!(!once.is_empty());
        assert!(once.chars().all(|c| c.is_ascii_lowercase() || c.is_ascii_digit() || "-_.".contains(c)));
    }
}

#[test]
fn test_pick_runtime_matrix() {
    assert_eq!(
        pick_runtime(SandboxBackend::Auto, true, true),
        Some(ContainerRuntime::Docker)
    );
    assert_eq!(pick_runtime(SandboxBackend::Auto, false, true), None);
    assert_eq!(pick_runtime(SandboxBackend::Auto, false, false), None);
    assert_eq!(
        pick_runtime(SandboxBackend::Docker, true, false),
        Some(ContainerRuntime::Docker)
    );
    assert_eq!(pick_runtime(SandboxBackend::Docker, false, true), None);
    assert_eq!(
        pick_runtime(SandboxBackend::Podman, false, true),
        Some(ContainerRuntime::Podman)
    );
    assert_eq!(pick_runtime(SandboxBackend::Podman, true, false), None);
}

#[test]
fn the_selected_program_is_there_if_and_only_if_a_runtime_is() {
    for backend in [SandboxBackend::Auto, SandboxBackend::Docker, SandboxBackend::Podman] {
        for docker in [false, true] {
            for podman in [false, true] {
                let available = AvailableRuntimes { docker, podman };
                let cli = selected_runtime_cli(backend, available);
                assert_eq!(cli.is_some(), runtime_available_for_backend(backend, available));
                assert_eq!(cli.is_some(), resolve_runtime(backend, available).is_some());
                assert_eq!(cli == Some("podman"), backend == SandboxBackend::Podman && podman);
                assert_eq!(cli == Some("docker"), backend != SandboxBackend::Podman && docker);
            }
        }
    }
    assert_eq!(ContainerRuntime::Docker.cli(), "docker");
    assert_eq!(ContainerRuntime::Podman.label(), "podman");
    assert!(runtime_available(Some(true)));
    assert!(!runtime_available(Some(false)));
    assert!(!runtime_available(None));
}

#[test]
fn defaults_are_strict() {
    let config = SandboxConfig::default();
    assert_eq!(config.mode, SandboxMode::Off);
    assert_eq!(config.backend, SandboxBackend::Auto);
    assert_eq!(config.image, "ubuntu:25.10");
    assert_eq!(config.container_prefix, "microclaw-sandbox");
    assert!(config.no_network);
    assert!(config.require_runtime);
    assert_eq!(config.mount_allowlist_path, None);
    assert_eq!(config.security_profile, SecurityProfile::Hardened);
    assert!(config.cap_add.is_empty());
    assert_eq!(config.memory_limit, None);
    assert_eq!(config.cpu_quota, None);
    assert_eq!(config.pids_limit, None);
    assert_eq!(SecurityProfile::Hardened.to_text(), "hardened");
    assert_eq!(SecurityProfile::Standard.to_text(), "standard");
    assert_eq!(SecurityProfile::Privileged.to_text(), "privileged");
}

#[test]
fn containers_start_with_the_default_arguments() {
    let sandbox = docker(SandboxConfig::default(), Vec::new());
    assert_eq!(sandbox.container_name("Web:10001"), "microclaw-sandbox-web-10001");
    assert_eq!(
        sandbox.inspect_args("Web:10001"),
        vec!["inspect", "--format", "{{.State.Running}}", "microclaw-sandbox-web-10001"]
    );
    assert_eq!(
        sandbox.run_args("Web:10001"),
        vec![
            "run",
            "-d",
            "--name",
            "microclaw-sandbox-web-10001",
            "--cap-drop",
            "ALL",
            "--security-opt",
            "no-new-privileges",
            "--network=none",
            "-v",
            "/work:/work:rw",
            "ubuntu:25.10",
            "sleep",
            "infinity",
        ]
    );
}

#[test]
fn containers_start_with_all_that_is_set() {
    let config = SandboxConfig {
        no_network: false,
        security_profile: SecurityProfile::Standard,
        cap_add: vec!["NET_ADMIN".to_string(), "SYS_TIME".to_string()],
        memory_limit: Some("512m".to_string()),
        cpu_quota: Some("1.5".to_string()),
        pids_limit: Some(64),
        image: "alpine".to_string(),
        container_prefix: "box".to_string(),
        ..SandboxConfig::default()
    };
    let mounts = vec![
        ExtraMount { host_path: "/data".to_string(), read_only: true },
        ExtraMount { host_path: "/out".to_string(), read_only: false },
    ];
    let sandbox = docker(config, mounts);
    assert_eq!(
        sandbox.run_args(""),
        vec![
            "run",
            "-d",
            "--name",
            "box-default",
            "--cap-add",
            "NET_ADMIN",
            "--cap-add",
            "SYS_TIME",
            "--memory",
            "512m",
            "--cpus",
            "1.5",
            "--pids-limit",
            "64",
            "-v",
            "/work:/work:rw",
            "-v",
            "/data:/data:ro",
            "-v",
            "/out:/out:rw",
            "alpine",
            "sleep",
            "infinity",
        ]
    );
}

#[test]
fn security_profiles_have_their_arguments() {
    let cap_add = vec!["SYS_PTRACE".to_string()];
    let with = |security_profile: SecurityProfile| {
        docker(
            SandboxConfig {
                security_profile,
                cap_add: cap_add.clone(),
                ..SandboxConfig::default()
            },
            Vec::new(),
        )
        .security_args()
    };
    assert_eq!(
        with(SecurityProfile::Hardened),
        vec![
            "--cap-drop",
            "ALL",
            "--security-opt",
            "no-new-privileges",
            "--cap-add",
            "SYS_PTRACE",
        ]
    );
    assert_eq!(with(SecurityProfile::Standard), vec!["--cap-add", "SYS_PTRACE"]);
    assert_eq!(with(SecurityProfile::Privileged), vec!["--privileged"]);
}

#[test]
fn limits_that_are_not_set_add_nothing() {
    assert!(docker(SandboxConfig::default(), Vec::new()).resource_args().is_empty());
}

#[test]
fn commands_enter_their_container() {
    let sandbox = docker(SandboxConfig::default(), Vec::new());
    assert_eq!(
        sandbox.exec_args("s", "echo 'a b'", &options()),
        vec!["exec", "microclaw-sandbox-s", "sh", "-c", "echo 'a b'"]
    );
    let opts = SandboxExecOptions {
        working_dir: Some("/work/x".to_string()),
        envs: vec![pair("A", "1"), pair("B", "x y")],
        env_files: vec!["/work/.e1".to_string(), "/work/.e2".to_string()],
        ..options()
    };
    assert_eq!(
        sandbox.exec_args("s", "ls", &opts),
        vec![
            "exec",
            "-w",
            "/work/x",
            "--env-file",
            "/work/.e1",
            "--env-file",
            "/work/.e2",
            "-e",
            "A=1",
            "-e",
            "B=x y",
            "microclaw-sandbox-s",
            "sh",
            "-c",
            "ls",
        ]
    );
}

#[test]
fn a_container_is_running_when_it_says_so() {
    assert!(is_running(&ran(true, "true\n", "")));
    assert!(is_running(&ran(true, " true ", "")));
    assert!(!is_running(&ran(true, "false\n", "")));
    assert!(!is_running(&ran(true, "TRUE", "")));
    assert!(!is_running(&ran(false, "true\n", "")));
    assert!(!is_running(&CommandOutcome::NotRun));
}

#[test]
fn a_container_that_does_not_start_says_why() {
    assert_eq!(started(ContainerRuntime::Docker, &ran(true, "id", "noise")), Ok(()));
    assert_eq!(
        started(ContainerRuntime::Docker, &CommandOutcome::NotRun),
        Err("failed to run docker".to_string())
    );
    assert_eq!(
        started(ContainerRuntime::Podman, &ran(false, "", "\n no such image \n")),
        Err("podman run failed: no such image".to_string())
    );
}

#[test]
fn commands_in_containers_come_to_results() {
    let runtime = ContainerRuntime::Podman;
    let timeout = Duration::from_secs(7);
    let done = finish_container_command(runtime, &exited(Some(3), b"out", b"err"), timeout).unwrap();
    assert_eq!((done.stdout.as_str(), done.stderr.as_str(), done.exit_code), ("out", "err", 3));
    let killed = finish_container_command(runtime, &exited(None, b"", b""), timeout).unwrap();
    assert_eq!(killed.exit_code, -1);
    assert_eq!(
        finish_container_command(runtime, &ExecOutcome::NotStarted, timeout).unwrap_err(),
        "failed to spawn podman exec"
    );
    assert_eq!(
        finish_container_command(runtime, &ExecOutcome::Failed("gone".to_string()), timeout)
            .unwrap_err(),
        "podman exec failed: gone"
    );
    assert_eq!(
        finish_container_command(runtime, &ExecOutcome::TimedOut, timeout).unwrap_err(),
        "podman exec timed out after 7 seconds"
    );
}

#[test]
fn commands_of_the_host_come_to_results() {
    let timeout = Duration::from_millis(2500);
    let done = finish_host_command(&exited(Some(0), b"hi\n", b""), timeout).unwrap();
    assert_eq!((done.stdout.as_str(), done.stderr.as_str(), done.exit_code), ("hi\n", "", 0));
    assert_eq!(
        finish_host_command(&ExecOutcome::NotStarted, timeout).unwrap_err(),
        "failed to start shell command"
    );
    assert_eq!(
        finish_host_command(&ExecOutcome::Failed("gone".to_string()), timeout).unwrap_err(),
        "failed to run command: gone"
    );
    assert_eq!(
        finish_host_command(&ExecOutcome::TimedOut, timeout).unwrap_err(),
        "command timed out after 2 seconds"
    );
}

#[test]
fn output_that_is_no_text_is_made_into_text() {
    let bytes: &[u8] = b"a\xffb\xe2\x82";
    let done = finish_host_command(&exited(Some(0), bytes, b"\xc3\xa9"), Duration::from_secs(1))
        .unwrap();
    assert_eq!(done.stdout, String::from_utf8_lossy(bytes));
    assert_eq!(done.stdout, "a\u{fffd}b\u{fffd}");
    assert_eq!(done.stderr, "é");
}

#[test]
fn variables_of_files_come_before_those_of_the_command() {
    let opts = SandboxExecOptions {
        working_dir: Some("/w".to_string()),
        envs: vec![pair("A", "command")],
        env_files: vec!["one".to_string(), "missing".to_string(), "two".to_string()],
        ..options()
    };
    let files = vec![
        Some(vec![pair("A", "one"), pair("B", "one")]),
        None,
        Some(vec![pair("B", "two")]),
    ];
    let plan = exec_host_command("env", &opts, &files);
    assert_eq!(plan.command, "env");
    assert_eq!(plan.working_dir.as_deref(), Some("/w"));
    assert_eq!(plan.timeout, Duration::from_secs(2));
    assert_eq!(
        plan.envs,
        vec![pair("A", "one"), pair("B", "one"), pair("B", "two"), pair("A", "command")]
    );
}

#[test]
fn test_router_default_backend_name() {
    for docker in [false, true] {
        for podman in [false, true] {
            let router = SandboxRouter::new(
                SandboxConfig::default(),
                "./tmp".to_string(),
                vec![],
                AvailableRuntimes { docker, podman },
            );
            let name = router.backend_name();
            assert!(name == "docker" || name == "podman" || name == "none");
            assert_eq!(name == "docker", docker);
            assert_eq!(router.runtime_available(), docker);
            assert_eq!(router.mode(), SandboxMode::Off);
        }
    }
}

#[test]
fn test_router_falls_back_to_host_when_runtime_missing_and_not_required() {
    let cfg = SandboxConfig {
        mode: SandboxMode::All,
        backend: SandboxBackend::Auto,
        require_runtime: false,
        ..SandboxConfig::default()
    };
    let mut router = SandboxRouter::with_backend(cfg, Backend::Missing(NoSandbox));
    let routed = router.exec("chat-1", "printf microclaw-smoke", &options());
    assert!(routed.warn);
    assert!(matches!(
        routed.run.action(),
        RunAction::Execute { plan: ExecPlan::Host, timeout } if timeout == Duration::from_secs(2)
    ));
    let run = routed.run.advance(&RunEvent::Executed(exited(Some(0), b"microclaw-smoke", b"")));
    let RunAction::Finish(out) = run.action() else {
        panic!("the command has ended");
    };
    let out = out.expect("expected host fallback execution");
    assert_eq!(out.exit_code, 0);
    assert_eq!(out.stdout, "microclaw-smoke");
}

#[test]
fn test_router_fails_closed_when_runtime_required_and_missing() {
    let cfg = SandboxConfig {
        mode: SandboxMode::All,
        backend: SandboxBackend::Auto,
        require_runtime: true,
        ..SandboxConfig::default()
    };
    let mut router = SandboxRouter::with_backend(cfg, Backend::Missing(NoSandbox));
    let routed = router.exec("chat-1", "echo hi", &options());
    assert!(!routed.warn);
    let RunAction::Finish(out) = routed.run.action() else {
        panic!("the command is refused at once");
    };
    let err = out.unwrap_err();
    assert!(err
        .to_string()
        .contains("sandbox is enabled but no container runtime is available"));
    let later = routed.run.advance(&RunEvent::Executed(exited(Some(0), b"hi", b"")));
    assert!(matches!(later.action(), RunAction::Finish(Err(_))));
}

#[test]
fn a_router_warns_once() {
    let cfg = SandboxConfig {
        mode: SandboxMode::All,
        require_runtime: false,
        ..SandboxConfig::default()
    };
    let mut router = SandboxRouter::with_backend(cfg, Backend::Missing(NoSandbox));
    let warnings: Vec<bool> = (0..4).map(|_| router.exec("s", "true", &options()).warn).collect();
    assert_eq!(warnings, vec![true, false, false, false]);
}

#[test]
fn with_the_sandbox_off_commands_run_on_the_host() {
    let sandbox = docker(SandboxConfig::default(), Vec::new());
    let mut router =
        SandboxRouter::with_backend(SandboxConfig::default(), Backend::Container(sandbox));
    let routed = router.exec("s", "true", &options());
    assert!(!routed.warn);
    assert!(matches!(routed.run.action(), RunAction::Execute { plan: ExecPlan::Host, .. }));
}

fn sandboxed() -> SandboxRouter {
    let config = SandboxConfig { mode: SandboxMode::All, ..SandboxConfig::default() };
    SandboxRouter::new(
        config,
        "/work".to_string(),
        vec![],
        AvailableRuntimes { docker: true, podman: true },
    )
}

#[test]
fn a_running_container_is_entered_at_once() {
    let mut router = sandboxed();
    let run = router.exec("s", "ls", &options()).run;
    match run.action() {
        RunAction::Run { runtime, args } => {
            assert_eq!(runtime, ContainerRuntime::Docker);
            assert_eq!(args[0], "inspect");
        }
        _ => panic!("the container is asked after"),
    }
    let run = run.advance(&RunEvent::Ran(ran(true, "true\n", "")));
    match run.action() {
        RunAction::Execute { plan: ExecPlan::Container { runtime, args }, timeout } => {
            assert_eq!(runtime, ContainerRuntime::Docker);
            assert_eq!(args, vec!["exec", "microclaw-sandbox-s", "sh", "-c", "ls"]);
            assert_eq!(timeout, Duration::from_secs(2));
        }
        _ => panic!("the command runs"),
    }
    let run = run.advance(&RunEvent::Ran(ran(false, "", "")));
    assert!(matches!(run.action(), RunAction::Execute { .. }));
    let run = run.advance(&RunEvent::Executed(ExecOutcome::TimedOut));
    match run.action() {
        RunAction::Finish(Err(e)) => assert_eq!(e, "docker exec timed out after 2 seconds"),
        _ => panic!("the command is over"),
    }
}

#[test]
fn any_other_container_is_started_first() {
    let mut router = sandboxed();
    for inspected in [CommandOutcome::NotRun, ran(false, "", "no such object"), ran(true, "false", "")] {
        let run = router.exec("s", "ls", &options()).run.advance(&RunEvent::Ran(inspected));
        match run.action() {
            RunAction::Run { args, .. } => assert_eq!(args[0], "run"),
            _ => panic!("the container is started"),
        }
        let run = run.advance(&RunEvent::Ran(ran(true, "id", "")));
        assert!(matches!(
            run.action(),
            RunAction::Execute { plan: ExecPlan::Container { .. }, .. }
        ));
    }
}

#[test]
fn a_container_that_fails_to_start_runs_nothing() {
    let mut router = sandboxed();
    let run = router
        .exec("s", "ls", &options())
        .run
        .advance(&RunEvent::Ran(ran(true, "false", "")))
        .advance(&RunEvent::Ran(ran(false, "", "boom\n")))
        .advance(&RunEvent::Executed(exited(Some(0), b"", b"")));
    match run.action() {
        RunAction::Finish(Err(e)) => assert_eq!(e, "docker run failed: boom"),
        _ => panic!("the command is over"),
    }
}

#[test]
fn sandboxes_say_what_they_are() {
    assert_eq!(NoSandbox.backend_name(), "none");
    assert!(!NoSandbox.is_real());
    assert!(NoSandbox.ensure_ready("s").is_none());
    assert!(matches!(NoSandbox.exec("s", "ls", &options()), ExecPlan::Host));
    let sandbox = docker(SandboxConfig::default(), Vec::new());
    assert_eq!(sandbox.backend_name(), "docker");
    assert!(sandbox.is_real());
    let ready = sandbox.ensure_ready("s").unwrap();
    assert_eq!(ready.inspect, sandbox.inspect_args("s"));
    assert_eq!(ready.start, sandbox.run_args("s"));
}
