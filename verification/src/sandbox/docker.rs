//! A sandbox that is a container: its name, and the arguments with which it is inspected,
//! started and entered.

use vstd::prelude::*;

use crate::clock::Duration;
use crate::sandbox::config::{
    ExecOptionsView, ExecResultView, ExtraMount, ExtraMountView, SandboxConfig, SandboxConfigView,
    SandboxExecOptions, SandboxExecResult, SecurityProfile,
};
use crate::sandbox::process;
use crate::sandbox::process::{CommandOutcome, ExecOutcome};
use crate::sandbox::runtime::ContainerRuntime;
use crate::text;

verus! {

// ---------------------------------------------------------------------------
// Names
// ---------------------------------------------------------------------------

/// The characters that a container's name may hold as they are.
pub open spec fn plain(c: char) -> bool {
    ||| 'a' <= c && c <= 'z'
    ||| 'A' <= c && c <= 'Z'
    ||| '0' <= c && c <= '9'
    ||| c == '-'
    ||| c == '_'
    ||| c == '.'
}

/// A character as it stands in a container's name: a plain one in small, and a dash for any
/// other.
pub open spec fn sanitized_char(c: char) -> char {
    if plain(c) {
        text::ascii_lower(c)
    } else {
        '-'
    }
}

/// A text as it stands in a container's name, and `default` for the empty text.
pub open spec fn sanitized(input: Seq<char>) -> Seq<char> {
    if input.len() == 0 {
        "default"@
    } else {
        input.map_values(|c: char| sanitized_char(c))
    }
}

/// Makes a text fit to stand in a container's name.
pub fn sanitize_segment(input: &str) -> (out: String)
    ensures
        out@ == sanitized(input@),
{
    let chars = text::chars_of(input);
    let ghost all = input@.map_values(|c: char| sanitized_char(c));
    let mut out = String::new();
    let mut i: usize = 0;
    proof {
        assert(out@ =~= all.take(0));
    }
    while i < chars.len()
        invariant
            i <= chars@.len(),
            chars@ == input@,
            all == input@.map_values(|c: char| sanitized_char(c)),
            out@ == all.take(i as int),
        decreases chars@.len() - i,
    {
        let c: char = chars[i];
        proof {
            assert(all.take(i + 1) =~= all.take(i as int).push(sanitized_char(c)));
        }
        if (c >= 'a' && c <= 'z') || (c >= 'A' && c <= 'Z') || (c >= '0' && c <= '9') || c == '-'
            || c == '_' || c == '.' {
            out.push(text::to_lower_char(c));
        } else {
            out.push('-');
        }
        i += 1;
    }
    proof {
        assert(all.take(i as int) =~= all);
    }
    if chars.len() == 0 {
        "default".to_string()
    } else {
        out
    }
}

// ---------------------------------------------------------------------------
// Arguments
// ---------------------------------------------------------------------------

/// The arguments that add capabilities.
pub open spec fn capability_args(capabilities: Seq<Seq<char>>) -> Seq<Seq<char>>
    decreases capabilities.len(),
{
    if capabilities.len() == 0 {
        Seq::empty()
    } else {
        capability_args(capabilities.drop_last()) + seq!["--cap-add"@, capabilities.last()]
    }
}

/// The arguments that hold a container to its security profile.
pub open spec fn security_arguments(config: SandboxConfigView) -> Seq<Seq<char>> {
    match config.security_profile {
        SecurityProfile::Hardened => seq![
            "--cap-drop"@,
            "ALL"@,
            "--security-opt"@,
            "no-new-privileges"@,
        ] + capability_args(config.cap_add),
        SecurityProfile::Standard => capability_args(config.cap_add),
        SecurityProfile::Privileged => seq!["--privileged"@],
    }
}

/// An option and its value, where it has one.
pub open spec fn option_args(option: Seq<char>, value: Option<Seq<char>>) -> Seq<Seq<char>> {
    match value {
        Some(value) => seq![option, value],
        None => Seq::empty(),
    }
}

/// The arguments that limit what a container uses up.
pub open spec fn resource_arguments(config: SandboxConfigView) -> Seq<Seq<char>> {
    option_args("--memory"@, config.memory_limit) + option_args("--cpus"@, config.cpu_quota)
        + option_args(
        "--pids-limit"@,
        match config.pids_limit {
            Some(pids) => Some(text::decimal(pids as nat)),
            None => None,
        },
    )
}

/// The arguments that cut a container off from the network, where it is cut off.
pub open spec fn network_arguments(config: SandboxConfigView) -> Seq<Seq<char>> {
    if config.no_network {
        seq!["--network=none"@]
    } else {
        Seq::empty()
    }
}

/// A directory of the host under the same path in a container.
pub open spec fn mount_args(path: Seq<char>, mode: Seq<char>) -> Seq<Seq<char>> {
    seq!["-v"@, path + ":"@ + path + ":"@ + mode]
}

/// What a container may do with a further directory.
pub open spec fn mount_mode(mount: ExtraMountView) -> Seq<char> {
    if mount.read_only {
        "ro"@
    } else {
        "rw"@
    }
}

/// The arguments for the further directories.
pub open spec fn extra_mount_args(mounts: Seq<ExtraMountView>) -> Seq<Seq<char>>
    decreases mounts.len(),
{
    if mounts.len() == 0 {
        Seq::empty()
    } else {
        extra_mount_args(mounts.drop_last()) + mount_args(
            mounts.last().host_path,
            mount_mode(mounts.last()),
        )
    }
}

/// The arguments that name files of environment variables.
pub open spec fn env_file_args(files: Seq<Seq<char>>) -> Seq<Seq<char>>
    decreases files.len(),
{
    if files.len() == 0 {
        Seq::empty()
    } else {
        env_file_args(files.drop_last()) + seq!["--env-file"@, files.last()]
    }
}

/// The arguments that set environment variables.
pub open spec fn env_args(envs: Seq<(Seq<char>, Seq<char>)>) -> Seq<Seq<char>>
    decreases envs.len(),
{
    if envs.len() == 0 {
        Seq::empty()
    } else {
        env_args(envs.drop_last()) + seq!["-e"@, envs.last().0 + "="@ + envs.last().1]
    }
}

/// Appends an argument.
fn add_arg(args: &mut Vec<String>, arg: &str)
    ensures
        text::texts(final(args)@) == text::texts(old(args)@).push(arg@),
{
    let ghost before = text::texts(args@);
    args.push(arg.to_string());
    proof {
        assert(text::texts(args@) =~= before.push(arg@));
    }
}

/// Appends an option and its value.
fn add_pair(args: &mut Vec<String>, option: &str, value: &str)
    ensures
        text::texts(final(args)@) == text::texts(old(args)@) + seq![option@, value@],
{
    let ghost before = text::texts(args@);
    add_arg(args, option);
    add_arg(args, value);
    proof {
        assert(text::texts(args@) =~= before + seq![option@, value@]);
    }
}

/// Appends an option and its value, where it has one.
fn add_option(args: &mut Vec<String>, option: &str, value: &Option<String>)
    ensures
        text::texts(final(args)@) == text::texts(old(args)@) + option_args(
            option@,
            text::opt_text(*value),
        ),
{
    match value {
        Some(value) => add_pair(args, option, value.as_str()),
        None => {
            proof {
                assert(text::texts(args@) =~= text::texts(args@) + Seq::<Seq<char>>::empty());
            }
        },
    }
}

/// Appends arguments.
fn add_all(args: &mut Vec<String>, more: &Vec<String>)
    ensures
        text::texts(final(args)@) == text::texts(old(args)@) + text::texts(more@),
{
    let ghost before = text::texts(args@);
    let ghost added = text::texts(more@);
    let mut i: usize = 0;
    proof {
        assert(before + added.take(0) =~= before);
    }
    while i < more.len()
        invariant
            i <= more@.len(),
            added == text::texts(more@),
            text::texts(args@) == before + added.take(i as int),
        decreases more@.len() - i,
    {
        let ghost so_far = text::texts(args@);
        add_arg(args, more[i].as_str());
        proof {
            assert(added[i as int] == more@[i as int]@);
            assert(so_far.push(added[i as int]) =~= before + added.take(i + 1));
        }
        i += 1;
    }
    proof {
        assert(added.take(i as int) =~= added);
    }
}

/// Appends a directory of the host under the same path.
fn add_mount(args: &mut Vec<String>, path: &str, mode: &str)
    ensures
        text::texts(final(args)@) == text::texts(old(args)@) + mount_args(path@, mode@),
{
    let mut s = path.to_string();
    s.append(":");
    s.append(path);
    s.append(":");
    s.append(mode);
    add_pair(args, "-v", s.as_str());
}

/// What a list of further directories stands for.
pub open spec fn mount_views(mounts: Seq<ExtraMount>) -> Seq<ExtraMountView> {
    mounts.map_values(|m: ExtraMount| m@)
}

fn add_extra_mounts(args: &mut Vec<String>, mounts: &Vec<ExtraMount>)
    ensures
        text::texts(final(args)@) == text::texts(old(args)@) + extra_mount_args(
            mount_views(mounts@),
        ),
{
    let ghost before = text::texts(args@);
    let ghost all = mount_views(mounts@);
    let mut i: usize = 0;
    proof {
        assert(before + extra_mount_args(all.take(0)) =~= before);
    }
    while i < mounts.len()
        invariant
            i <= mounts@.len(),
            all == mount_views(mounts@),
            text::texts(args@) == before + extra_mount_args(all.take(i as int)),
        decreases mounts@.len() - i,
    {
        let ghost so_far = text::texts(args@);
        let mount = &mounts[i];
        let mode = if mount.read_only {
            "ro"
        } else {
            "rw"
        };
        add_mount(args, mount.host_path.as_str(), mode);
        proof {
            let one = mount_args(mount@.host_path, mount_mode(mount@));
            assert(all.take(i + 1).drop_last() =~= all.take(i as int));
            assert(all.take(i + 1).last() == mount@);
            assert(so_far + one =~= before + (extra_mount_args(all.take(i as int)) + one));
        }
        i += 1;
    }
    proof {
        assert(all.take(i as int) =~= all);
    }
}

fn add_capabilities(args: &mut Vec<String>, capabilities: &Vec<String>)
    ensures
        text::texts(final(args)@) == text::texts(old(args)@) + capability_args(
            text::texts(capabilities@),
        ),
{
    let ghost before = text::texts(args@);
    let ghost all = text::texts(capabilities@);
    let mut i: usize = 0;
    proof {
        assert(before + capability_args(all.take(0)) =~= before);
    }
    while i < capabilities.len()
        invariant
            i <= capabilities@.len(),
            all == text::texts(capabilities@),
            text::texts(args@) == before + capability_args(all.take(i as int)),
        decreases capabilities@.len() - i,
    {
        let ghost so_far = text::texts(args@);
        add_pair(args, "--cap-add", capabilities[i].as_str());
        proof {
            let one = seq!["--cap-add"@, all[i as int]];
            assert(all.take(i + 1).drop_last() =~= all.take(i as int));
            assert(so_far + one =~= before + (capability_args(all.take(i as int)) + one));
        }
        i += 1;
    }
    proof {
        assert(all.take(i as int) =~= all);
    }
}

fn add_env_files(args: &mut Vec<String>, files: &Vec<String>)
    ensures
        text::texts(final(args)@) == text::texts(old(args)@) + env_file_args(text::texts(files@)),
{
    let ghost before = text::texts(args@);
    let ghost all = text::texts(files@);
    let mut i: usize = 0;
    proof {
        assert(before + env_file_args(all.take(0)) =~= before);
    }
    while i < files.len()
        invariant
            i <= files@.len(),
            all == text::texts(files@),
            text::texts(args@) == before + env_file_args(all.take(i as int)),
        decreases files@.len() - i,
    {
        let ghost so_far = text::texts(args@);
        add_pair(args, "--env-file", files[i].as_str());
        proof {
            let one = seq!["--env-file"@, all[i as int]];
            assert(all.take(i + 1).drop_last() =~= all.take(i as int));
            assert(so_far + one =~= before + (env_file_args(all.take(i as int)) + one));
        }
        i += 1;
    }
    proof {
        assert(all.take(i as int) =~= all);
    }
}

fn add_envs(args: &mut Vec<String>, envs: &Vec<(String, String)>)
    ensures
        text::texts(final(args)@) == text::texts(old(args)@) + env_args(text::text_pairs(envs@)),
{
    let ghost before = text::texts(args@);
    let ghost all = text::text_pairs(envs@);
    let mut i: usize = 0;
    proof {
        assert(before + env_args(all.take(0)) =~= before);
    }
    while i < envs.len()
        invariant
            i <= envs@.len(),
            all == text::text_pairs(envs@),
            text::texts(args@) == before + env_args(all.take(i as int)),
        decreases envs@.len() - i,
    {
        let ghost so_far = text::texts(args@);
        let mut s = envs[i].0.clone();
        s.append("=");
        s.append(envs[i].1.as_str());
        add_pair(args, "-e", s.as_str());
        proof {
            let one = seq!["-e"@, all[i as int].0 + "="@ + all[i as int].1];
            assert(all.take(i + 1).drop_last() =~= all.take(i as int));
            assert(so_far + one =~= before + (env_args(all.take(i as int)) + one));
        }
        i += 1;
    }
    proof {
        assert(all.take(i as int) =~= all);
    }
}

// ---------------------------------------------------------------------------
// The container
// ---------------------------------------------------------------------------

/// A sandbox whose commands run in containers, one for each session.
pub struct DockerSandbox {
    pub runtime: ContainerRuntime,
    pub config: SandboxConfig,
    pub mount_dir: String,
    pub extra_mounts: Vec<ExtraMount>,
}

/// A sandbox whose commands run in containers.
pub struct DockerView {
    pub runtime: ContainerRuntime,
    pub config: SandboxConfigView,
    pub mount_dir: Seq<char>,
    pub extra_mounts: Seq<ExtraMountView>,
}

impl View for DockerSandbox {
    type V = DockerView;

    open spec fn view(&self) -> DockerView {
        DockerView {
            runtime: self.runtime,
            config: self.config@,
            mount_dir: self.mount_dir@,
            extra_mounts: mount_views(self.extra_mounts@),
        }
    }
}

impl DockerView {
    /// The name of a session's container.
    pub open spec fn container(self, session_key: Seq<char>) -> Seq<char> {
        self.config.container_prefix + "-"@ + sanitized(session_key)
    }

    /// The arguments that ask whether a session's container is running.
    pub open spec fn inspect(self, session_key: Seq<char>) -> Seq<Seq<char>> {
        seq!["inspect"@, "--format"@, "{{.State.Running}}"@, self.container(session_key)]
    }

    /// The arguments that start a session's container.
    pub open spec fn start(self, session_key: Seq<char>) -> Seq<Seq<char>> {
        seq!["run"@, "-d"@, "--name"@, self.container(session_key)] + security_arguments(
            self.config,
        ) + network_arguments(self.config) + resource_arguments(self.config) + mount_args(
            self.mount_dir,
            "rw"@,
        ) + extra_mount_args(self.extra_mounts) + seq![
            self.config.image,
            "sleep"@,
            "infinity"@,
        ]
    }

    /// The arguments that run a command in a session's container.
    pub open spec fn enter(
        self,
        session_key: Seq<char>,
        command: Seq<char>,
        opts: ExecOptionsView,
    ) -> Seq<Seq<char>> {
        seq!["exec"@] + option_args("-w"@, opts.working_dir) + env_file_args(opts.env_files)
            + env_args(opts.envs) + seq![
            self.container(session_key),
            "sh"@,
            "-c"@,
            command,
        ]
    }
}

impl DockerSandbox {
    pub fn new(
        runtime: ContainerRuntime,
        config: SandboxConfig,
        mount_dir: String,
        extra_mounts: Vec<ExtraMount>,
    ) -> (sandbox: Self)
        ensures
            sandbox@ == (DockerView {
                runtime,
                config: config@,
                mount_dir: mount_dir@,
                extra_mounts: mount_views(extra_mounts@),
            }),
    {
        DockerSandbox { runtime, config, mount_dir, extra_mounts }
    }

    /// The name of a session's container.
    pub fn container_name(&self, session_key: &str) -> (name: String)
        ensures
            name@ == self@.container(session_key@),
    {
        let mut name = self.config.container_prefix.clone();
        name.append("-");
        name.append(sanitize_segment(session_key).as_str());
        name
    }

    /// The arguments that limit what a container uses up.
    pub fn resource_args(&self) -> (args: Vec<String>)
        ensures
            text::texts(args@) == resource_arguments(self@.config),
    {
        let mut args: Vec<String> = Vec::new();
        let pids: Option<String> = match self.config.pids_limit {
            Some(pids) => Some(text::decimal_text(pids as u64)),
            None => None,
        };
        proof {
            assert(text::texts(args@) + option_args("--memory"@, self@.config.memory_limit)
                =~= option_args("--memory"@, self@.config.memory_limit));
        }
        add_option(&mut args, "--memory", &self.config.memory_limit);
        add_option(&mut args, "--cpus", &self.config.cpu_quota);
        add_option(&mut args, "--pids-limit", &pids);
        args
    }

    /// The arguments that hold a container to its security profile.
    pub fn security_args(&self) -> (args: Vec<String>)
        ensures
            text::texts(args@) == security_arguments(self@.config),
    {
        let mut args: Vec<String> = Vec::new();
        match self.config.security_profile {
            SecurityProfile::Hardened => {
                add_pair(&mut args, "--cap-drop", "ALL");
                add_pair(&mut args, "--security-opt", "no-new-privileges");
                proof {
                    assert(text::texts(args@) =~= seq![
                        "--cap-drop"@,
                        "ALL"@,
                        "--security-opt"@,
                        "no-new-privileges"@,
                    ]);
                }
                add_capabilities(&mut args, &self.config.cap_add);
            },
            SecurityProfile::Standard => {
                add_capabilities(&mut args, &self.config.cap_add);
                proof {
                    assert(text::texts(args@) =~= capability_args(self@.config.cap_add));
                }
            },
            SecurityProfile::Privileged => {
                add_arg(&mut args, "--privileged");
                proof {
                    assert(text::texts(args@) =~= seq!["--privileged"@]);
                }
            },
        }
        args
    }

    /// The arguments that ask whether a session's container is running.
    pub fn inspect_args(&self, session_key: &str) -> (args: Vec<String>)
        ensures
            text::texts(args@) == self@.inspect(session_key@),
    {
        let mut args: Vec<String> = Vec::new();
        add_arg(&mut args, "inspect");
        add_pair(&mut args, "--format", "{{.State.Running}}");
        add_arg(&mut args, self.container_name(session_key).as_str());
        proof {
            assert(text::texts(args@) =~= self@.inspect(session_key@));
        }
        args
    }

    /// The arguments that start a session's container.
    pub fn run_args(&self, session_key: &str) -> (args: Vec<String>)
        ensures
            text::texts(args@) == self@.start(session_key@),
    {
        let name = self.container_name(session_key);
        let mut args: Vec<String> = Vec::new();
        add_pair(&mut args, "run", "-d");
        add_pair(&mut args, "--name", name.as_str());
        proof {
            assert(text::texts(args@) =~= seq!["run"@, "-d"@, "--name"@, name@]);
        }
        add_all(&mut args, &self.security_args());
        if self.config.no_network {
            let ghost before = text::texts(args@);
            add_arg(&mut args, "--network=none");
            proof {
                assert(text::texts(args@) =~= before + network_arguments(self@.config));
            }
        } else {
            proof {
                assert(text::texts(args@) =~= text::texts(args@) + network_arguments(self@.config));
            }
        }
        add_all(&mut args, &self.resource_args());
        add_mount(&mut args, self.mount_dir.as_str(), "rw");
        add_extra_mounts(&mut args, &self.extra_mounts);
        let ghost before = text::texts(args@);
        add_arg(&mut args, self.config.image.as_str());
        add_pair(&mut args, "sleep", "infinity");
        proof {
            assert(text::texts(args@) =~= before + seq![
                self@.config.image,
                "sleep"@,
                "infinity"@,
            ]);
        }
        args
    }

    /// The arguments that run a command in a session's container.
    pub fn exec_args(&self, session_key: &str, command: &str, opts: &SandboxExecOptions) -> (args:
        Vec<String>)
        ensures
            text::texts(args@) == self@.enter(session_key@, command@, opts@),
    {
        let name = self.container_name(session_key);
        let mut args: Vec<String> = Vec::new();
        add_arg(&mut args, "exec");
        proof {
            assert(text::texts(args@) =~= seq!["exec"@]);
        }
        add_option(&mut args, "-w", &opts.working_dir);
        add_env_files(&mut args, &opts.env_files);
        add_envs(&mut args, &opts.envs);
        let ghost before = text::texts(args@);
        add_pair(&mut args, name.as_str(), "sh");
        add_pair(&mut args, "-c", command);
        proof {
            assert(text::texts(args@) =~= before + seq![name@, "sh"@, "-c"@, command@]);
        }
        args
    }
}

// ---------------------------------------------------------------------------
// Answers
// ---------------------------------------------------------------------------

/// The answer to the question whether a container is running says that it is.
pub open spec fn says_running(outcome: CommandOutcome) -> bool {
    match outcome {
        CommandOutcome::NotRun => false,
        CommandOutcome::Exited { success, stdout, stderr } => success && text::trim(
            text::utf8_lossy(stdout@),
        ) == "true"@,
    }
}

/// Whether the answer says that a container is running.
pub fn is_running(outcome: &CommandOutcome) -> (running: bool)
    ensures
        running == says_running(*outcome),
{
    match outcome {
        CommandOutcome::NotRun => false,
        CommandOutcome::Exited { success, stdout, stderr } => {
            let answer = text::trimmed(text::decode_lossy(stdout.as_slice()).as_str());
            *success && text::same_text(answer.as_str(), "true")
        },
    }
}

/// Why a container did not start, if it did not.
pub open spec fn start_error(runtime: ContainerRuntime, outcome: CommandOutcome) -> Option<
    Seq<char>,
> {
    match outcome {
        CommandOutcome::NotRun => Some("failed to run "@ + runtime.name()),
        CommandOutcome::Exited { success, stdout, stderr } => if success {
            None
        } else {
            Some(runtime.name() + " run failed: "@ + text::trim(text::utf8_lossy(stderr@)))
        },
    }
}

/// Says why a container did not start, if it did not.
pub fn started(runtime: ContainerRuntime, outcome: &CommandOutcome) -> (result: Result<(), String>)
    ensures
        match result {
            Ok(_) => start_error(runtime, *outcome) is None,
            Err(e) => start_error(runtime, *outcome) == Some(e@),
        },
{
    match outcome {
        CommandOutcome::NotRun => {
            let mut s = "failed to run ".to_string();
            s.append(runtime.cli());
            Err(s)
        },
        CommandOutcome::Exited { success, stdout, stderr } => if *success {
            Ok(())
        } else {
            let reason = text::trimmed(text::decode_lossy(stderr.as_slice()).as_str());
            let mut s = runtime.cli().to_string();
            s.append(" run failed: ");
            s.append(reason.as_str());
            Err(s)
        },
    }
}

/// What a command in a container comes to.
pub open spec fn container_result(
    runtime: ContainerRuntime,
    outcome: ExecOutcome,
    timeout: Duration,
) -> Result<ExecResultView, Seq<char>> {
    match outcome {
        ExecOutcome::NotStarted => Err("failed to spawn "@ + runtime.name() + " exec"@),
        ExecOutcome::Exited { code, stdout, stderr } => Ok(
            process::left_behind(code, stdout@, stderr@),
        ),
        ExecOutcome::Failed(e) => Err(runtime.name() + " exec failed: "@ + e@),
        ExecOutcome::TimedOut => Err(
            runtime.name() + " exec timed out after "@ + text::decimal(timeout.secs as nat)
                + " seconds"@,
        ),
    }
}

/// Says what a command in a container came to.
pub fn finish_container_command(
    runtime: ContainerRuntime,
    outcome: &ExecOutcome,
    timeout: Duration,
) -> (result: Result<SandboxExecResult, String>)
    ensures
        result matches Ok(r) ==> container_result(runtime, *outcome, timeout) == Ok::<
            ExecResultView,
            Seq<char>,
        >(r@),
        result matches Err(e) ==> container_result(runtime, *outcome, timeout) == Err::<
            ExecResultView,
            Seq<char>,
        >(e@),
{
    match outcome {
        ExecOutcome::NotStarted => {
            let mut s = "failed to spawn ".to_string();
            s.append(runtime.cli());
            s.append(" exec");
            Err(s)
        },
        ExecOutcome::Exited { code, stdout, stderr } => Ok(process::collect(*code, stdout, stderr)),
        ExecOutcome::Failed(e) => {
            let mut s = runtime.cli().to_string();
            s.append(" exec failed: ");
            s.append(e.as_str());
            Err(s)
        },
        ExecOutcome::TimedOut => {
            let mut s = runtime.cli().to_string();
            s.append(" exec timed out after ");
            s.append(text::decimal_text(timeout.as_secs()).as_str());
            s.append(" seconds");
            Err(s)
        },
    }
}

// ---------------------------------------------------------------------------
// Laws
// ---------------------------------------------------------------------------

/// What has been made fit for a container's name is not empty, and holds only small letters,
/// digits, dashes, underscores and dots.
pub proof fn law_sanitized_text_is_plain(input: Seq<char>)
    ensures
        sanitized(input).len() > 0,
        forall|i: int|
            0 <= i < sanitized(input).len() ==> plain(#[trigger] sanitized(input)[i]) && !('A'
                <= sanitized(input)[i] && sanitized(input)[i] <= 'Z'),
{
    reveal_strlit("default");
}

/// Making a text fit for a container's name twice is doing it once.
pub proof fn law_sanitizing_is_idempotent(input: Seq<char>)
    ensures
        sanitized(sanitized(input)) == sanitized(input),
{
    law_sanitized_text_is_plain(input);
    assert(sanitized(sanitized(input)) =~= sanitized(input));
}

/// The same container is asked after, started and entered for a session.
pub proof fn law_one_container_per_session(
    sandbox: DockerView,
    session_key: Seq<char>,
    command: Seq<char>,
    opts: ExecOptionsView,
)
    ensures
        sandbox.inspect(session_key).last() == sandbox.container(session_key),
        sandbox.start(session_key)[3] == sandbox.container(session_key),
        sandbox.enter(session_key, command, opts)[sandbox.enter(session_key, command, opts).len()
            - 4] == sandbox.container(session_key),
{
}

/// A command reaches the container's shell as it is, as one argument.
pub proof fn law_command_is_passed_whole(
    sandbox: DockerView,
    session_key: Seq<char>,
    command: Seq<char>,
    opts: ExecOptionsView,
)
    ensures
        ({
            let args = sandbox.enter(session_key, command, opts);
            args.len() >= 5 && args.skip(args.len() - 3) == seq!["sh"@, "-c"@, command]
        }),
{
    let args = sandbox.enter(session_key, command, opts);
    assert(args.skip(args.len() - 3) =~= seq!["sh"@, "-c"@, command]);
}

/// A hardened container starts without capabilities and cannot gain privileges.
pub proof fn law_hardened_drops_everything(sandbox: DockerView, session_key: Seq<char>)
    requires
        sandbox.config.security_profile == SecurityProfile::Hardened,
    ensures
        sandbox.start(session_key).subrange(4, 8) == seq![
            "--cap-drop"@,
            "ALL"@,
            "--security-opt"@,
            "no-new-privileges"@,
        ],
{
    assert(sandbox.start(session_key).subrange(4, 8) =~= seq![
        "--cap-drop"@,
        "ALL"@,
        "--security-opt"@,
        "no-new-privileges"@,
    ]);
}

/// The option at place `i` in a list of options with values.
pub open spec fn pair_at(
    args: Seq<Seq<char>>,
    i: int,
    option: Seq<char>,
    value: Seq<char>,
) -> bool {
    args[2 * i] == option && args[2 * i + 1] == value
}

/// Every capability is added by an argument of its own.
pub proof fn law_capabilities_are_named(capabilities: Seq<Seq<char>>)
    ensures
        capability_args(capabilities).len() == 2 * capabilities.len(),
        forall|i: int|
            0 <= i < capabilities.len() ==> pair_at(
                capability_args(capabilities),
                i,
                "--cap-add"@,
                #[trigger] capabilities[i],
            ),
    decreases capabilities.len(),
{
    if capabilities.len() > 0 {
        let rest = capabilities.drop_last();
        law_capabilities_are_named(rest);
        assert forall|i: int| 0 <= i < capabilities.len() implies pair_at(
            capability_args(capabilities),
            i,
            "--cap-add"@,
            #[trigger] capabilities[i],
        ) by {
            if i < rest.len() {
                assert(pair_at(capability_args(rest), i, "--cap-add"@, rest[i]));
            }
        }
    }
}

/// A container is privileged where the profile says so, and nowhere else. (A capability by the
/// name of the option would be another matter.)
pub proof fn law_privileged_only_by_profile(config: SandboxConfigView)
    requires
        !config.cap_add.contains("--privileged"@),
    ensures
        security_arguments(config).contains("--privileged"@) <==> config.security_profile
            == SecurityProfile::Privileged,
{
    let args = security_arguments(config);
    if config.security_profile == SecurityProfile::Privileged {
        assert(args[0] == "--privileged"@);
    } else {
        law_capabilities_are_named(config.cap_add);
        reveal_strlit("--privileged");
        reveal_strlit("--cap-drop");
        reveal_strlit("--cap-add");
        reveal_strlit("ALL");
        reveal_strlit("--security-opt");
        reveal_strlit("no-new-privileges");
        let caps = capability_args(config.cap_add);
        assert("--privileged"@.len() == 12 && "--cap-drop"@.len() == 10 && "ALL"@.len() == 3);
        assert("--security-opt"@.len() == 14 && "no-new-privileges"@.len() == 17);
        assert("--cap-add"@.len() == 9);
        assert forall|i: int| 0 <= i < caps.len() implies #[trigger] caps[i] != "--privileged"@ by {
            let k = i / 2;
            assert(pair_at(caps, k, "--cap-add"@, config.cap_add[k]));
            assert(config.cap_add.contains(config.cap_add[k]));
        }
        assert forall|i: int| 0 <= i < args.len() implies #[trigger] args[i] != "--privileged"@ by {
            if config.security_profile == SecurityProfile::Hardened {
                if i >= 4 {
                    assert(args[i] == caps[i - 4]);
                }
            }
        }
    }
}

/// A container that is to have no network is started without one: the option stands among
/// those of the runtime, before the image.
pub proof fn law_no_network_is_kept(sandbox: DockerView, session_key: Seq<char>)
    requires
        sandbox.config.no_network,
    ensures
        ({
            let at = 4 + security_arguments(sandbox.config).len();
            at < sandbox.start(session_key).len() - 3 && sandbox.start(session_key)[at as int]
                == "--network=none"@
        }),
{
}

/// Every further directory is mounted under its own path, and one that is read-only is mounted
/// read-only.
pub proof fn law_extra_mounts_keep_their_mode(mounts: Seq<ExtraMountView>)
    ensures
        extra_mount_args(mounts).len() == 2 * mounts.len(),
        forall|i: int|
            0 <= i < mounts.len() ==> pair_at(
                extra_mount_args(mounts),
                i,
                "-v"@,
                (#[trigger] mounts[i]).host_path + ":"@ + mounts[i].host_path + (
                if mounts[i].read_only {
                    ":ro"@
                } else {
                    ":rw"@
                }),
            ),
    decreases mounts.len(),
{
    if mounts.len() > 0 {
        let rest = mounts.drop_last();
        law_extra_mounts_keep_their_mode(rest);
        reveal_strlit(":");
        reveal_strlit("ro");
        reveal_strlit("rw");
        reveal_strlit(":ro");
        reveal_strlit(":rw");
        assert forall|i: int| 0 <= i < mounts.len() implies pair_at(
            extra_mount_args(mounts),
            i,
            "-v"@,
            (#[trigger] mounts[i]).host_path + ":"@ + mounts[i].host_path + (
            if mounts[i].read_only {
                ":ro"@
            } else {
                ":rw"@
            }),
        ) by {
            if i < rest.len() {
                assert(rest[i] == mounts[i]);
            } else {
                let path = mounts[i].host_path;
                assert(path + ":"@ + path + ":"@ + "ro"@ =~= path + ":"@ + path + ":ro"@);
                assert(path + ":"@ + path + ":"@ + "rw"@ =~= path + ":"@ + path + ":rw"@);
            }
        }
    }
}

/// Limits that are not set add nothing to the arguments.
pub proof fn law_unset_limits_add_nothing(config: SandboxConfigView)
    requires
        config.memory_limit is None,
        config.cpu_quota is None,
        config.pids_limit is None,
    ensures
        resource_arguments(config) == Seq::<Seq<char>>::empty(),
{
    assert(resource_arguments(config) =~= Seq::<Seq<char>>::empty());
}

// ---------------------------------------------------------------------------
// Arguments, one by one
// ---------------------------------------------------------------------------

/// A session's text is taken into a container's name character by character: small letters,
/// digits, dashes, underscores and dots stay, capitals are made small, and anything else becomes
/// a dash. Only the empty text is replaced.
pub proof fn law_names_are_sanitized_by_character(input: Seq<char>, i: int)
    ensures
        input.len() == 0 ==> sanitized(input) == "default"@,
        input.len() > 0 ==> sanitized(input).len() == input.len(),
        0 <= i < input.len() ==> {
            let c = input[i];
            let out = sanitized(input)[i];
            &&& 'a' <= c && c <= 'z' ==> out == c
            &&& '0' <= c && c <= '9' ==> out == c
            &&& c == '-' || c == '_' || c == '.' ==> out == c
            &&& 'A' <= c && c <= 'Z' ==> out as int == c as int + 32
            &&& !('a' <= c && c <= 'z') && !('0' <= c && c <= '9') && !('A' <= c && c <= 'Z') && c
                != '_' && c != '.' ==> out == '-'
        },
{
}

/// A container is named by the prefix, a dash and the session.
pub proof fn law_containers_are_named_by_prefix_and_session(
    sandbox: DockerView,
    session_key: Seq<char>,
)
    ensures
        sandbox.container(session_key) == sandbox.config.container_prefix.push('-') + sanitized(
            session_key,
        ),
        sandbox.inspect(session_key).len() == 4,
        sandbox.inspect(session_key)[0] == "inspect"@,
        sandbox.inspect(session_key)[1] == "--format"@,
        sandbox.inspect(session_key)[2] == "{{.State.Running}}"@,
        sandbox.inspect(session_key)[3] == sandbox.container(session_key),
{
    reveal_strlit("-");
    let prefix = sandbox.config.container_prefix;
    assert(prefix + "-"@ + sanitized(session_key) =~= prefix.push('-') + sanitized(session_key));
}

/// How many arguments a security profile adds.
pub open spec fn profile_count(config: SandboxConfigView) -> int {
    match config.security_profile {
        SecurityProfile::Hardened => 4int + 2 * config.cap_add.len(),
        SecurityProfile::Standard => 2int * config.cap_add.len(),
        SecurityProfile::Privileged => 1,
    }
}

/// How many arguments it takes to cut a container off from the network.
pub open spec fn network_count(config: SandboxConfigView) -> int {
    if config.no_network {
        1
    } else {
        0
    }
}

/// How many arguments the limits that are set add.
pub open spec fn limit_count(config: SandboxConfigView) -> int {
    (if config.memory_limit is Some {
        2int
    } else {
        0
    }) + (if config.cpu_quota is Some {
        2int
    } else {
        0
    }) + (if config.pids_limit is Some {
        2int
    } else {
        0
    })
}

/// Every part of the arguments that start a container is there in full, whatever the other parts
/// are: two for each further directory and each capability, and two for each limit.
pub proof fn law_start_holds_every_part(sandbox: DockerView, session_key: Seq<char>)
    ensures
        security_arguments(sandbox.config).len() == profile_count(sandbox.config),
        network_arguments(sandbox.config).len() == network_count(sandbox.config),
        resource_arguments(sandbox.config).len() == limit_count(sandbox.config),
        extra_mount_args(sandbox.extra_mounts).len() == 2 * sandbox.extra_mounts.len(),
        sandbox.start(session_key).len() == 4 + profile_count(sandbox.config) + network_count(
            sandbox.config,
        ) + limit_count(sandbox.config) + 2 + 2 * sandbox.extra_mounts.len() + 3,
{
    law_capabilities_are_named(sandbox.config.cap_add);
    law_extra_mounts_keep_their_mode(sandbox.extra_mounts);
}

/// A container is started in the background under its name, from its image, and sleeps. It is
/// given the arguments of its profile, of the network, of the limits and of the directories, and
/// no others.
pub proof fn law_a_container_is_started_from_its_image(
    sandbox: DockerView,
    session_key: Seq<char>,
)
    ensures
        ({
            let args = sandbox.start(session_key);
            let n = args.len();
            &&& n == 9 + profile_count(sandbox.config) + network_count(sandbox.config)
                + limit_count(sandbox.config) + 2 * sandbox.extra_mounts.len()
            &&& args[0] == "run"@ && args[1] == "-d"@
            &&& args[2] == "--name"@ && args[3] == sandbox.container(session_key)
            &&& args[n - 3] == sandbox.config.image
            &&& args[n - 2] == "sleep"@ && args[n - 1] == "infinity"@
        }),
{
    law_start_holds_every_part(sandbox, session_key);
}

/// Whatever the other settings are, every further directory is mounted: its arguments stand
/// right before the image, in order, each under its own path and in its own mode.
pub proof fn law_every_further_directory_is_mounted(
    sandbox: DockerView,
    session_key: Seq<char>,
    i: int,
)
    requires
        0 <= i < sandbox.extra_mounts.len(),
    ensures
        ({
            let args = sandbox.start(session_key);
            let mount = sandbox.extra_mounts[i];
            let at = args.len() - 3 - 2 * sandbox.extra_mounts.len() + 2 * i;
            &&& at >= 6
            &&& args[at] == "-v"@
            &&& mount.read_only ==> args[at + 1] == mount.host_path + ":"@ + mount.host_path
                + ":ro"@
            &&& !mount.read_only ==> args[at + 1] == mount.host_path + ":"@ + mount.host_path
                + ":rw"@
        }),
{
    law_start_holds_every_part(sandbox, session_key);
    law_extra_mounts_keep_their_mode(sandbox.extra_mounts);
    let args = sandbox.start(session_key);
    let mounts = extra_mount_args(sandbox.extra_mounts);
    let mount = sandbox.extra_mounts[i];
    let at = args.len() - 3 - 2 * sandbox.extra_mounts.len() + 2 * i;
    assert(pair_at(
        mounts,
        i,
        "-v"@,
        mount.host_path + ":"@ + mount.host_path + (if mount.read_only {
            ":ro"@
        } else {
            ":rw"@
        }),
    ));
    assert(args[at] == mounts[2 * i]);
    assert(args[at + 1] == mounts[2 * i + 1]);
}

/// Two sandboxes that differ in anything but the further directories mount these alike: the same
/// arguments stand before the image.
pub proof fn law_other_settings_do_not_touch_the_mounts(
    a: DockerView,
    b: DockerView,
    session_a: Seq<char>,
    session_b: Seq<char>,
)
    requires
        a.extra_mounts == b.extra_mounts,
    ensures
        ({
            let m = 2 * a.extra_mounts.len();
            let x = a.start(session_a);
            let y = b.start(session_b);
            x.subrange(x.len() - 3 - m, x.len() - 3) == y.subrange(
                y.len() - 3 - m,
                y.len() - 3,
            )
        }),
{
    law_start_holds_every_part(a, session_a);
    law_start_holds_every_part(b, session_b);
    let m = 2 * a.extra_mounts.len();
    let x = a.start(session_a);
    let y = b.start(session_b);
    assert(x.subrange(x.len() - 3 - m, x.len() - 3) =~= extra_mount_args(a.extra_mounts));
    assert(y.subrange(y.len() - 3 - m, y.len() - 3) =~= extra_mount_args(b.extra_mounts));
}

/// Whatever the other settings are, the working directory is mounted under its own path, to read
/// and to write, before the further ones.
pub proof fn law_the_working_directory_is_mounted(sandbox: DockerView, session_key: Seq<char>)
    ensures
        ({
            let args = sandbox.start(session_key);
            let at = args.len() - 3 - 2 * sandbox.extra_mounts.len() - 2;
            &&& at >= 4
            &&& args[at] == "-v"@
            &&& args[at + 1] == sandbox.mount_dir + ":"@ + sandbox.mount_dir + ":rw"@
        }),
{
    law_start_holds_every_part(sandbox, session_key);
    reveal_strlit(":");
    reveal_strlit("rw");
    reveal_strlit(":rw");
    let dir = sandbox.mount_dir;
    assert(dir + ":"@ + dir + ":"@ + "rw"@ =~= dir + ":"@ + dir + ":rw"@);
    let args = sandbox.start(session_key);
    let at = args.len() - 3 - 2 * sandbox.extra_mounts.len() - 2;
    assert(args[at] == mount_args(dir, "rw"@)[0]);
    assert(args[at + 1] == mount_args(dir, "rw"@)[1]);
}

/// Every capability of the configuration is given to a container that is not privileged; a
/// hardened one drops all others first, and a privileged one is just that.
pub proof fn law_capabilities_reach_the_container(
    sandbox: DockerView,
    session_key: Seq<char>,
    i: int,
)
    ensures
        ({
            let args = sandbox.start(session_key);
            let caps = sandbox.config.cap_add;
            match sandbox.config.security_profile {
                SecurityProfile::Hardened => {
                    &&& args[4] == "--cap-drop"@ && args[5] == "ALL"@
                    &&& args[6] == "--security-opt"@ && args[7] == "no-new-privileges"@
                    &&& 0 <= i < caps.len() ==> args[8 + 2 * i] == "--cap-add"@ && args[9 + 2 * i]
                        == caps[i]
                },
                SecurityProfile::Standard => 0 <= i < caps.len() ==> args[4 + 2 * i]
                    == "--cap-add"@ && args[5 + 2 * i] == caps[i],
                SecurityProfile::Privileged => args[4] == "--privileged"@,
            }
        }),
{
    law_start_holds_every_part(sandbox, session_key);
    let caps = sandbox.config.cap_add;
    law_capabilities_are_named(caps);
    let args = sandbox.start(session_key);
    let security = security_arguments(sandbox.config);
    assert forall|k: int| 0 <= k < security.len() implies args[4 + k]
        == #[trigger] security[k] by {}
    if 0 <= i < caps.len() {
        assert(pair_at(capability_args(caps), i, "--cap-add"@, caps[i]));
        match sandbox.config.security_profile {
            SecurityProfile::Hardened => {
                assert(security[4 + 2 * i] == capability_args(caps)[2 * i]);
                assert(security[5 + 2 * i] == capability_args(caps)[2 * i + 1]);
            },
            SecurityProfile::Standard => {
                assert(security[2 * i] == capability_args(caps)[2 * i]);
                assert(security[2 * i + 1] == capability_args(caps)[2 * i + 1]);
            },
            SecurityProfile::Privileged => {},
        }
    }
    match sandbox.config.security_profile {
        SecurityProfile::Hardened => {
            assert(args[4] == security[0] && args[5] == security[1]);
            assert(args[6] == security[2] && args[7] == security[3]);
        },
        SecurityProfile::Standard => {},
        SecurityProfile::Privileged => {
            assert(args[4] == security[0]);
        },
    }
}

/// A container is cut off from the network where the configuration says so, whatever else it
/// says, and every limit that is set reaches it with its value.
pub proof fn law_network_and_limits_reach_the_container(
    sandbox: DockerView,
    session_key: Seq<char>,
)
    ensures
        ({
            let args = sandbox.start(session_key);
            let config = sandbox.config;
            let network = 4 + profile_count(config);
            let memory = network + network_count(config);
            let cpus = if config.memory_limit is Some {
                memory + 2
            } else {
                memory
            };
            let pids = if config.cpu_quota is Some {
                cpus + 2
            } else {
                cpus
            };
            &&& config.no_network ==> args[network] == "--network=none"@
            &&& config.memory_limit is Some ==> args[memory] == "--memory"@ && args[memory + 1]
                == config.memory_limit->Some_0
            &&& config.cpu_quota is Some ==> args[cpus] == "--cpus"@ && args[cpus + 1]
                == config.cpu_quota->Some_0
            &&& config.pids_limit is Some ==> args[pids] == "--pids-limit"@ && args[pids + 1]
                == text::decimal(config.pids_limit->Some_0 as nat)
        }),
{
    law_start_holds_every_part(sandbox, session_key);
    let args = sandbox.start(session_key);
    let config = sandbox.config;
    let at = 4 + profile_count(config) + network_count(config);
    let limits = resource_arguments(config);
    assert forall|k: int| 0 <= k < limits.len() implies args[at + k] == #[trigger] limits[k] by {}
    if config.no_network {
        assert(args[4 + profile_count(config)] == network_arguments(config)[0]);
    }
    let a = if config.memory_limit is Some {
        2int
    } else {
        0int
    };
    let b = if config.cpu_quota is Some {
        a + 2
    } else {
        a
    };
    if config.memory_limit is Some {
        assert(limits[0] == "--memory"@ && limits[1] == config.memory_limit->Some_0);
    }
    if config.cpu_quota is Some {
        assert(limits[a] == "--cpus"@ && limits[a + 1] == config.cpu_quota->Some_0);
    }
    if config.pids_limit is Some {
        assert(limits[b] == "--pids-limit"@);
        assert(limits[b + 1] == text::decimal(config.pids_limit->Some_0 as nat));
    }
}

/// Every file of variables is named by an argument of its own, and every variable is set by one.
pub proof fn law_variables_are_named(
    files: Seq<Seq<char>>,
    envs: Seq<(Seq<char>, Seq<char>)>,
    i: int,
)
    ensures
        env_file_args(files).len() == 2 * files.len(),
        env_args(envs).len() == 2 * envs.len(),
        0 <= i < files.len() ==> env_file_args(files)[2 * i] == "--env-file"@ && env_file_args(
            files,
        )[2 * i + 1] == files[i],
        0 <= i < envs.len() ==> env_args(envs)[2 * i] == "-e"@ && env_args(envs)[2 * i + 1]
            == envs[i].0.push('=') + envs[i].1,
    decreases files.len() + envs.len(),
{
    reveal_strlit("=");
    if files.len() > 0 {
        law_variables_are_named(files.drop_last(), envs, i);
    } else if envs.len() > 0 {
        law_variables_are_named(files, envs.drop_last(), i);
    }
    if envs.len() > 0 {
        law_variables_are_named(Seq::empty(), envs.drop_last(), i);
        let last = envs[envs.len() - 1];
        assert(last.0 + "="@ + last.1 =~= last.0.push('=') + last.1);
    }
}

/// A command is run in its working directory, where it has one, with all files of variables and
/// all variables, and with nothing else.
pub proof fn law_a_command_runs_with_its_options(
    sandbox: DockerView,
    session_key: Seq<char>,
    command: Seq<char>,
    opts: ExecOptionsView,
    i: int,
)
    ensures
        ({
            let args = sandbox.enter(session_key, command, opts);
            let n = args.len();
            let files = if opts.working_dir is Some {
                3nat
            } else {
                1nat
            };
            let envs = files + 2 * opts.env_files.len();
            &&& n == envs + 2 * opts.envs.len() + 4
            &&& args[0] == "exec"@
            &&& opts.working_dir is Some ==> args[1] == "-w"@ && args[2]
                == opts.working_dir->Some_0
            &&& 0 <= i < opts.env_files.len() ==> args[files + 2 * i] == "--env-file"@
                && args[files + 2 * i + 1] == opts.env_files[i]
            &&& 0 <= i < opts.envs.len() ==> args[envs + 2 * i] == "-e"@ && args[envs + 2 * i + 1]
                == opts.envs[i].0.push('=') + opts.envs[i].1
            &&& args[n - 4] == sandbox.container(session_key)
            &&& args[n - 3] == "sh"@ && args[n - 2] == "-c"@ && args[n - 1] == command
        }),
{
    law_variables_are_named(opts.env_files, opts.envs, i);
    let args = sandbox.enter(session_key, command, opts);
    let files = if opts.working_dir is Some {
        3nat
    } else {
        1nat
    };
    let envs = files + 2 * opts.env_files.len();
    if opts.working_dir is Some {
        assert(args[1] == "-w"@ && args[2] == opts.working_dir->Some_0);
    }
    if 0 <= i < opts.env_files.len() {
        assert(args[files + 2 * i] == env_file_args(opts.env_files)[2 * i]);
        assert(args[files + 2 * i + 1] == env_file_args(opts.env_files)[2 * i + 1]);
    }
    if 0 <= i < opts.envs.len() {
        assert(args[envs + 2 * i] == env_args(opts.envs)[2 * i]);
        assert(args[envs + 2 * i + 1] == env_args(opts.envs)[2 * i + 1]);
    }
}

/// A container runs exactly where the question was answered, with success, by the word `true`.
pub proof fn law_only_true_means_running(stdout: Vec<u8>, stderr: Vec<u8>)
    ensures
        !says_running(CommandOutcome::NotRun),
        !says_running(CommandOutcome::Exited { success: false, stdout, stderr }),
        says_running(CommandOutcome::Exited { success: true, stdout, stderr }) <==> text::trim(
            text::utf8_lossy(stdout@),
        ) == "true"@,
{
}

/// A container has started exactly where the runtime says so; else what the runtime printed, or
/// that it could not be run, is the error.
pub proof fn law_starts_fail_with_what_was_printed(
    runtime: ContainerRuntime,
    stdout: Vec<u8>,
    stderr: Vec<u8>,
)
    ensures
        start_error(runtime, CommandOutcome::Exited { success: true, stdout, stderr }) is None,
        start_error(runtime, CommandOutcome::Exited { success: false, stdout, stderr }) == Some(
            runtime.name() + " run failed: "@ + text::trim(text::utf8_lossy(stderr@)),
        ),
        start_error(runtime, CommandOutcome::NotRun) == Some("failed to run "@ + runtime.name()),
{
}

/// A command that ended is no error, whatever its code; one that did not end is, and the error
/// says why.
pub proof fn law_commands_that_end_are_no_errors(
    runtime: ContainerRuntime,
    code: Option<i32>,
    stdout: Vec<u8>,
    stderr: Vec<u8>,
    cause: String,
    timeout: Duration,
)
    ensures
        ({
            let ended = container_result(
                runtime,
                ExecOutcome::Exited { code, stdout, stderr },
                timeout,
            );
            &&& ended is Ok
            &&& ended->Ok_0.stdout == text::utf8_lossy(stdout@)
            &&& ended->Ok_0.stderr == text::utf8_lossy(stderr@)
            &&& code is Some ==> ended->Ok_0.exit_code == code->Some_0
            &&& code is None ==> ended->Ok_0.exit_code == -1
        }),
        container_result(runtime, ExecOutcome::NotStarted, timeout) == Err::<
            ExecResultView,
            Seq<char>,
        >("failed to spawn "@ + runtime.name() + " exec"@),
        container_result(runtime, ExecOutcome::Failed(cause), timeout) == Err::<
            ExecResultView,
            Seq<char>,
        >(runtime.name() + " exec failed: "@ + cause@),
        container_result(runtime, ExecOutcome::TimedOut, timeout) == Err::<
            ExecResultView,
            Seq<char>,
        >(
            runtime.name() + " exec timed out after "@ + text::decimal(timeout.secs as nat)
                + " seconds"@,
        ),
{
}

/// A sandbox stands for its fields.
pub proof fn law_a_sandbox_stands_for_its_fields(sandbox: DockerSandbox, i: int)
    ensures
        sandbox@.runtime == sandbox.runtime,
        sandbox@.config == sandbox.config@,
        sandbox@.mount_dir == sandbox.mount_dir@,
        sandbox@.extra_mounts.len() == sandbox.extra_mounts@.len(),
        0 <= i < sandbox.extra_mounts@.len() ==> sandbox@.extra_mounts[i].host_path
            == sandbox.extra_mounts@[i].host_path@ && sandbox@.extra_mounts[i].read_only
            == sandbox.extra_mounts@[i].read_only,
{
}

} // verus!
