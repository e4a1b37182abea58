//! Sends a command to the host or to a container, and follows it to its end.

use vstd::prelude::*;

use crate::clock::Duration;
use crate::sandbox::config::{
    ExecOptionsView, ExecResultView, ExtraMount, SandboxConfig, SandboxConfigView,
    SandboxExecOptions, SandboxExecResult, SandboxMode,
};
use crate::sandbox::docker;
use crate::sandbox::docker::{DockerSandbox, DockerView};
use crate::sandbox::host;
use crate::sandbox::process::{CommandOutcome, ExecOutcome};
use crate::sandbox::runtime;
use crate::sandbox::runtime::{AvailableRuntimes, ContainerRuntime};
use crate::text;

verus! {

// ---------------------------------------------------------------------------
// Sandboxes
// ---------------------------------------------------------------------------

/// How a container is made ready: asked after with `inspect`, and started with `start` where it
/// is not running.
pub struct ReadyPlan {
    pub runtime: ContainerRuntime,
    pub inspect: Vec<String>,
    pub start: Vec<String>,
}

/// How a container is made ready.
#[verifier::ext_equal]
pub struct ReadyView {
    pub runtime: ContainerRuntime,
    pub inspect: Seq<Seq<char>>,
    pub start: Seq<Seq<char>>,
}

impl View for ReadyPlan {
    type V = ReadyView;

    open spec fn view(&self) -> ReadyView {
        ReadyView {
            runtime: self.runtime,
            inspect: text::texts(self.inspect@),
            start: text::texts(self.start@),
        }
    }
}

/// Where a command runs.
pub enum ExecPlan {
    /// In a shell of the host.
    Host,
    /// By the runtime's program with these arguments.
    Container { runtime: ContainerRuntime, args: Vec<String> },
}

/// Where a command runs.
#[verifier::ext_equal]
pub enum ExecPlanView {
    Host,
    Container { runtime: ContainerRuntime, args: Seq<Seq<char>> },
}

impl View for ExecPlan {
    type V = ExecPlanView;

    open spec fn view(&self) -> ExecPlanView {
        match *self {
            ExecPlan::Host => ExecPlanView::Host,
            ExecPlan::Container { runtime, args } => ExecPlanView::Container {
                runtime,
                args: text::texts(args@),
            },
        }
    }
}

impl Clone for ExecPlan {
    fn clone(&self) -> (copy: Self)
        ensures
            copy@ == self@,
    {
        match self {
            ExecPlan::Host => ExecPlan::Host,
            ExecPlan::Container { runtime, args } => ExecPlan::Container {
                runtime: *runtime,
                args: text::copy_texts(args),
            },
        }
    }
}

/// A place to run commands in.
pub trait Sandbox {
    /// Its name.
    spec fn called(&self) -> Seq<char>;

    /// It keeps commands apart from the host.
    spec fn isolates(&self) -> bool;

    /// How it is made ready for a session, if there is anything to do.
    spec fn readying(&self, session_key: Seq<char>) -> Option<ReadyView>;

    /// Where a command of a session runs in it.
    spec fn executing(
        &self,
        session_key: Seq<char>,
        command: Seq<char>,
        opts: ExecOptionsView,
    ) -> ExecPlanView;

    fn backend_name(&self) -> (name: &'static str)
        ensures
            name@ == self.called(),
    ;

    /// Whether the sandbox keeps commands apart from the host. One that does not say otherwise
    /// does.
    fn is_real(&self) -> (isolated: bool)
        ensures
            self.isolates() ==> isolated,
        default_ensures
            isolated,
    {
        true
    }

    /// Says how the sandbox is made ready for a session, if there is anything to do.
    fn ensure_ready(&self, session_key: &str) -> (plan: Option<ReadyPlan>)
        ensures
            match plan {
                Some(plan) => self.readying(session_key@) == Some(plan@),
                None => self.readying(session_key@) is None,
            },
    ;

    /// Says where a command of a session runs.
    fn exec(&self, session_key: &str, command: &str, opts: &SandboxExecOptions) -> (plan: ExecPlan)
        ensures
            plan@ == self.executing(session_key@, command@, opts@),
    ;
}

/// No sandbox at all: commands run on the host.
#[derive(Clone, Copy, Debug, PartialEq, Eq, Structural)]
pub struct NoSandbox;

impl Sandbox for NoSandbox {
    open spec fn called(&self) -> Seq<char> {
        "none"@
    }

    open spec fn isolates(&self) -> bool {
        false
    }

    open spec fn readying(&self, session_key: Seq<char>) -> Option<ReadyView> {
        None
    }

    open spec fn executing(
        &self,
        session_key: Seq<char>,
        command: Seq<char>,
        opts: ExecOptionsView,
    ) -> ExecPlanView {
        ExecPlanView::Host
    }

    fn backend_name(&self) -> (name: &'static str) {
        "none"
    }

    fn is_real(&self) -> (isolated: bool)
        ensures
            !isolated,
    {
        false
    }

    fn ensure_ready(&self, session_key: &str) -> (plan: Option<ReadyPlan>) {
        None
    }

    fn exec(&self, session_key: &str, command: &str, opts: &SandboxExecOptions) -> (plan:
        ExecPlan) {
        ExecPlan::Host
    }
}

impl Sandbox for DockerSandbox {
    open spec fn called(&self) -> Seq<char> {
        self@.runtime.name()
    }

    open spec fn isolates(&self) -> bool {
        true
    }

    open spec fn readying(&self, session_key: Seq<char>) -> Option<ReadyView> {
        Some(
            ReadyView {
                runtime: self@.runtime,
                inspect: self@.inspect(session_key),
                start: self@.start(session_key),
            },
        )
    }

    open spec fn executing(
        &self,
        session_key: Seq<char>,
        command: Seq<char>,
        opts: ExecOptionsView,
    ) -> ExecPlanView {
        ExecPlanView::Container {
            runtime: self@.runtime,
            args: self@.enter(session_key, command, opts),
        }
    }

    fn backend_name(&self) -> (name: &'static str) {
        self.runtime.label()
    }

    fn ensure_ready(&self, session_key: &str) -> (plan: Option<ReadyPlan>) {
        Some(
            ReadyPlan {
                runtime: self.runtime,
                inspect: self.inspect_args(session_key),
                start: self.run_args(session_key),
            },
        )
    }

    fn exec(&self, session_key: &str, command: &str, opts: &SandboxExecOptions) -> (plan:
        ExecPlan) {
        ExecPlan::Container {
            runtime: self.runtime,
            args: self.exec_args(session_key, command, opts),
        }
    }
}

/// The sandbox of a router.
pub enum Backend {
    Container(DockerSandbox),
    Missing(NoSandbox),
}

impl Sandbox for Backend {
    open spec fn called(&self) -> Seq<char> {
        match *self {
            Backend::Container(sandbox) => sandbox.called(),
            Backend::Missing(none) => none.called(),
        }
    }

    open spec fn isolates(&self) -> bool {
        *self is Container
    }

    open spec fn readying(&self, session_key: Seq<char>) -> Option<ReadyView> {
        match *self {
            Backend::Container(sandbox) => sandbox.readying(session_key),
            Backend::Missing(none) => none.readying(session_key),
        }
    }

    open spec fn executing(
        &self,
        session_key: Seq<char>,
        command: Seq<char>,
        opts: ExecOptionsView,
    ) -> ExecPlanView {
        match *self {
            Backend::Container(sandbox) => sandbox.executing(session_key, command, opts),
            Backend::Missing(none) => none.executing(session_key, command, opts),
        }
    }

    fn backend_name(&self) -> (name: &'static str) {
        match self {
            Backend::Container(sandbox) => sandbox.backend_name(),
            Backend::Missing(none) => none.backend_name(),
        }
    }

    fn is_real(&self) -> (isolated: bool)
        ensures
            isolated == self.isolates(),
    {
        match self {
            Backend::Container(sandbox) => sandbox.is_real(),
            Backend::Missing(none) => none.is_real(),
        }
    }

    fn ensure_ready(&self, session_key: &str) -> (plan: Option<ReadyPlan>) {
        match self {
            Backend::Container(sandbox) => sandbox.ensure_ready(session_key),
            Backend::Missing(none) => none.ensure_ready(session_key),
        }
    }

    fn exec(&self, session_key: &str, command: &str, opts: &SandboxExecOptions) -> (plan:
        ExecPlan) {
        match self {
            Backend::Container(sandbox) => sandbox.exec(session_key, command, opts),
            Backend::Missing(none) => none.exec(session_key, command, opts),
        }
    }
}

// ---------------------------------------------------------------------------
// One command on its way
// ---------------------------------------------------------------------------

/// How far a command has come.
pub enum RunPhase {
    /// Its container is asked after.
    Inspecting(ReadyPlan),
    /// Its container is being started.
    Starting(ReadyPlan),
    /// It runs.
    Executing,
    /// It is over, with this result.
    Done(Result<SandboxExecResult, String>),
}

/// How far a command has come.
pub enum PhaseView {
    Inspecting(ReadyView),
    Starting(ReadyView),
    Executing,
    Done(Result<ExecResultView, Seq<char>>),
}

/// A command on its way from request to result.
pub struct SandboxRun {
    pub plan: ExecPlan,
    pub timeout: Duration,
    pub phase: RunPhase,
}

/// A command on its way from request to result.
pub struct RunView {
    pub plan: ExecPlanView,
    pub timeout: Duration,
    pub phase: PhaseView,
}

/// What a result stands for.
pub open spec fn result_view(result: Result<SandboxExecResult, String>) -> Result<
    ExecResultView,
    Seq<char>,
> {
    match result {
        Ok(r) => Ok(r@),
        Err(e) => Err(e@),
    }
}

impl View for RunPhase {
    type V = PhaseView;

    open spec fn view(&self) -> PhaseView {
        match *self {
            RunPhase::Inspecting(plan) => PhaseView::Inspecting(plan@),
            RunPhase::Starting(plan) => PhaseView::Starting(plan@),
            RunPhase::Executing => PhaseView::Executing,
            RunPhase::Done(result) => PhaseView::Done(result_view(result)),
        }
    }
}

impl View for SandboxRun {
    type V = RunView;

    open spec fn view(&self) -> RunView {
        RunView { plan: self.plan@, timeout: self.timeout, phase: self.phase@ }
    }
}

/// What has to be done next for a command.
pub enum RunAction {
    /// Run the runtime's program to its end with these arguments.
    Run { runtime: ContainerRuntime, args: Vec<String> },
    /// Run the command itself, for as long as it may take.
    Execute { plan: ExecPlan, timeout: Duration },
    /// Hand back the result.
    Finish(Result<SandboxExecResult, String>),
}

/// What has to be done next for a command.
pub enum ActionView {
    Run { runtime: ContainerRuntime, args: Seq<Seq<char>> },
    Execute { plan: ExecPlanView, timeout: Duration },
    Finish(Result<ExecResultView, Seq<char>>),
}

impl View for RunAction {
    type V = ActionView;

    open spec fn view(&self) -> ActionView {
        match *self {
            RunAction::Run { runtime, args } => ActionView::Run {
                runtime,
                args: text::texts(args@),
            },
            RunAction::Execute { plan, timeout } => ActionView::Execute { plan: plan@, timeout },
            RunAction::Finish(result) => ActionView::Finish(result_view(result)),
        }
    }
}

/// What was done for a command, and what came of it.
pub enum RunEvent {
    Ran(CommandOutcome),
    Executed(ExecOutcome),
}

/// What the command itself comes to, by where it runs.
pub open spec fn executed(plan: ExecPlanView, outcome: ExecOutcome, timeout: Duration) -> Result<
    ExecResultView,
    Seq<char>,
> {
    match plan {
        ExecPlanView::Host => host::host_result(outcome, timeout),
        ExecPlanView::Container { runtime, args } => docker::container_result(
            runtime,
            outcome,
            timeout,
        ),
    }
}

impl RunView {
    /// What has to be done next.
    pub open spec fn action(self) -> ActionView {
        match self.phase {
            PhaseView::Inspecting(ready) => ActionView::Run {
                runtime: ready.runtime,
                args: ready.inspect,
            },
            PhaseView::Starting(ready) => ActionView::Run {
                runtime: ready.runtime,
                args: ready.start,
            },
            PhaseView::Executing => ActionView::Execute { plan: self.plan, timeout: self.timeout },
            PhaseView::Done(result) => ActionView::Finish(result),
        }
    }

    /// How far the command has come after an event. A container that is running is entered at
    /// once, any other is started first, and where that fails the command is not run. An event
    /// that nothing waits for changes nothing.
    pub open spec fn after(self, event: RunEvent) -> RunView {
        match (self.phase, event) {
            (PhaseView::Inspecting(ready), RunEvent::Ran(outcome)) => RunView {
                phase: if docker::says_running(outcome) {
                    PhaseView::Executing
                } else {
                    PhaseView::Starting(ready)
                },
                ..self
            },
            (PhaseView::Starting(ready), RunEvent::Ran(outcome)) => RunView {
                phase: match docker::start_error(ready.runtime, outcome) {
                    Some(e) => PhaseView::Done(Err(e)),
                    None => PhaseView::Executing,
                },
                ..self
            },
            (PhaseView::Executing, RunEvent::Executed(outcome)) => RunView {
                phase: PhaseView::Done(executed(self.plan, outcome, self.timeout)),
                ..self
            },
            _ => self,
        }
    }

    /// How far the command has come after several events.
    pub open spec fn after_all(self, events: Seq<RunEvent>) -> RunView
        decreases events.len(),
    {
        if events.len() == 0 {
            self
        } else {
            self.after_all(events.drop_last()).after(events.last())
        }
    }

    /// The event answers what has to be done next.
    pub open spec fn awaits(self, event: RunEvent) -> bool {
        match self.phase {
            PhaseView::Inspecting(_) => event is Ran,
            PhaseView::Starting(_) => event is Ran,
            PhaseView::Executing => event is Executed,
            PhaseView::Done(_) => false,
        }
    }

    /// How many answers are missing at most.
    pub open spec fn steps_left(self) -> nat {
        match self.phase {
            PhaseView::Inspecting(_) => 3,
            PhaseView::Starting(_) => 2,
            PhaseView::Executing => 1,
            PhaseView::Done(_) => 0,
        }
    }
}

fn copy_result(result: &Result<SandboxExecResult, String>) -> (copy: Result<
    SandboxExecResult,
    String,
>)
    ensures
        result_view(copy) == result_view(*result),
{
    match result {
        Ok(r) => Ok(r.clone()),
        Err(e) => Err(e.clone()),
    }
}

impl SandboxRun {
    /// Says what has to be done next.
    pub fn action(&self) -> (action: RunAction)
        ensures
            action@ == self@.action(),
    {
        match &self.phase {
            RunPhase::Inspecting(ready) => RunAction::Run {
                runtime: ready.runtime,
                args: text::copy_texts(&ready.inspect),
            },
            RunPhase::Starting(ready) => RunAction::Run {
                runtime: ready.runtime,
                args: text::copy_texts(&ready.start),
            },
            RunPhase::Executing => RunAction::Execute {
                plan: self.plan.clone(),
                timeout: self.timeout,
            },
            RunPhase::Done(result) => RunAction::Finish(copy_result(result)),
        }
    }

    /// Takes in what was done.
    pub fn advance(self, event: &RunEvent) -> (next: Self)
        ensures
            next@ == self@.after(*event),
    {
        match (self.phase, event) {
            (RunPhase::Inspecting(ready), RunEvent::Ran(outcome)) => {
                let phase = if docker::is_running(outcome) {
                    RunPhase::Executing
                } else {
                    RunPhase::Starting(ready)
                };
                SandboxRun { plan: self.plan, timeout: self.timeout, phase }
            },
            (RunPhase::Starting(ready), RunEvent::Ran(outcome)) => {
                let phase = match docker::started(ready.runtime, outcome) {
                    Ok(_) => RunPhase::Executing,
                    Err(e) => RunPhase::Done(Err(e)),
                };
                SandboxRun { plan: self.plan, timeout: self.timeout, phase }
            },
            (RunPhase::Executing, RunEvent::Executed(outcome)) => {
                let result = match &self.plan {
                    ExecPlan::Host => host::finish_host_command(outcome, self.timeout),
                    ExecPlan::Container { runtime, args } => docker::finish_container_command(
                        *runtime,
                        outcome,
                        self.timeout,
                    ),
                };
                SandboxRun { plan: self.plan, timeout: self.timeout, phase: RunPhase::Done(result) }
            },
            (phase, _) => SandboxRun { plan: self.plan, timeout: self.timeout, phase },
        }
    }
}

// ---------------------------------------------------------------------------
// The router
// ---------------------------------------------------------------------------

/// Sends commands to where they run.
pub struct SandboxRouter {
    pub config: SandboxConfig,
    pub backend: Backend,
    pub warned_missing_runtime: bool,
}

/// A command that has been sent on its way, and whether to warn that it runs on the host for
/// want of a container runtime.
pub struct Routed {
    pub run: SandboxRun,
    pub warn: bool,
}

/// A command that runs on the host.
pub open spec fn host_run(timeout: Duration) -> RunView {
    RunView { plan: ExecPlanView::Host, timeout, phase: PhaseView::Executing }
}

/// A command that is refused because there is no container runtime.
pub open spec fn refused_run(timeout: Duration) -> RunView {
    RunView {
        plan: ExecPlanView::Host,
        timeout,
        phase: PhaseView::Done(Err("sandbox is enabled but no container runtime is available"@)),
    }
}

/// A command that runs in a sandbox, which is made ready first where that takes anything.
pub open spec fn sandboxed_run(
    ready: Option<ReadyView>,
    plan: ExecPlanView,
    timeout: Duration,
) -> RunView {
    RunView {
        plan,
        timeout,
        phase: match ready {
            Some(ready) => PhaseView::Inspecting(ready),
            None => PhaseView::Executing,
        },
    }
}

/// Commands are to run in a sandbox, and there is none.
pub open spec fn sandbox_missing(config: SandboxConfigView, backend: Backend) -> bool {
    config.mode != SandboxMode::Off && !backend.isolates()
}

/// Where a command starts on its way.
pub open spec fn route(
    config: SandboxConfigView,
    backend: Backend,
    session_key: Seq<char>,
    command: Seq<char>,
    opts: ExecOptionsView,
) -> RunView {
    if config.mode == SandboxMode::Off {
        host_run(opts.timeout)
    } else if !backend.isolates() {
        if config.require_runtime {
            refused_run(opts.timeout)
        } else {
            host_run(opts.timeout)
        }
    } else {
        sandboxed_run(
            backend.readying(session_key),
            backend.executing(session_key, command, opts),
            opts.timeout,
        )
    }
}

/// A command runs on the host though a sandbox was asked for.
pub open spec fn falls_back(config: SandboxConfigView, backend: Backend) -> bool {
    sandbox_missing(config, backend) && !config.require_runtime
}

/// A command is worth a warning: it is the first that falls back to the host.
pub open spec fn warns(config: SandboxConfigView, backend: Backend, warned: bool) -> bool {
    falls_back(config, backend) && !warned
}

/// There has been a warning, after one more command.
pub open spec fn warned_after(config: SandboxConfigView, backend: Backend, warned: bool) -> bool {
    warned || falls_back(config, backend)
}

/// How many of a number of commands are worth a warning.
pub open spec fn warnings(
    config: SandboxConfigView,
    backend: Backend,
    warned: bool,
    commands: nat,
) -> nat
    decreases commands,
{
    if commands == 0 {
        0
    } else {
        let rest = warnings(
            config,
            backend,
            warned_after(config, backend, warned),
            (commands - 1) as nat,
        );
        if warns(config, backend, warned) {
            1 + rest
        } else {
            rest
        }
    }
}

impl SandboxRouter {
    /// A router for the runtimes that answered. `mount_dir` is the directory of the host that
    /// containers see.
    pub fn new(
        config: SandboxConfig,
        mount_dir: String,
        extra_mounts: Vec<ExtraMount>,
        available: AvailableRuntimes,
    ) -> (router: Self)
        ensures
            router.config@ == config@,
            !router.warned_missing_runtime,
            match runtime::picked_runtime(config@.backend, available) {
                Some(runtime) => router.backend is Container && router.backend->Container_0@ == (
                DockerView {
                    runtime,
                    config: config@,
                    mount_dir: mount_dir@,
                    extra_mounts: docker::mount_views(extra_mounts@),
                }),
                None => router.backend is Missing,
            },
    {
        let backend = match runtime::resolve_runtime(config.backend, available) {
            Some(runtime) => Backend::Container(
                DockerSandbox::new(runtime, config.clone(), mount_dir, extra_mounts),
            ),
            None => Backend::Missing(NoSandbox),
        };
        SandboxRouter { config, backend, warned_missing_runtime: false }
    }

    /// A router with a given sandbox.
    pub fn with_backend(config: SandboxConfig, backend: Backend) -> (router: Self)
        ensures
            router == (SandboxRouter { config, backend, warned_missing_runtime: false }),
    {
        SandboxRouter { config, backend, warned_missing_runtime: false }
    }

    pub fn mode(&self) -> (mode: SandboxMode)
        ensures
            mode == self.config@.mode,
    {
        self.config.mode
    }

    pub fn backend_name(&self) -> (name: &'static str)
        ensures
            name@ == self.backend.called(),
    {
        self.backend.backend_name()
    }

    /// Whether commands can run apart from the host.
    pub fn runtime_available(&self) -> (available: bool)
        ensures
            available == self.backend.isolates(),
    {
        self.backend.is_real()
    }

    /// Sends a command on its way. That one runs on the host for want of a container runtime is
    /// worth a warning once.
    pub fn exec(&mut self, session_key: &str, command: &str, opts: &SandboxExecOptions) -> (routed:
        Routed)
        ensures
            routed.run@ == route(
                old(self).config@,
                old(self).backend,
                session_key@,
                command@,
                opts@,
            ),
            routed.warn == warns(
                old(self).config@,
                old(self).backend,
                old(self).warned_missing_runtime,
            ),
            final(self).config == old(self).config,
            final(self).backend == old(self).backend,
            final(self).warned_missing_runtime == warned_after(
                old(self).config@,
                old(self).backend,
                old(self).warned_missing_runtime,
            ),
    {
        if self.config.mode == SandboxMode::Off {
            return Routed {
                run: SandboxRun {
                    plan: ExecPlan::Host,
                    timeout: opts.timeout,
                    phase: RunPhase::Executing,
                },
                warn: false,
            };
        }
        if !self.backend.is_real() {
            if self.config.require_runtime {
                let e = "sandbox is enabled but no container runtime is available".to_string();
                return Routed {
                    run: SandboxRun {
                        plan: ExecPlan::Host,
                        timeout: opts.timeout,
                        phase: RunPhase::Done(Err(e)),
                    },
                    warn: false,
                };
            }
            let warn = !self.warned_missing_runtime;
            self.warned_missing_runtime = true;
            return Routed {
                run: SandboxRun {
                    plan: ExecPlan::Host,
                    timeout: opts.timeout,
                    phase: RunPhase::Executing,
                },
                warn,
            };
        }
        let phase = match self.backend.ensure_ready(session_key) {
            Some(ready) => RunPhase::Inspecting(ready),
            None => RunPhase::Executing,
        };
        let plan = self.backend.exec(session_key, command, opts);
        Routed { run: SandboxRun { plan, timeout: opts.timeout, phase }, warn: false }
    }
}

// ---------------------------------------------------------------------------
// Laws
// ---------------------------------------------------------------------------

/// Where a command runs, and for how long, is settled at the start: no event changes it.
pub proof fn law_plan_is_kept(run: RunView, events: Seq<RunEvent>)
    ensures
        run.after_all(events).plan == run.plan,
        run.after_all(events).timeout == run.timeout,
    decreases events.len(),
{
    if events.len() > 0 {
        law_plan_is_kept(run, events.drop_last());
    }
}

/// With the sandbox off, a command runs on the host at once, whatever runtimes there are.
pub proof fn law_off_runs_on_host(
    config: SandboxConfigView,
    backend: Backend,
    session_key: Seq<char>,
    command: Seq<char>,
    opts: ExecOptionsView,
)
    requires
        config.mode == SandboxMode::Off,
    ensures
        route(config, backend, session_key, command, opts).action() == (ActionView::Execute {
            plan: ExecPlanView::Host,
            timeout: opts.timeout,
        }),
{
}

/// Where a runtime is required and missing, a command is refused, and nothing that happens
/// afterwards makes it run.
pub proof fn law_fails_closed(
    config: SandboxConfigView,
    backend: Backend,
    session_key: Seq<char>,
    command: Seq<char>,
    opts: ExecOptionsView,
    events: Seq<RunEvent>,
)
    requires
        sandbox_missing(config, backend),
        config.require_runtime,
    ensures
        route(config, backend, session_key, command, opts).after_all(events).action()
            == ActionView::Finish(
            Err("sandbox is enabled but no container runtime is available"@),
        ),
    decreases events.len(),
{
    if events.len() > 0 {
        law_fails_closed(config, backend, session_key, command, opts, events.drop_last());
    }
}

/// With the sandbox on and a runtime there, a command never runs on the host.
pub proof fn law_sandboxed_commands_stay_in_their_container(
    config: SandboxConfigView,
    backend: Backend,
    session_key: Seq<char>,
    command: Seq<char>,
    opts: ExecOptionsView,
    events: Seq<RunEvent>,
)
    requires
        config.mode == SandboxMode::All,
        backend is Container,
    ensures
        route(config, backend, session_key, command, opts).after_all(events).action() matches
            ActionView::Execute { plan, timeout } ==> plan == (ExecPlanView::Container {
            runtime: backend->Container_0@.runtime,
            args: backend->Container_0@.enter(session_key, command, opts),
        }),
{
    law_plan_is_kept(route(config, backend, session_key, command, opts), events);
}

/// A command in a container runs only after the container was said to be running, or was
/// started without an error.
pub proof fn law_command_waits_for_its_container(run: RunView, event: RunEvent)
    requires
        !(run.phase is Executing),
        run.after(event).phase is Executing,
    ensures
        event is Ran,
        match run.phase {
            PhaseView::Inspecting(_) => docker::says_running(event->Ran_0),
            PhaseView::Starting(ready) => docker::start_error(ready.runtime, event->Ran_0) is None,
            _ => false,
        },
{
}

/// A container that is running is not started again.
pub proof fn law_running_container_is_entered(
    ready: ReadyView,
    run: RunView,
    outcome: CommandOutcome,
)
    requires
        run.phase == PhaseView::Inspecting(ready),
        docker::says_running(outcome),
    ensures
        run.after(RunEvent::Ran(outcome)).action() == (ActionView::Execute {
            plan: run.plan,
            timeout: run.timeout,
        }),
{
}

/// Every answer that is waited for brings a command nearer to its end, and what is over stays
/// as it is.
pub proof fn law_every_run_ends(run: RunView, event: RunEvent)
    ensures
        run.awaits(event) ==> run.after(event).steps_left() < run.steps_left(),
        !run.awaits(event) ==> run.after(event) == run,
        run.steps_left() == 0 <==> run.phase is Done,
{
}

/// However many commands a router sends on their way, it warns at most once that they run on the
/// host.
pub proof fn law_warns_at_most_once(
    config: SandboxConfigView,
    backend: Backend,
    warned: bool,
    commands: nat,
)
    ensures
        warnings(config, backend, warned, commands) == if falls_back(config, backend) && !warned
            && commands > 0 {
            1nat
        } else {
            0nat
        },
    decreases commands,
{
    if commands > 0 {
        law_warns_at_most_once(
            config,
            backend,
            warned_after(config, backend, warned),
            (commands - 1) as nat,
        );
    }
}

/// Where a command starts, whatever it is: on the host where the sandbox is off, or where it is
/// on, is not required, and no container can be had; nowhere where it is required and cannot be
/// had; and else with the question after the session's container.
pub proof fn law_routes_case_by_case(
    config: SandboxConfigView,
    backend: Backend,
    session_key: Seq<char>,
    command: Seq<char>,
    opts: ExecOptionsView,
)
    ensures
        ({
            let run = route(config, backend, session_key, command, opts);
            let on_host = ActionView::Execute { plan: ExecPlanView::Host, timeout: opts.timeout };
            &&& config.mode == SandboxMode::Off ==> run.action() == on_host
            &&& config.mode == SandboxMode::All && backend is Missing && !config.require_runtime
                ==> run.action() == on_host
            &&& config.mode == SandboxMode::All && backend is Missing && config.require_runtime
                ==> run.action() == ActionView::Finish(
                Err("sandbox is enabled but no container runtime is available"@),
            )
            &&& config.mode == SandboxMode::All && backend is Container ==> run.action() == (
            ActionView::Run {
                runtime: backend->Container_0@.runtime,
                args: backend->Container_0@.inspect(session_key),
            }) && run.timeout == opts.timeout && run.plan == (ExecPlanView::Container {
                runtime: backend->Container_0@.runtime,
                args: backend->Container_0@.enter(session_key, command, opts),
            })
        }),
{
}

/// A command falls back to the host exactly where the sandbox is on, not required and not to be
/// had, and is then worth a warning the first time.
pub proof fn law_fallbacks_case_by_case(config: SandboxConfigView, backend: Backend, warned: bool)
    ensures
        falls_back(config, backend) <==> config.mode == SandboxMode::All && backend is Missing
            && !config.require_runtime,
        warns(config, backend, warned) <==> config.mode == SandboxMode::All && backend is Missing
            && !config.require_runtime && !warned,
        warned_after(config, backend, warned) <==> warned || (config.mode == SandboxMode::All
            && backend is Missing && !config.require_runtime),
{
}

/// A session's container is asked after, started where it is not running, and entered; where it
/// does not start, the command ends with why.
pub proof fn law_containers_are_made_ready(run: RunView, ready: ReadyView, outcome: CommandOutcome)
    ensures
        run.phase == PhaseView::Inspecting(ready) ==> {
            let next = run.after(RunEvent::Ran(outcome));
            &&& run.action() == (ActionView::Run { runtime: ready.runtime, args: ready.inspect })
            &&& docker::says_running(outcome) ==> next.action() == (ActionView::Execute {
                plan: run.plan,
                timeout: run.timeout,
            })
            &&& !docker::says_running(outcome) ==> next.action() == (ActionView::Run {
                runtime: ready.runtime,
                args: ready.start,
            })
        },
        run.phase == PhaseView::Starting(ready) ==> {
            let next = run.after(RunEvent::Ran(outcome));
            let error = docker::start_error(ready.runtime, outcome);
            &&& run.action() == (ActionView::Run { runtime: ready.runtime, args: ready.start })
            &&& error is None ==> next.action() == (ActionView::Execute {
                plan: run.plan,
                timeout: run.timeout,
            })
            &&& error is Some ==> next.action() == ActionView::Finish(Err(error->Some_0))
        },
{
}

/// What a command came to is read by where it ran, and handed back.
pub proof fn law_results_are_read_by_place(run: RunView, outcome: ExecOutcome)
    requires
        run.phase is Executing,
    ensures
        run.plan is Host ==> run.after(RunEvent::Executed(outcome)).action()
            == ActionView::Finish(host::host_result(outcome, run.timeout)),
        run.plan is Container ==> run.after(RunEvent::Executed(outcome)).action()
            == ActionView::Finish(
            docker::container_result(run.plan->runtime, outcome, run.timeout),
        ),
        run.action() == (ActionView::Execute { plan: run.plan, timeout: run.timeout }),
{
}

/// A container goes by its runtime's name and keeps commands apart; no sandbox goes by `none`,
/// keeps nothing apart and takes nothing to be made ready.
pub proof fn law_sandboxes_say_what_they_are(
    backend: Backend,
    session_key: Seq<char>,
    command: Seq<char>,
    opts: ExecOptionsView,
)
    ensures
        backend.isolates() <==> backend is Container,
        backend is Container ==> backend.called() == backend->Container_0@.runtime.name(),
        backend is Container ==> backend.readying(session_key) == Some(
            ReadyView {
                runtime: backend->Container_0@.runtime,
                inspect: backend->Container_0@.inspect(session_key),
                start: backend->Container_0@.start(session_key),
            },
        ),
        backend is Missing ==> backend.called() == "none"@,
        backend is Missing ==> backend.readying(session_key) is None,
        backend is Missing ==> backend.executing(session_key, command, opts)
            == ExecPlanView::Host,
{
}

/// A command on its way stands for its fields, and what it asks for does too.
pub proof fn law_a_run_stands_for_its_fields(
    run: SandboxRun,
    runtime: ContainerRuntime,
    args: Vec<String>,
    plan: ExecPlan,
    timeout: Duration,
    result: SandboxExecResult,
    message: String,
)
    ensures
        run@.timeout == run.timeout,
        run@.plan == run.plan@,
        ExecPlan::Host@ == ExecPlanView::Host,
        (ExecPlan::Container { runtime, args })@ == (ExecPlanView::Container {
            runtime,
            args: text::texts(args@),
        }),
        match run.phase {
            RunPhase::Inspecting(ready) => run@.phase == PhaseView::Inspecting(
                ReadyView {
                    runtime: ready.runtime,
                    inspect: text::texts(ready.inspect@),
                    start: text::texts(ready.start@),
                },
            ),
            RunPhase::Starting(ready) => run@.phase == PhaseView::Starting(
                ReadyView {
                    runtime: ready.runtime,
                    inspect: text::texts(ready.inspect@),
                    start: text::texts(ready.start@),
                },
            ),
            RunPhase::Executing => run@.phase is Executing,
            RunPhase::Done(Ok(r)) => run@.phase == PhaseView::Done(Ok(r@)),
            RunPhase::Done(Err(e)) => run@.phase == PhaseView::Done(Err(e@)),
        },
        (RunAction::Run { runtime, args })@ == (ActionView::Run {
            runtime,
            args: text::texts(args@),
        }),
        (RunAction::Execute { plan, timeout })@ == (ActionView::Execute { plan: plan@, timeout }),
        RunAction::Finish(Ok(result))@ == ActionView::Finish(Ok(result@)),
        RunAction::Finish(Err(message))@ == ActionView::Finish(Err(message@)),
{
}

/// A container keeps commands apart from the host, and to do without one does not.
pub proof fn law_containers_alone_keep_commands_apart(
    container: DockerSandbox,
    none: NoSandbox,
    session_key: Seq<char>,
    command: Seq<char>,
    opts: ExecOptionsView,
)
    ensures
        container.isolates(),
        !none.isolates(),
        container.called() == container@.runtime.name(),
        none.called() == "none"@,
        container.readying(session_key) is Some,
        none.readying(session_key) is None,
        container.executing(session_key, command, opts) == (ExecPlanView::Container {
            runtime: container@.runtime,
            args: container@.enter(session_key, command, opts),
        }),
        none.executing(session_key, command, opts) == ExecPlanView::Host,
{
}

} // verus!
