//! The container runtimes, and which of them is used.

use vstd::prelude::*;

use crate::sandbox::config::SandboxBackend;

verus! {

/// A container runtime.
#[derive(Clone, Copy, Debug, PartialEq, Eq, Structural)]
pub enum ContainerRuntime {
    Docker,
    Podman,
}

impl ContainerRuntime {
    /// The runtime's name, which is also the name of its program.
    pub open spec fn name(self) -> Seq<char> {
        match self {
            ContainerRuntime::Docker => "docker"@,
            ContainerRuntime::Podman => "podman"@,
        }
    }

    /// The name of the runtime's program.
    pub fn cli(self) -> (s: &'static str)
        ensures
            s@ == self.name(),
    {
        match self {
            ContainerRuntime::Docker => "docker",
            ContainerRuntime::Podman => "podman",
        }
    }

    /// The runtime's name as people read it.
    pub fn label(self) -> (s: &'static str)
        ensures
            s@ == self.name(),
    {
        match self {
            ContainerRuntime::Docker => "docker",
            ContainerRuntime::Podman => "podman",
        }
    }
}

/// Which runtimes answered when they were asked.
#[derive(Clone, Copy, Debug, PartialEq, Eq, Structural)]
pub struct AvailableRuntimes {
    pub docker: bool,
    pub podman: bool,
}

impl AvailableRuntimes {
    /// The runtime answered.
    pub open spec fn has(self, runtime: ContainerRuntime) -> bool {
        match runtime {
            ContainerRuntime::Docker => self.docker,
            ContainerRuntime::Podman => self.podman,
        }
    }
}

/// The runtime that a backend stands for. Podman is used only where it is asked for by name.
pub open spec fn wanted_runtime(backend: SandboxBackend) -> ContainerRuntime {
    match backend {
        SandboxBackend::Auto => ContainerRuntime::Docker,
        SandboxBackend::Docker => ContainerRuntime::Docker,
        SandboxBackend::Podman => ContainerRuntime::Podman,
    }
}

/// The runtime that is used: the one that the backend stands for, where it answered.
pub open spec fn picked_runtime(
    backend: SandboxBackend,
    available: AvailableRuntimes,
) -> Option<ContainerRuntime> {
    if available.has(wanted_runtime(backend)) {
        Some(wanted_runtime(backend))
    } else {
        None
    }
}

/// Picks the runtime that is used.
pub fn pick_runtime(backend: SandboxBackend, docker_available: bool, podman_available: bool) -> (r:
    Option<ContainerRuntime>)
    ensures
        r == picked_runtime(
            backend,
            (AvailableRuntimes { docker: docker_available, podman: podman_available }),
        ),
{
    match backend {
        SandboxBackend::Auto => if docker_available {
            Some(ContainerRuntime::Docker)
        } else {
            None
        },
        SandboxBackend::Docker => if docker_available {
            Some(ContainerRuntime::Docker)
        } else {
            None
        },
        SandboxBackend::Podman => if podman_available {
            Some(ContainerRuntime::Podman)
        } else {
            None
        },
    }
}

/// Picks the runtime that is used among those that answered.
pub fn resolve_runtime(backend: SandboxBackend, available: AvailableRuntimes) -> (r: Option<
    ContainerRuntime,
>)
    ensures
        r == picked_runtime(backend, available),
{
    pick_runtime(backend, available.docker, available.podman)
}

/// Whether there is a runtime for a backend.
pub fn runtime_available_for_backend(backend: SandboxBackend, available: AvailableRuntimes) -> (r:
    bool)
    ensures
        r == available.has(wanted_runtime(backend)),
{
    resolve_runtime(backend, available).is_some()
}

/// The program of the runtime that is used for a backend.
pub fn selected_runtime_cli(backend: SandboxBackend, available: AvailableRuntimes) -> (r: Option<
    &'static str,
>)
    ensures
        match r {
            Some(cli) => available.has(wanted_runtime(backend)) && cli@ == wanted_runtime(
                backend,
            ).name(),
            None => !available.has(wanted_runtime(backend)),
        },
{
    match resolve_runtime(backend, available) {
        Some(runtime) => Some(runtime.cli()),
        None => None,
    }
}

/// Whether a runtime answered: its status command could be run, and succeeded.
pub fn runtime_available(status: Option<bool>) -> (available: bool)
    ensures
        available == (status == Some(true)),
{
    match status {
        Some(success) => success,
        None => false,
    }
}

// ---------------------------------------------------------------------------
// Laws
// ---------------------------------------------------------------------------

/// Podman is used only where it is asked for by name.
pub proof fn law_podman_only_by_name(backend: SandboxBackend, available: AvailableRuntimes)
    ensures
        picked_runtime(backend, available) == Some(ContainerRuntime::Podman) ==> backend
            == SandboxBackend::Podman,
{
}

/// Leaving the choice open is asking for Docker.
pub proof fn law_auto_is_docker(available: AvailableRuntimes)
    ensures
        picked_runtime(SandboxBackend::Auto, available) == picked_runtime(
            SandboxBackend::Docker,
            available,
        ),
{
}

/// A runtime that did not answer is never used.
pub proof fn law_picked_runtime_answered(backend: SandboxBackend, available: AvailableRuntimes)
    ensures
        picked_runtime(backend, available) matches Some(runtime) ==> available.has(runtime),
{
}

/// A runtime that the backend does not stand for makes no difference.
pub proof fn law_other_runtimes_do_not_matter(
    backend: SandboxBackend,
    a: AvailableRuntimes,
    b: AvailableRuntimes,
)
    requires
        a.has(wanted_runtime(backend)) == b.has(wanted_runtime(backend)),
    ensures
        picked_runtime(backend, a) == picked_runtime(backend, b),
{
}

/// A backend is served exactly where its own runtime answered: Docker serves itself and an open
/// choice, Podman itself. Neither steps in for the other.
pub proof fn law_each_backend_has_one_runtime(available: AvailableRuntimes)
    ensures
        available.docker ==> picked_runtime(SandboxBackend::Docker, available) == Some(
            ContainerRuntime::Docker,
        ),
        available.docker ==> picked_runtime(SandboxBackend::Auto, available) == Some(
            ContainerRuntime::Docker,
        ),
        available.podman ==> picked_runtime(SandboxBackend::Podman, available) == Some(
            ContainerRuntime::Podman,
        ),
        !available.docker ==> picked_runtime(SandboxBackend::Docker, available) is None,
        !available.docker ==> picked_runtime(SandboxBackend::Auto, available) is None,
        !available.podman ==> picked_runtime(SandboxBackend::Podman, available) is None,
        available.has(ContainerRuntime::Docker) == available.docker,
        available.has(ContainerRuntime::Podman) == available.podman,
        wanted_runtime(SandboxBackend::Auto) == ContainerRuntime::Docker,
        wanted_runtime(SandboxBackend::Docker) == ContainerRuntime::Docker,
        wanted_runtime(SandboxBackend::Podman) == ContainerRuntime::Podman,
{
}

/// A runtime goes by the name of its program.
pub proof fn law_runtimes_go_by_their_program(runtime: ContainerRuntime)
    ensures
        runtime == ContainerRuntime::Docker ==> runtime.name() == "docker"@,
        runtime == ContainerRuntime::Podman ==> runtime.name() == "podman"@,
{
}

} // verus!
