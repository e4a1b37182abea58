//! The settings of the sandbox.

use vstd::prelude::*;

use crate::clock::Duration;
use crate::text;

verus! {

/// Which commands run in the sandbox.
#[derive(Clone, Copy, Debug, PartialEq, Eq, Structural)]
pub enum SandboxMode {
    Off,
    All,
}

/// Which container runtime is asked for.
#[derive(Clone, Copy, Debug, PartialEq, Eq, Structural)]
pub enum SandboxBackend {
    Auto,
    Docker,
    Podman,
}

/// What a container may do: its Linux capabilities, and whether it can gain privileges.
///
/// - `Hardened`: no capability but those added by name, and no new privileges. Programs such as
///   `apt`, `chown` and `su` fail.
/// - `Standard`: the runtime's default capabilities, and those added by name.
/// - `Privileged`: full access to the host. For debugging only.
#[derive(Clone, Copy, Debug, PartialEq, Eq, Structural)]
pub enum SecurityProfile {
    Hardened,
    Standard,
    Privileged,
}

impl SecurityProfile {
    /// The profile's name.
    pub open spec fn name(self) -> Seq<char> {
        match self {
            SecurityProfile::Hardened => "hardened"@,
            SecurityProfile::Standard => "standard"@,
            SecurityProfile::Privileged => "privileged"@,
        }
    }

    /// The profile's name.
    pub fn to_text(&self) -> (s: String)
        ensures
            s@ == self.name(),
    {
        match self {
            SecurityProfile::Hardened => "hardened".to_string(),
            SecurityProfile::Standard => "standard".to_string(),
            SecurityProfile::Privileged => "privileged".to_string(),
        }
    }
}

// ---------------------------------------------------------------------------
// Defaults
// ---------------------------------------------------------------------------

pub fn default_sandbox_mode() -> (mode: SandboxMode)
    ensures
        mode == SandboxMode::Off,
{
    SandboxMode::Off
}

pub fn default_sandbox_backend() -> (backend: SandboxBackend)
    ensures
        backend == SandboxBackend::Auto,
{
    SandboxBackend::Auto
}

pub fn default_sandbox_image() -> (image: String)
    ensures
        image@ == "ubuntu:25.10"@,
{
    "ubuntu:25.10".to_string()
}

pub fn default_sandbox_container_prefix() -> (prefix: String)
    ensures
        prefix@ == "microclaw-sandbox"@,
{
    "microclaw-sandbox".to_string()
}

pub fn default_sandbox_no_network() -> (no_network: bool)
    ensures
        no_network,
{
    true
}

pub fn default_sandbox_require_runtime() -> (require_runtime: bool)
    ensures
        require_runtime,
{
    true
}

pub fn default_sandbox_mount_allowlist_path() -> (path: Option<String>)
    ensures
        path is None,
{
    None
}

pub fn default_sandbox_security_profile() -> (profile: SecurityProfile)
    ensures
        profile == SecurityProfile::Hardened,
{
    SecurityProfile::Hardened
}

pub fn default_sandbox_cap_add() -> (capabilities: Vec<String>)
    ensures
        capabilities@.len() == 0,
{
    Vec::new()
}

// ---------------------------------------------------------------------------
// Settings
// ---------------------------------------------------------------------------

/// The settings of the sandbox. The CPU quota is a number as the container runtime takes it.
#[derive(Debug)]
pub struct SandboxConfig {
    pub mode: SandboxMode,
    pub backend: SandboxBackend,
    pub image: String,
    pub container_prefix: String,
    pub no_network: bool,
    pub require_runtime: bool,
    pub mount_allowlist_path: Option<String>,
    pub security_profile: SecurityProfile,
    pub cap_add: Vec<String>,
    pub memory_limit: Option<String>,
    pub cpu_quota: Option<String>,
    pub pids_limit: Option<u32>,
}

/// The settings of the sandbox.
#[verifier::ext_equal]
pub struct SandboxConfigView {
    pub mode: SandboxMode,
    pub backend: SandboxBackend,
    pub image: Seq<char>,
    pub container_prefix: Seq<char>,
    pub no_network: bool,
    pub require_runtime: bool,
    pub mount_allowlist_path: Option<Seq<char>>,
    pub security_profile: SecurityProfile,
    pub cap_add: Seq<Seq<char>>,
    pub memory_limit: Option<Seq<char>>,
    pub cpu_quota: Option<Seq<char>>,
    pub pids_limit: Option<u32>,
}

impl View for SandboxConfig {
    type V = SandboxConfigView;

    open spec fn view(&self) -> SandboxConfigView {
        SandboxConfigView {
            mode: self.mode,
            backend: self.backend,
            image: self.image@,
            container_prefix: self.container_prefix@,
            no_network: self.no_network,
            require_runtime: self.require_runtime,
            mount_allowlist_path: text::opt_text(self.mount_allowlist_path),
            security_profile: self.security_profile,
            cap_add: text::texts(self.cap_add@),
            memory_limit: text::opt_text(self.memory_limit),
            cpu_quota: text::opt_text(self.cpu_quota),
            pids_limit: self.pids_limit,
        }
    }
}

impl Clone for SandboxConfig {
    fn clone(&self) -> (copy: Self)
        ensures
            copy@ == self@,
    {
        SandboxConfig {
            mode: self.mode,
            backend: self.backend,
            image: self.image.clone(),
            container_prefix: self.container_prefix.clone(),
            no_network: self.no_network,
            require_runtime: self.require_runtime,
            mount_allowlist_path: text::copy_opt_text(&self.mount_allowlist_path),
            security_profile: self.security_profile,
            cap_add: text::copy_texts(&self.cap_add),
            memory_limit: text::copy_opt_text(&self.memory_limit),
            cpu_quota: text::copy_opt_text(&self.cpu_quota),
            pids_limit: self.pids_limit,
        }
    }
}

/// The settings where nothing is configured: off, and as strict as can be where it is switched
/// on.
pub open spec fn default_config() -> SandboxConfigView {
    SandboxConfigView {
        mode: SandboxMode::Off,
        backend: SandboxBackend::Auto,
        image: "ubuntu:25.10"@,
        container_prefix: "microclaw-sandbox"@,
        no_network: true,
        require_runtime: true,
        mount_allowlist_path: None,
        security_profile: SecurityProfile::Hardened,
        cap_add: Seq::empty(),
        memory_limit: None,
        cpu_quota: None,
        pids_limit: None,
    }
}

impl Default for SandboxConfig {
    fn default() -> (config: Self)
        ensures
            config@ == default_config(),
    {
        let config = SandboxConfig {
            mode: default_sandbox_mode(),
            backend: default_sandbox_backend(),
            image: default_sandbox_image(),
            container_prefix: default_sandbox_container_prefix(),
            no_network: default_sandbox_no_network(),
            require_runtime: default_sandbox_require_runtime(),
            mount_allowlist_path: default_sandbox_mount_allowlist_path(),
            security_profile: default_sandbox_security_profile(),
            cap_add: default_sandbox_cap_add(),
            memory_limit: None,
            cpu_quota: None,
            pids_limit: None,
        };
        proof {
            assert(text::texts(config.cap_add@) =~= Seq::<Seq<char>>::empty());
        }
        config
    }
}

// ---------------------------------------------------------------------------
// One command
// ---------------------------------------------------------------------------

/// How one command is to run: how long, where, and with which environment variables. The files
/// hold further variables.
#[derive(Debug)]
pub struct SandboxExecOptions {
    pub timeout: Duration,
    pub working_dir: Option<String>,
    pub envs: Vec<(String, String)>,
    pub env_files: Vec<String>,
}

/// How one command is to run.
#[verifier::ext_equal]
pub struct ExecOptionsView {
    pub timeout: Duration,
    pub working_dir: Option<Seq<char>>,
    pub envs: Seq<(Seq<char>, Seq<char>)>,
    pub env_files: Seq<Seq<char>>,
}

impl View for SandboxExecOptions {
    type V = ExecOptionsView;

    open spec fn view(&self) -> ExecOptionsView {
        ExecOptionsView {
            timeout: self.timeout,
            working_dir: text::opt_text(self.working_dir),
            envs: text::text_pairs(self.envs@),
            env_files: text::texts(self.env_files@),
        }
    }
}

impl Clone for SandboxExecOptions {
    fn clone(&self) -> (copy: Self)
        ensures
            copy@ == self@,
    {
        SandboxExecOptions {
            timeout: self.timeout,
            working_dir: text::copy_opt_text(&self.working_dir),
            envs: text::copy_pairs(&self.envs),
            env_files: text::copy_texts(&self.env_files),
        }
    }
}

/// What a command left behind.
#[derive(Debug)]
pub struct SandboxExecResult {
    pub stdout: String,
    pub stderr: String,
    pub exit_code: i32,
}

/// What a command left behind.
pub struct ExecResultView {
    pub stdout: Seq<char>,
    pub stderr: Seq<char>,
    pub exit_code: i32,
}

impl View for SandboxExecResult {
    type V = ExecResultView;

    open spec fn view(&self) -> ExecResultView {
        ExecResultView {
            stdout: self.stdout@,
            stderr: self.stderr@,
            exit_code: self.exit_code,
        }
    }
}

impl Clone for SandboxExecResult {
    fn clone(&self) -> (copy: Self)
        ensures
            copy@ == self@,
    {
        SandboxExecResult {
            stdout: self.stdout.clone(),
            stderr: self.stderr.clone(),
            exit_code: self.exit_code,
        }
    }
}

/// A further directory of the host that a container sees, under the same path.
#[derive(Debug)]
pub struct ExtraMount {
    pub host_path: String,
    pub read_only: bool,
}

/// A further directory of the host that a container sees.
pub struct ExtraMountView {
    pub host_path: Seq<char>,
    pub read_only: bool,
}

impl View for ExtraMount {
    type V = ExtraMountView;

    open spec fn view(&self) -> ExtraMountView {
        ExtraMountView { host_path: self.host_path@, read_only: self.read_only }
    }
}

impl Clone for ExtraMount {
    fn clone(&self) -> (copy: Self)
        ensures
            copy@ == self@,
    {
        ExtraMount { host_path: self.host_path.clone(), read_only: self.read_only }
    }
}

// ---------------------------------------------------------------------------
// Laws
// ---------------------------------------------------------------------------

/// Settings stand for their fields.
pub proof fn law_settings_stand_for_their_fields(config: SandboxConfig, i: int)
    ensures
        config@.mode == config.mode,
        config@.backend == config.backend,
        config@.image == config.image@,
        config@.container_prefix == config.container_prefix@,
        config@.no_network == config.no_network,
        config@.require_runtime == config.require_runtime,
        config@.security_profile == config.security_profile,
        config@.cap_add.len() == config.cap_add@.len(),
        0 <= i < config.cap_add@.len() ==> config@.cap_add[i] == config.cap_add@[i]@,
        config.mount_allowlist_path matches Some(path) ==> config@.mount_allowlist_path == Some(
            path@,
        ),
        config.mount_allowlist_path is None ==> config@.mount_allowlist_path is None,
        config.memory_limit matches Some(limit) ==> config@.memory_limit == Some(limit@),
        config.memory_limit is None ==> config@.memory_limit is None,
        config.cpu_quota matches Some(quota) ==> config@.cpu_quota == Some(quota@),
        config.cpu_quota is None ==> config@.cpu_quota is None,
        config@.pids_limit == config.pids_limit,
{
}

/// Options of a command stand for their fields, and so does what a command left behind.
pub proof fn law_options_stand_for_their_fields(
    opts: SandboxExecOptions,
    result: SandboxExecResult,
    i: int,
)
    ensures
        opts@.timeout == opts.timeout,
        opts.working_dir matches Some(dir) ==> opts@.working_dir == Some(dir@),
        opts.working_dir is None ==> opts@.working_dir is None,
        opts@.envs.len() == opts.envs@.len(),
        0 <= i < opts.envs@.len() ==> opts@.envs[i].0 == opts.envs@[i].0@ && opts@.envs[i].1
            == opts.envs@[i].1@,
        opts@.env_files.len() == opts.env_files@.len(),
        0 <= i < opts.env_files@.len() ==> opts@.env_files[i] == opts.env_files@[i]@,
        result@.stdout == result.stdout@,
        result@.stderr == result.stderr@,
        result@.exit_code == result.exit_code,
{
}

/// Where nothing is configured the sandbox is off; once it is switched on it is hardened, has no
/// network and no added capability, and is required.
pub proof fn law_defaults_are_strict()
    ensures
        default_config().mode == SandboxMode::Off,
        default_config().backend == SandboxBackend::Auto,
        default_config().no_network,
        default_config().require_runtime,
        default_config().security_profile == SecurityProfile::Hardened,
        default_config().cap_add.len() == 0,
        default_config().mount_allowlist_path is None,
        default_config().memory_limit is None,
        default_config().cpu_quota is None,
        default_config().pids_limit is None,
        default_config().image == "ubuntu:25.10"@,
        default_config().container_prefix == "microclaw-sandbox"@,
{
}

/// Two profiles of one name are the same, and each has its own.
pub proof fn law_profiles_are_told_by_name(a: SecurityProfile, b: SecurityProfile)
    ensures
        a.name() == b.name() <==> a == b,
        a == SecurityProfile::Hardened ==> a.name() == "hardened"@,
        a == SecurityProfile::Standard ==> a.name() == "standard"@,
        a == SecurityProfile::Privileged ==> a.name() == "privileged"@,
{
    reveal_strlit("hardened");
    reveal_strlit("standard");
    reveal_strlit("privileged");
    assert("hardened"@[0] == 'h' && "standard"@[0] == 's' && "privileged"@[0] == 'p');
}

} // verus!
