//! What it takes to connect to a server: the limits that hold for it, the protocol version that
//! is announced to it, and how it is reached.

use vstd::prelude::*;

use crate::clock::Duration;
use crate::mcp::config;
use crate::mcp::config::McpServerConfig;
use crate::mcp::headers;
use crate::mcp::server::McpServer;
use crate::table::NameTable;
use crate::text;

verus! {

pub const DEFAULT_HEALTH_INTERVAL_SECS: u64 = 60;

pub const DEFAULT_CIRCUIT_BREAKER_FAILURE_THRESHOLD: u32 = 5;

pub const DEFAULT_CIRCUIT_BREAKER_COOLDOWN_SECS: u64 = 30;

pub const DEFAULT_MAX_CONCURRENT_REQUESTS: u32 = 4;

pub const DEFAULT_QUEUE_WAIT_MS: u64 = 200;

pub const DEFAULT_RATE_LIMIT_PER_MINUTE: u32 = 120;

// ---------------------------------------------------------------------------
// Limits
// ---------------------------------------------------------------------------

/// The limits that hold for one server.
#[derive(Clone, Copy, Debug, PartialEq, Eq, Structural)]
pub struct ServerSettings {
    pub request_timeout: Duration,
    pub max_retries: u32,
    pub circuit_breaker_threshold: u32,
    pub circuit_breaker_cooldown_secs: u64,
    pub max_concurrent_requests: u32,
    pub queue_wait: Duration,
    pub rate_limit_per_minute: u32,
}

/// A setting, or its default where it is absent.
pub open spec fn or_default<T>(setting: Option<T>, default: T) -> T {
    match setting {
        Some(value) => value,
        None => default,
    }
}

impl ServerSettings {
    /// The limits that a configuration gives, with the defaults where it is silent. At least
    /// one request may run at a time, and waiting for that takes at least a millisecond.
    pub open spec fn resolved(config: McpServerConfig, default_request_timeout_secs: u64) -> Self {
        let concurrent = or_default(
            config.max_concurrent_requests,
            DEFAULT_MAX_CONCURRENT_REQUESTS,
        );
        let wait = or_default(config.queue_wait_ms, DEFAULT_QUEUE_WAIT_MS);
        ServerSettings {
            request_timeout: Duration {
                secs: config::request_timeout_secs(
                    config.request_timeout_secs,
                    default_request_timeout_secs,
                ),
                subsec_nanos: 0,
            },
            max_retries: or_default(config.max_retries, 0),
            circuit_breaker_threshold: or_default(
                config.circuit_breaker_failure_threshold,
                DEFAULT_CIRCUIT_BREAKER_FAILURE_THRESHOLD,
            ),
            circuit_breaker_cooldown_secs: or_default(
                config.circuit_breaker_cooldown_secs,
                DEFAULT_CIRCUIT_BREAKER_COOLDOWN_SECS,
            ),
            max_concurrent_requests: if concurrent < 1 {
                1
            } else {
                concurrent
            },
            queue_wait: Duration::of_millis(
                if wait < 1 {
                    1
                } else {
                    wait
                },
            ),
            rate_limit_per_minute: or_default(
                config.rate_limit_per_minute,
                DEFAULT_RATE_LIMIT_PER_MINUTE,
            ),
        }
    }

    /// Finds the limits that a configuration gives.
    pub fn resolve(config: &McpServerConfig, default_request_timeout_secs: u64) -> (settings: Self)
        ensures
            settings == ServerSettings::resolved(*config, default_request_timeout_secs),
            settings.max_concurrent_requests >= 1,
            settings.request_timeout.secs >= 1,
            settings.request_timeout.wf(),
            settings.queue_wait.total_nanos() >= 1_000_000,
            settings.queue_wait.wf(),
    {
        ServerSettings {
            request_timeout: Duration::from_secs(
                config::resolve_request_timeout_secs(
                    config.request_timeout_secs,
                    default_request_timeout_secs,
                ),
            ),
            max_retries: config.max_retries.unwrap_or(0),
            circuit_breaker_threshold: config.circuit_breaker_failure_threshold.unwrap_or(
                DEFAULT_CIRCUIT_BREAKER_FAILURE_THRESHOLD,
            ),
            circuit_breaker_cooldown_secs: config.circuit_breaker_cooldown_secs.unwrap_or(
                DEFAULT_CIRCUIT_BREAKER_COOLDOWN_SECS,
            ),
            max_concurrent_requests: config.max_concurrent_requests.unwrap_or(
                DEFAULT_MAX_CONCURRENT_REQUESTS,
            ).max(1),
            queue_wait: Duration::from_millis(
                config.queue_wait_ms.unwrap_or(DEFAULT_QUEUE_WAIT_MS).max(1),
            ),
            rate_limit_per_minute: config.rate_limit_per_minute.unwrap_or(
                DEFAULT_RATE_LIMIT_PER_MINUTE,
            ),
        }
    }
}

// ---------------------------------------------------------------------------
// Protocol version
// ---------------------------------------------------------------------------

#[verifier::external_type_specification]
#[verifier::external_body]
pub struct ExJsonError(serde_json::Error);

/// Calls `serde_json::from_value` to read a JSON string as `rmcp::model::ProtocolVersion`, and
/// returns the version's text. Every string is accepted, and the version reads as the string.
#[verifier::external_body]
fn parse_protocol_version(version: String) -> (parsed: Result<String, serde_json::Error>)
    ensures
        parsed is Ok,
        parsed->Ok_0@ == version@,
{
    serde_json::from_value::<rmcp::model::ProtocolVersion>(serde_json::Value::String(version)).map(
        |v| v.as_str().to_string(),
    )
}

/// What the client tells a server about itself.
#[derive(Clone, Debug)]
pub struct ClientInfo {
    pub protocol_version: String,
}

/// The protocol version that is announced: the one that is asked for, else the default.
pub open spec fn announced_version(requested: Option<Seq<char>>) -> Seq<char> {
    match requested {
        Some(version) => version,
        None => "2024-11-05"@,
    }
}

/// The protocol version that is asked for: the server's own setting where it has one, else the
/// default.
pub open spec fn requested_version(
    configured: Option<Seq<char>>,
    default: Option<Seq<char>>,
) -> Option<Seq<char>> {
    match configured {
        Some(version) => Some(version),
        None => default,
    }
}

/// Makes up what the client tells a server about itself.
pub fn build_client_info(requested_protocol: Option<String>) -> (info: ClientInfo)
    ensures
        info.protocol_version@ == announced_version(text::opt_text(requested_protocol)),
{
    let version = match requested_protocol {
        Some(version) => version,
        None => "2024-11-05".to_string(),
    };
    match parse_protocol_version(version) {
        Ok(protocol_version) => ClientInfo { protocol_version },
        Err(_) => ClientInfo { protocol_version: "2024-11-05".to_string() },
    }
}

// ---------------------------------------------------------------------------
// Transport
// ---------------------------------------------------------------------------

/// The two ways to reach a server.
#[derive(Clone, Copy, Debug, PartialEq, Eq, Structural)]
pub enum TransportKind {
    Stdio,
    StreamableHttp,
}

/// A transport's name as it is compared: without white space around it and in small letters.
pub open spec fn transport_name(transport: Seq<char>) -> Seq<char> {
    text::lower(text::trim(transport))
}

/// The transport that a name stands for. An empty name stands for `stdio`.
pub open spec fn transport_kind(transport: Seq<char>) -> Option<TransportKind> {
    let name = transport_name(transport);
    if name == "stdio"@ || name == ""@ {
        Some(TransportKind::Stdio)
    } else if name == "streamable_http"@ || name == "http"@ {
        Some(TransportKind::StreamableHttp)
    } else {
        None
    }
}

/// How a server is reached.
pub enum TransportPlan {
    /// Start a program and speak over its standard input and output.
    Stdio { command: String, args: Vec<String>, env: Vec<(String, String)> },
    /// Send requests to an endpoint, each with these headers.
    StreamableHttp { endpoint: String, headers: NameTable<Vec<u8>> },
}

/// All that is settled before a connection is made.
pub struct ConnectPlan {
    pub settings: ServerSettings,
    pub client_info: ClientInfo,
    pub transport: TransportPlan,
}

/// Why a configuration cannot lead to a connection, if it cannot.
pub open spec fn connect_error(name: Seq<char>, config: McpServerConfig) -> Option<Seq<char>> {
    match transport_kind(config.transport@) {
        Some(TransportKind::Stdio) => if text::trim(config.command@).len() == 0 {
            Some("MCP server '"@ + name + "' requires `command` when transport=stdio"@)
        } else {
            None
        },
        Some(TransportKind::StreamableHttp) => if text::trim(config.endpoint@).len() == 0 {
            Some("MCP server '"@ + name + "' requires `endpoint` when transport=streamable_http"@)
        } else {
            match headers::parsed_headers(name, text::text_pairs(config.headers@)) {
                Ok(_) => None,
                Err(message) => Some(message),
            }
        },
        None => Some(
            "MCP server '"@ + name + "' has unsupported transport '"@ + transport_name(
                config.transport@,
            ) + "'"@,
        ),
    }
}

/// The plan reaches the server as its configuration says.
pub open spec fn reaches(plan: TransportPlan, name: Seq<char>, config: McpServerConfig) -> bool {
    match plan {
        TransportPlan::Stdio { command, args, env } => {
            &&& transport_kind(config.transport@) == Some(TransportKind::Stdio)
            &&& command@ == config.command@
            &&& text::texts(args@) == text::texts(config.args@)
            &&& text::text_pairs(env@) == text::text_pairs(config.env@)
        },
        TransportPlan::StreamableHttp { endpoint, headers } => {
            &&& transport_kind(config.transport@) == Some(TransportKind::StreamableHttp)
            &&& endpoint@ == config.endpoint@
            &&& headers.wf()
            &&& headers::parsed_headers(name, text::text_pairs(config.headers@)) == Ok::<
                Map<Seq<char>, Seq<u8>>,
                Seq<char>,
            >(headers::header_bytes(headers))
        },
    }
}

pub(crate) fn message(before: &str, name: &str, after: &str) -> (s: String)
    ensures
        s@ == before@ + name@ + after@,
{
    let mut s = before.to_string();
    s.append(name);
    s.append(after);
    s
}

fn plan_transport(name: &str, config: &McpServerConfig) -> (plan: Result<TransportPlan, String>)
    ensures
        match plan {
            Ok(plan) => connect_error(name@, *config) is None && reaches(plan, name@, *config),
            Err(message) => connect_error(name@, *config) == Some(message@),
        },
{
    let transport = text::to_lower(text::trimmed(config.transport.as_str()).as_str());
    if text::same_text(transport.as_str(), "stdio") || text::same_text(transport.as_str(), "") {
        let command = text::trimmed(config.command.as_str());
        if command.as_str().is_empty() {
            return Err(
                message("MCP server '", name, "' requires `command` when transport=stdio"),
            );
        }
        Ok(
            TransportPlan::Stdio {
                command: config.command.clone(),
                args: text::copy_texts(&config.args),
                env: text::copy_pairs(&config.env),
            },
        )
    } else if text::same_text(transport.as_str(), "streamable_http") || text::same_text(
        transport.as_str(),
        "http",
    ) {
        let endpoint = text::trimmed(config.endpoint.as_str());
        if endpoint.as_str().is_empty() {
            return Err(
                message(
                    "MCP server '",
                    name,
                    "' requires `endpoint` when transport=streamable_http",
                ),
            );
        }
        match headers::parse_headers(name, &config.headers) {
            Ok(headers) => Ok(
                TransportPlan::StreamableHttp { endpoint: config.endpoint.clone(), headers },
            ),
            Err(message) => Err(message),
        }
    } else {
        let mut unsupported = message("MCP server '", name, "' has unsupported transport '");
        unsupported.append(transport.as_str());
        unsupported.append("'");
        Err(unsupported)
    }
}

impl McpServer {
    /// Settles all that can be settled before a connection to a server is made, or says why there
    /// can be none.
    pub fn connect(
        name: &str,
        config: &McpServerConfig,
        default_protocol_version: Option<&str>,
        default_request_timeout_secs: u64,
    ) -> (plan: Result<ConnectPlan, String>)
        ensures
            match plan {
                Ok(plan) => {
                    &&& connect_error(name@, *config) is None
                    &&& plan.settings == ServerSettings::resolved(
                        *config,
                        default_request_timeout_secs,
                    )
                    &&& plan.client_info.protocol_version@ == announced_version(
                        requested_version(
                            text::opt_text(config.protocol_version),
                            match default_protocol_version {
                                Some(version) => Some(version@),
                                None => None,
                            },
                        ),
                    )
                    &&& reaches(plan.transport, name@, *config)
                },
                Err(message) => connect_error(name@, *config) == Some(message@),
            },
            plan matches Ok(plan) ==> match (config.protocol_version, default_protocol_version) {
                (Some(own), _) => plan.client_info.protocol_version@ == own@,
                (None, Some(default)) => plan.client_info.protocol_version@ == default@,
                (None, None) => plan.client_info.protocol_version@ == "2024-11-05"@,
            },
    {
        let settings = ServerSettings::resolve(config, default_request_timeout_secs);
        let requested: Option<String> = match &config.protocol_version {
            Some(version) => Some(version.clone()),
            None => match default_protocol_version {
                Some(version) => Some(version.to_string()),
                None => None,
            },
        };
        let client_info = build_client_info(requested);
        match plan_transport(name, config) {
            Ok(transport) => Ok(ConnectPlan { settings, client_info, transport }),
            Err(message) => Err(message),
        }
    }
}

/// What a connection attempt reported when it failed.
pub enum ConnectFailure {
    /// The server's program could not be started.
    Spawn(String),
    /// The server did not complete the first exchange.
    Initialize(TransportKind, String),
}

/// What is said of a connection attempt that failed.
pub open spec fn failure_message(name: Seq<char>, failure: ConnectFailure) -> Seq<char> {
    match failure {
        ConnectFailure::Spawn(e) => "Failed to spawn MCP server '"@ + name + "': "@ + e@,
        ConnectFailure::Initialize(TransportKind::Stdio, e) => "Failed to initialize MCP server '"@
            + name + "' (stdio): "@ + e@,
        ConnectFailure::Initialize(TransportKind::StreamableHttp, e) =>
            "Failed to initialize MCP server '"@ + name + "' (http): "@ + e@,
    }
}

/// Says why a connection attempt failed.
pub fn connect_failure(name: &str, failure: &ConnectFailure) -> (s: String)
    ensures
        s@ == failure_message(name@, *failure),
{
    match failure {
        ConnectFailure::Spawn(e) => {
            let mut s = message("Failed to spawn MCP server '", name, "': ");
            s.append(e.as_str());
            s
        },
        ConnectFailure::Initialize(TransportKind::Stdio, e) => {
            let mut s = message("Failed to initialize MCP server '", name, "' (stdio): ");
            s.append(e.as_str());
            s
        },
        ConnectFailure::Initialize(TransportKind::StreamableHttp, e) => {
            let mut s = message("Failed to initialize MCP server '", name, "' (http): ");
            s.append(e.as_str());
            s
        },
    }
}

/// Case, and white space around it, make no difference to a transport's name.
pub proof fn law_transport_name_is_normalised(transport: Seq<char>)
    ensures
        transport_kind(text::lower(transport)) == transport_kind(transport),
        transport_kind(text::trim(transport)) == transport_kind(transport),
{
    text::lemma_trim_lower(transport);
    text::lemma_lower_idempotent(text::trim(transport));
    text::lemma_trim_idempotent(transport);
}

// ---------------------------------------------------------------------------
// Program lookup
// ---------------------------------------------------------------------------

/// A character with which a system separates the names in a path.
pub open spec fn is_separator(c: char) -> bool {
    c == '/' || c == '\\'
}

/// A text that can be an absolute path: it starts with a slash, as on Unix, or with two
/// separators, as the shares and verbatim paths of Windows do, or with a drive and a separator.
pub open spec fn may_be_absolute(path: Seq<char>) -> bool {
    ||| path.len() > 0 && path[0] == '/'
    ||| path.len() >= 2 && is_separator(path[0]) && is_separator(path[1])
    ||| path.len() >= 3 && path[1] == ':' && is_separator(path[2])
}

/// Calls `std::path::Path::is_absolute`. On Unix an absolute path starts with the root, and on
/// Windows with a prefix and the root. Which of the texts of either form are absolute differs
/// between the two and is left unsaid.
#[verifier::external_body]
fn is_absolute_path(path: &str) -> (absolute: bool)
    ensures
        absolute ==> may_be_absolute(path@),
{
    std::path::Path::new(path).is_absolute()
}

/// The first step towards the program that a command stands for.
pub enum CommandLookup {
    /// Start this.
    Use(String),
    /// Ask the system where this program is.
    Ask(String),
}

/// A command that is an absolute path is used as it is; any other is looked up.
pub fn begin_lookup(command: &str, is_absolute: bool) -> (lookup: CommandLookup)
    ensures
        is_absolute ==> lookup is Use && lookup->Use_0@ == command@,
        !is_absolute ==> lookup is Ask && lookup->Ask_0@ == command@,
{
    if is_absolute {
        CommandLookup::Use(command.to_string())
    } else {
        CommandLookup::Ask(command.to_string())
    }
}

/// Starts to resolve a command to the path of a program. Whether the command is an absolute
/// path is for the system to say; the name of a program, or a path relative to the current
/// directory, never is, and is always looked up.
pub fn resolve_command(command: &str) -> (lookup: CommandLookup)
    ensures
        match lookup {
            CommandLookup::Use(path) => path@ == command@ && may_be_absolute(command@),
            CommandLookup::Ask(program) => program@ == command@,
        },
{
    begin_lookup(command, is_absolute_path(command))
}

/// The path in what a lookup printed: its first line, without the white space around it.
pub open spec fn looked_up(output: Seq<char>) -> Seq<char> {
    text::trim(text::first_line(output))
}

/// Takes the path from what a successful lookup printed, if there is one.
pub fn lookup_answer(output: &str) -> (path: Option<String>)
    ensures
        match path {
            Some(path) => looked_up(output@).len() > 0 && path@ == looked_up(output@),
            None => looked_up(output@).len() == 0,
        },
{
    let lines = text::lines_of(output);
    let path = if lines.len() > 0 {
        proof {
            assert(text::texts(lines@)[0] == lines@[0]@);
        }
        text::trimmed(lines[0].as_str())
    } else {
        proof {
            assert(text::trim(Seq::<char>::empty()) =~= Seq::<char>::empty());
        }
        String::new()
    };
    if path.as_str().is_empty() {
        None
    } else {
        Some(path)
    }
}

/// What the lookup program reported: whether it succeeded, and its standard output.
pub struct LookupReport {
    pub success: bool,
    pub stdout: Vec<u8>,
}

/// Takes the path from a lookup's report, if it has one. There is no report where the lookup
/// program could not be run.
pub fn finish_lookup(report: &Option<LookupReport>) -> (path: Option<String>)
    ensures
        match (path, *report) {
            (Some(path), Some(report)) => {
                &&& report.success
                &&& looked_up(text::utf8_lossy(report.stdout@)).len() > 0
                &&& path@ == looked_up(text::utf8_lossy(report.stdout@))
            },
            (Some(_), None) => false,
            (None, Some(report)) => report.success ==> looked_up(
                text::utf8_lossy(report.stdout@),
            ).len() == 0,
            (None, None) => true,
        },
{
    match report {
        Some(report) => if report.success {
            let output = text::decode_lossy(report.stdout.as_slice());
            lookup_answer(output.as_str())
        } else {
            None
        },
        None => None,
    }
}

/// Where a program may be installed on Windows, in the order in which the places are tried.
pub open spec fn windows_places(command: Seq<char>) -> Seq<Seq<char>> {
    let folder = "C:\\Program Files\\nodejs\\"@;
    seq![folder + command + ".cmd"@, folder + command + ".exe"@, folder + command]
}

/// Lists where a program may be installed on Windows.
pub fn windows_candidates(command: &str) -> (places: Vec<String>)
    ensures
        text::texts(places@) == windows_places(command@),
{
    let folder = "C:\\Program Files\\nodejs\\";
    let mut places: Vec<String> = Vec::new();
    places.push(message(folder, command, ".cmd"));
    places.push(message(folder, command, ".exe"));
    let mut bare = folder.to_string();
    bare.append(command);
    places.push(bare);
    proof {
        assert(text::texts(places@) =~= windows_places(command@));
    }
    places
}

/// The first of the places that holds a file.
pub open spec fn first_present(places: Seq<Seq<char>>, present: Seq<bool>) -> Option<Seq<char>>
    decreases places.len(),
{
    if places.len() == 0 || present.len() == 0 {
        None
    } else if present[0] {
        Some(places[0])
    } else {
        first_present(places.drop_first(), present.drop_first())
    }
}

/// Settles on the program to start: the path that a lookup gave, else the first of the
/// candidates that is present, else the command itself.
pub fn settle_command(
    command: &str,
    looked_up: Option<String>,
    candidates: &Vec<String>,
    present: &Vec<bool>,
) -> (program: String)
    ensures
        program@ == match looked_up {
            Some(path) => path@,
            None => match first_present(text::texts(candidates@), present@) {
                Some(place) => place,
                None => command@,
            },
        },
{
    if let Some(path) = looked_up {
        return path;
    }
    let ghost places = text::texts(candidates@);
    let mut i: usize = 0;
    proof {
        assert(places.skip(0) =~= places);
        assert(present@.skip(0) =~= present@);
    }
    while i < candidates.len() && i < present.len()
        invariant
            looked_up is None,
            i <= candidates@.len(),
            i <= present@.len(),
            places == text::texts(candidates@),
            first_present(places, present@) == first_present(
                places.skip(i as int),
                present@.skip(i as int),
            ),
        decreases candidates@.len() - i,
    {
        if present[i] {
            proof {
                assert(places.skip(i as int)[0] == candidates@[i as int]@);
            }
            return candidates[i].clone();
        }
        proof {
            assert(places.skip(i as int).drop_first() =~= places.skip(i + 1));
            assert(present@.skip(i as int).drop_first() =~= present@.skip(i + 1));
        }
        i += 1;
    }
    command.to_string()
}

// ---------------------------------------------------------------------------
// Laws
// ---------------------------------------------------------------------------

/// A server without a version of its own is told the default version, whatever that is. A
/// server with one is told its own, whatever the default. The built-in version is announced
/// only where neither is given.
pub proof fn law_version_is_own_or_default(
    own: Seq<char>,
    default: Seq<char>,
    any_default: Option<Seq<char>>,
)
    ensures
        announced_version(requested_version(None, Some(default))) == default,
        announced_version(requested_version(Some(own), any_default)) == own,
        announced_version(requested_version(None, None)) == "2024-11-05"@,
{
}

/// Two servers that differ in nothing but the default version are told the same exactly where
/// the configuration names a version or the defaults are the same.
pub proof fn law_default_version_matters_without_own(
    configured: Option<Seq<char>>,
    first: Seq<char>,
    second: Seq<char>,
)
    ensures
        announced_version(requested_version(configured, Some(first))) == announced_version(
            requested_version(configured, Some(second)),
        ) <==> configured is Some || first == second,
{
}

/// What a configuration gives holds as it stands, however the other settings are: a limit of
/// no retries, no failures or no requests a minute included. The number of requests at a time,
/// the wait for a turn and the time for a request are raised to one where they would be none.
pub proof fn law_given_limits_hold(config: McpServerConfig, default_request_timeout_secs: u64)
    ensures
        ({
            let s = ServerSettings::resolved(config, default_request_timeout_secs);
            &&& forall|n: u32| config.max_retries == Some(n) ==> s.max_retries == n
            &&& forall|n: u32|
                config.circuit_breaker_failure_threshold == Some(n) ==> s.circuit_breaker_threshold
                    == n
            &&& forall|n: u64|
                config.circuit_breaker_cooldown_secs == Some(n)
                    ==> s.circuit_breaker_cooldown_secs == n
            &&& forall|n: u32|
                config.rate_limit_per_minute == Some(n) ==> s.rate_limit_per_minute == n
            &&& forall|n: u32|
                n >= 1 && config.max_concurrent_requests == Some(n) ==> s.max_concurrent_requests
                    == n
            &&& config.max_concurrent_requests == Some(0u32) ==> s.max_concurrent_requests == 1
            &&& forall|n: u64|
                n >= 1 && config.queue_wait_ms == Some(n) ==> s.queue_wait.total_nanos() == n
                    * 1_000_000
            &&& config.queue_wait_ms == Some(0u64) ==> s.queue_wait.total_nanos() == 1_000_000
            &&& forall|n: u64|
                n >= 1 && config.request_timeout_secs == Some(n) ==> s.request_timeout.secs == n
            &&& config.request_timeout_secs == Some(0u64) ==> s.request_timeout.secs == 1
            &&& s.request_timeout.subsec_nanos == 0
        }),
{
}

/// Where a configuration is silent: no retries, five failures, a cooldown of half a minute, four
/// requests at a time, a wait of a fifth of a second, and two requests a second.
pub proof fn law_silent_limits_are_defaults(
    config: McpServerConfig,
    default_request_timeout_secs: u64,
)
    ensures
        ({
            let s = ServerSettings::resolved(config, default_request_timeout_secs);
            &&& config.max_retries is None ==> s.max_retries == 0
            &&& config.circuit_breaker_failure_threshold is None ==> s.circuit_breaker_threshold
                == 5
            &&& config.circuit_breaker_cooldown_secs is None ==> s.circuit_breaker_cooldown_secs
                == 30
            &&& config.max_concurrent_requests is None ==> s.max_concurrent_requests == 4
            &&& config.queue_wait_ms is None ==> s.queue_wait.total_nanos() == 200_000_000
            &&& config.rate_limit_per_minute is None ==> s.rate_limit_per_minute == 120
            &&& config.request_timeout_secs is None && default_request_timeout_secs >= 1
                ==> s.request_timeout.secs == default_request_timeout_secs
            &&& config.request_timeout_secs is None && default_request_timeout_secs == 0
                ==> s.request_timeout.secs == 1
        }),
{
}

/// A name stands for a transport exactly where it reads `stdio`, `streamable_http` or `http`, or
/// nothing at all, once its capitals are made small and the white space around it is gone.
pub proof fn law_transports_have_four_names(transport: Seq<char>)
    ensures
        transport_kind(transport) == Some(TransportKind::Stdio) <==> text::lower(
            text::trim(transport),
        ) == "stdio"@ || text::trim(transport).len() == 0,
        transport_kind(transport) == Some(TransportKind::StreamableHttp) <==> text::lower(
            text::trim(transport),
        ) == "streamable_http"@ || text::lower(text::trim(transport)) == "http"@,
{
    reveal_strlit("stdio");
    reveal_strlit("");
    reveal_strlit("streamable_http");
    reveal_strlit("http");
    let name = text::lower(text::trim(transport));
    assert(name.len() == text::trim(transport).len());
    assert("stdio"@.len() == 5 && "http"@.len() == 4 && "streamable_http"@.len() == 15);
    if name.len() == 0 {
        assert(name =~= ""@);
    }
}

/// A program needs a command and nothing else; an endpoint needs to be named and to have
/// well-formed headers, and nothing else; any other transport is refused by its name.
pub proof fn law_what_a_connection_needs(name: Seq<char>, config: McpServerConfig)
    ensures
        ({
            let transport = text::lower(text::trim(config.transport@));
            let stdio = transport == "stdio"@ || transport == ""@;
            let http = transport == "streamable_http"@ || transport == "http"@;
            let error = connect_error(name, config);
            &&& stdio && text::trim(config.command@).len() > 0 ==> error is None
            &&& stdio && text::trim(config.command@).len() == 0 ==> error == Some(
                "MCP server '"@ + name + "' requires `command` when transport=stdio"@,
            )
            &&& http && text::trim(config.endpoint@).len() == 0 ==> error == Some(
                "MCP server '"@ + name + "' requires `endpoint` when transport=streamable_http"@,
            )
            &&& http && text::trim(config.endpoint@).len() > 0 && headers::parsed_headers(
                name,
                text::text_pairs(config.headers@),
            ) is Ok ==> error is None
            &&& http && text::trim(config.endpoint@).len() > 0 && headers::parsed_headers(
                name,
                text::text_pairs(config.headers@),
            ) is Err ==> error == Some(
                headers::parsed_headers(name, text::text_pairs(config.headers@))->Err_0,
            )
            &&& !stdio && !http ==> error == Some(
                "MCP server '"@ + name + "' has unsupported transport '"@ + transport + "'"@,
            )
        }),
{
    reveal_strlit("stdio");
    reveal_strlit("");
    reveal_strlit("streamable_http");
    reveal_strlit("http");
    assert("stdio"@.len() == 5 && "http"@.len() == 4 && "streamable_http"@.len() == 15);
}

/// A plan for a program holds the command, its arguments and its environment as they are
/// configured, and is made only for that transport.
pub proof fn law_a_program_is_started_as_configured(
    command: String,
    args: Vec<String>,
    env: Vec<(String, String)>,
    name: Seq<char>,
    config: McpServerConfig,
)
    requires
        reaches(TransportPlan::Stdio { command, args, env }, name, config),
    ensures
        transport_kind(config.transport@) == Some(TransportKind::Stdio),
        command@ == config.command@,
        args@.len() == config.args@.len(),
        forall|i: int| 0 <= i < args@.len() ==> (#[trigger] args@[i])@ == config.args@[i]@,
        env@.len() == config.env@.len(),
        forall|i: int|
            0 <= i < env@.len() ==> (#[trigger] env@[i]).0@ == config.env@[i].0@ && env@[i].1@
                == config.env@[i].1@,
{
    assert(text::texts(args@).len() == text::texts(config.args@).len());
    assert forall|i: int| 0 <= i < args@.len() implies (#[trigger] args@[i])@
        == config.args@[i]@ by {
        assert(text::texts(args@)[i] == text::texts(config.args@)[i]);
    }
    assert(text::text_pairs(env@).len() == text::text_pairs(config.env@).len());
    assert forall|i: int| 0 <= i < env@.len() implies (#[trigger] env@[i]).0@
        == config.env@[i].0@ && env@[i].1@ == config.env@[i].1@ by {
        assert(text::text_pairs(env@)[i] == text::text_pairs(config.env@)[i]);
    }
}

/// A plan for an endpoint holds it as it is configured, with every header of the configuration,
/// the later of two of one name, and is made only for that transport.
pub proof fn law_an_endpoint_is_reached_as_configured(
    endpoint: String,
    table: NameTable<Vec<u8>>,
    name: Seq<char>,
    config: McpServerConfig,
    k: int,
)
    requires
        reaches(TransportPlan::StreamableHttp { endpoint, headers: table }, name, config),
        0 <= k < config.headers@.len(),
        forall|j: int|
            k < j < config.headers@.len() ==> text::lower((#[trigger] config.headers@[j]).0@)
                != text::lower(config.headers@[k].0@),
    ensures
        transport_kind(config.transport@) == Some(TransportKind::StreamableHttp),
        endpoint@ == config.endpoint@,
        table@.contains_key(text::lower(config.headers@[k].0@)),
        table@[text::lower(config.headers@[k].0@)]@ == vstd::utf8::encode_utf8(
            config.headers@[k].1@,
        ),
{
    let list = text::text_pairs(config.headers@);
    assert forall|j: int| k < j < list.len() implies text::lower((#[trigger] list[j]).0)
        != text::lower(list[k].0) by {
        assert(text::lower(config.headers@[j].0@) != text::lower(config.headers@[k].0@));
    }
    headers::law_every_header_is_there(name, list, k);
}

/// A failed attempt is reported with the server's name, the transport and the cause.
pub proof fn law_failures_are_reported(name: Seq<char>, cause: String)
    ensures
        failure_message(name, ConnectFailure::Spawn(cause)) == "Failed to spawn MCP server '"@
            + name + "': "@ + cause@,
        failure_message(name, ConnectFailure::Initialize(TransportKind::Stdio, cause))
            == "Failed to initialize MCP server '"@ + name + "' (stdio): "@ + cause@,
        failure_message(name, ConnectFailure::Initialize(TransportKind::StreamableHttp, cause))
            == "Failed to initialize MCP server '"@ + name + "' (http): "@ + cause@,
{
}

/// A path that starts with a slash can be absolute, as can one that starts with a drive and a
/// separator or with two separators. The name of a program, with no separator and no colon in
/// it, cannot.
pub proof fn law_program_names_are_not_absolute(path: Seq<char>)
    ensures
        path.len() >= 1 && path[0] == '/' ==> may_be_absolute(path),
        path.len() >= 2 && path[0] == '\\' && path[1] == '\\' ==> may_be_absolute(path),
        path.len() >= 3 && path[1] == ':' && path[2] == '\\' ==> may_be_absolute(path),
        path.len() >= 3 && path[1] == ':' && path[2] == '/' ==> may_be_absolute(path),
        (forall|i: int|
            0 <= i < path.len() ==> #[trigger] path[i] != '/' && path[i] != '\\') ==>
            !may_be_absolute(path),
        path.len() >= 2 && path[0] != '/' && path[0] != '\\' && path[1] != ':' ==>
            !may_be_absolute(path),
{
}

/// What follows the first line of a lookup's output makes no difference to the path that it
/// gives, which is that line without the white space around it.
pub proof fn law_lookup_reads_its_first_line(line: Seq<char>, more: Seq<char>)
    requires
        forall|i: int| 0 <= i < line.len() ==> #[trigger] line[i] != '\n',
        line.len() > 0 ==> line[line.len() - 1] != '\r',
    ensures
        looked_up(line.push('\n') + more) == text::trim(line),
        looked_up(line.push('\r').push('\n') + more) == text::trim(line),
        looked_up(line) == text::trim(line),
{
    text::law_lines_end_at_breaks(line, more);
    if line.len() == 0 {
        assert(line =~= Seq::empty());
    }
}

/// A program is looked for in one folder, first as a script, then as a binary, then bare.
pub proof fn law_windows_places(command: Seq<char>)
    ensures
        windows_places(command).len() == 3,
        windows_places(command)[0] == "C:\\Program Files\\nodejs\\"@ + command + ".cmd"@,
        windows_places(command)[1] == "C:\\Program Files\\nodejs\\"@ + command + ".exe"@,
        windows_places(command)[2] == "C:\\Program Files\\nodejs\\"@ + command,
{
}

/// Of several places the first that holds a file is taken, whatever comes after it, and none
/// where none does.
pub proof fn law_the_first_place_with_a_file_is_taken(
    places: Seq<Seq<char>>,
    present: Seq<bool>,
    k: int,
)
    requires
        0 <= k <= places.len(),
        k <= present.len(),
        forall|i: int| 0 <= i < k ==> !#[trigger] present[i],
    ensures
        k < places.len() && k < present.len() && present[k] ==> first_present(places, present)
            == Some(places[k]),
        k == places.len() || k == present.len() ==> first_present(places, present) is None,
    decreases places.len(),
{
    if places.len() > 0 && k > 0 {
        assert(!present[0]);
        let rest = present.drop_first();
        assert forall|i: int| 0 <= i < k - 1 implies !#[trigger] rest[i] by {
            assert(!present[i + 1]);
        }
        law_the_first_place_with_a_file_is_taken(places.drop_first(), rest, k - 1);
    }
}

/// No header is sent to an endpoint that its configuration does not name.
pub proof fn law_no_other_header_is_sent(
    endpoint: String,
    table: NameTable<Vec<u8>>,
    name: Seq<char>,
    config: McpServerConfig,
    header: Seq<char>,
)
    requires
        reaches(TransportPlan::StreamableHttp { endpoint, headers: table }, name, config),
        forall|j: int|
            0 <= j < config.headers@.len() ==> text::lower((#[trigger] config.headers@[j]).0@)
                != header,
    ensures
        !table@.contains_key(header),
{
    let list = text::text_pairs(config.headers@);
    assert forall|j: int| 0 <= j < list.len() implies text::lower((#[trigger] list[j]).0)
        != header by {
        assert(text::lower(config.headers@[j].0@) != header);
    }
    headers::law_no_other_header_is_there(name, list, header);
    assert(headers::header_bytes(table).contains_key(header) == table@.contains_key(header));
}

} // verus!
