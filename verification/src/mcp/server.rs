//! One connected server: the tools that it offers, and the limits under which it is called.

use vstd::prelude::*;

use crate::clock::{Duration, Instant};
use crate::mcp::connect;
use crate::mcp::connect::ServerSettings;
use crate::mcp::resilience::{CircuitBreakerState, FixedWindowRateLimiter};
use crate::text;

verus! {

/// How long the list of a server's tools is taken for current, in nanoseconds.
pub const TOOLS_CACHE_TTL_NANOS: u64 = 300_000_000_000;

// ---------------------------------------------------------------------------
// Tools
// ---------------------------------------------------------------------------

/// A tool that a server offers. The schema of its input is JSON text.
#[derive(Debug)]
pub struct McpToolInfo {
    pub server_name: String,
    pub name: String,
    pub description: String,
    pub input_schema: String,
}

/// The texts that describe a tool.
pub struct ToolView {
    pub server_name: Seq<char>,
    pub name: Seq<char>,
    pub description: Seq<char>,
    pub input_schema: Seq<char>,
}

impl View for McpToolInfo {
    type V = ToolView;

    open spec fn view(&self) -> ToolView {
        ToolView {
            server_name: self.server_name@,
            name: self.name@,
            description: self.description@,
            input_schema: self.input_schema@,
        }
    }
}

impl Clone for McpToolInfo {
    fn clone(&self) -> (copy: McpToolInfo)
        ensures
            copy@ == self@,
    {
        McpToolInfo {
            server_name: self.server_name.clone(),
            name: self.name.clone(),
            description: self.description.clone(),
            input_schema: self.input_schema.clone(),
        }
    }
}

/// The descriptions of a list of tools.
pub open spec fn tool_views(tools: Seq<McpToolInfo>) -> Seq<ToolView> {
    tools.map_values(|t: McpToolInfo| t@)
}

/// Copies a list of tools.
pub fn copy_tools(tools: &Vec<McpToolInfo>) -> (copy: Vec<McpToolInfo>)
    ensures
        tool_views(copy@) == tool_views(tools@),
{
    let mut copy: Vec<McpToolInfo> = Vec::new();
    let mut i: usize = 0;
    while i < tools.len()
        invariant
            i <= tools@.len(),
            copy@.len() == i,
            forall|j: int| 0 <= j < i ==> (#[trigger] copy@[j])@ == tools@[j]@,
        decreases tools@.len() - i,
    {
        copy.push(tools[i].clone());
        i += 1;
    }
    proof {
        assert(tool_views(copy@) =~= tool_views(tools@));
    }
    copy
}

/// A tool as a server lists it. There is no schema where the server's could not be read.
#[derive(Debug)]
pub struct ListedTool {
    pub name: String,
    pub description: Option<String>,
    pub input_schema: Option<String>,
}

/// The description of a listed tool: no text where it has no description, and the schema of an
/// object without properties where it has no schema.
pub open spec fn described(server_name: Seq<char>, tool: ListedTool) -> ToolView {
    ToolView {
        server_name,
        name: tool.name@,
        description: match tool.description {
            Some(text) => text@,
            None => Seq::empty(),
        },
        input_schema: match tool.input_schema {
            Some(schema) => schema@,
            None => "{\"type\":\"object\",\"properties\":{}}"@,
        },
    }
}

/// The descriptions of a list of tools.
pub open spec fn all_described(server_name: Seq<char>, tools: Seq<ListedTool>) -> Seq<ToolView> {
    tools.map_values(|t: ListedTool| described(server_name, t))
}

/// Describes the tools that a server lists.
pub fn describe_tools(server_name: &str, listed: Vec<ListedTool>) -> (tools: Vec<McpToolInfo>)
    ensures
        tool_views(tools@) == all_described(server_name@, listed@),
{
    let ghost all = listed@;
    let mut tools: Vec<McpToolInfo> = Vec::new();
    for tool in it: listed
        invariant
            all == it.seq(),
            tools@.len() == it.index(),
            forall|j: int|
                0 <= j < it.index() ==> (#[trigger] tools@[j])@ == described(server_name@, all[j]),
    {
        tools.push(
            McpToolInfo {
                server_name: server_name.to_string(),
                name: tool.name,
                description: match tool.description {
                    Some(text) => text,
                    None => String::new(),
                },
                input_schema: match tool.input_schema {
                    Some(schema) => schema,
                    None => "{\"type\":\"object\",\"properties\":{}}".to_string(),
                },
            },
        );
    }
    proof {
        assert(tool_views(tools@) =~= all_described(server_name@, all));
    }
    tools
}

// ---------------------------------------------------------------------------
// Errors
// ---------------------------------------------------------------------------

/// An error says that the server does not know the tool.
pub open spec fn says_not_found(err: Seq<char>) -> bool {
    let lowered = text::lower(err);
    ||| text::contains(lowered, "not found"@)
    ||| text::contains(lowered, "unknown tool"@)
    ||| text::contains(lowered, "tool not found"@)
}

/// An error says that the call may succeed when it is made again.
pub open spec fn says_transient(err: Seq<char>) -> bool {
    let lowered = text::lower(err);
    ||| text::contains(lowered, "timeout"@)
    ||| text::contains(lowered, "request timeout"@)
    ||| text::contains(lowered, "transport closed"@)
    ||| text::contains(lowered, "closed connection"@)
    ||| text::contains(lowered, "broken pipe"@)
    ||| text::contains(lowered, "connection reset"@)
    ||| text::contains(lowered, "temporarily unavailable"@)
}

/// What an error says does not depend on its capitals.
pub proof fn law_errors_are_read_without_regard_to_case(err: Seq<char>)
    ensures
        says_not_found(text::lower(err)) == says_not_found(err),
        says_transient(text::lower(err)) == says_transient(err),
{
    text::lemma_lower_idempotent(err);
}

// ---------------------------------------------------------------------------
// The server
// ---------------------------------------------------------------------------

/// A connected server.
#[derive(Debug)]
pub struct McpServer {
    pub name: String,
    pub request_timeout: Duration,
    pub max_retries: u32,
    pub tools_cache: Vec<McpToolInfo>,
    pub tools_cache_updated_at: Option<Instant>,
    pub circuit_breaker: CircuitBreakerState,
    pub queue_wait: Duration,
    pub rate_limiter: FixedWindowRateLimiter,
}

/// What a server stands for.
#[verifier::ext_equal]
pub struct ServerView {
    pub name: Seq<char>,
    pub request_timeout: Duration,
    pub max_retries: u32,
    pub tools_cache: Seq<ToolView>,
    pub tools_cache_updated_at: Option<Instant>,
    pub circuit_breaker: CircuitBreakerState,
    pub queue_wait: Duration,
    pub rate_limiter: FixedWindowRateLimiter,
}

impl View for McpServer {
    type V = ServerView;

    open spec fn view(&self) -> ServerView {
        ServerView {
            name: self.name@,
            request_timeout: self.request_timeout,
            max_retries: self.max_retries,
            tools_cache: tool_views(self.tools_cache@),
            tools_cache_updated_at: self.tools_cache_updated_at,
            circuit_breaker: self.circuit_breaker,
            queue_wait: self.queue_wait,
            rate_limiter: self.rate_limiter,
        }
    }
}

impl ServerView {
    /// A server that has just been connected.
    pub open spec fn fresh(name: Seq<char>, settings: ServerSettings, now: Instant) -> ServerView {
        ServerView {
            name,
            request_timeout: settings.request_timeout,
            max_retries: settings.max_retries,
            tools_cache: Seq::empty(),
            tools_cache_updated_at: None,
            circuit_breaker: CircuitBreakerState::fresh(
                settings.circuit_breaker_threshold,
                settings.circuit_breaker_cooldown_secs,
            ),
            queue_wait: settings.queue_wait,
            rate_limiter: FixedWindowRateLimiter {
                limit_per_minute: settings.rate_limit_per_minute,
                window_started_at: now,
                used_in_window: 0,
            },
        }
    }

    /// The breaker and the limiter are in order.
    pub open spec fn wf(self) -> bool {
        self.circuit_breaker.wf() && self.rate_limiter.wf()
    }

    /// The list of tools is current: it was read less than five minutes ago.
    pub open spec fn cache_fresh(self, now: Instant) -> bool {
        match self.tools_cache_updated_at {
            Some(at) => now.nanos_since(at) < TOOLS_CACHE_TTL_NANOS,
            None => false,
        }
    }

    /// The server with a list of tools read at `now`.
    pub open spec fn with_tools(self, tools: Seq<ToolView>, now: Instant) -> ServerView {
        ServerView { tools_cache: tools, tools_cache_updated_at: Some(now), ..self }
    }

    /// The server with its list of tools forgotten.
    pub open spec fn without_tools(self) -> ServerView {
        ServerView { tools_cache: Seq::empty(), tools_cache_updated_at: None, ..self }
    }

    /// The server's list holds a tool of that name.
    pub open spec fn knows(self, tool_name: Seq<char>) -> bool {
        exists|i: int|
            0 <= i < self.tools_cache.len() && (#[trigger] self.tools_cache[i]).name == tool_name
    }
}

/// What came of asking a server for its tools.
pub enum ListOutcome {
    TimedOut,
    Failed(String),
    Listed(Vec<ListedTool>),
}

/// The tools in a server's answer, or why there are none.
pub open spec fn listed_tools(server: ServerView, outcome: ListOutcome) -> Result<
    Seq<ToolView>,
    Seq<char>,
> {
    match outcome {
        ListOutcome::TimedOut => Err(
            "MCP list tools timed out for '"@ + server.name + "' after "@
                + server.request_timeout.readable(),
        ),
        ListOutcome::Failed(e) => Err("Failed to list tools for '"@ + server.name + "': "@ + e@),
        ListOutcome::Listed(tools) => Ok(all_described(server.name, tools@)),
    }
}

/// The server after it was asked for its tools.
pub open spec fn after_listing(
    server: ServerView,
    outcome: ListOutcome,
    now: Instant,
) -> ServerView {
    match listed_tools(server, outcome) {
        Ok(tools) => server.with_tools(tools, now),
        Err(_) => server,
    }
}

/// How the list of a server's tools is brought up to date.
pub enum RefreshStep {
    /// It is current: this is it.
    Cached(Vec<McpToolInfo>),
    /// Ask the server.
    List,
}

impl McpServer {
    /// Takes on a server to which a connection was made at `now`. Its tools are not known yet.
    pub fn connected(name: &str, settings: &ServerSettings, now: Instant) -> (server: McpServer)
        ensures
            server@ == ServerView::fresh(name@, *settings, now),
            server@.wf(),
    {
        let server = McpServer {
            name: name.to_string(),
            request_timeout: settings.request_timeout,
            max_retries: settings.max_retries,
            tools_cache: Vec::new(),
            tools_cache_updated_at: None,
            circuit_breaker: CircuitBreakerState::new(
                settings.circuit_breaker_threshold,
                settings.circuit_breaker_cooldown_secs,
            ),
            queue_wait: settings.queue_wait,
            rate_limiter: FixedWindowRateLimiter::new(settings.rate_limit_per_minute, now),
        };
        proof {
            assert(server@ =~= ServerView::fresh(name@, *settings, now));
        }
        server
    }

    /// Whether the list of tools is current at `now`.
    pub fn is_cache_fresh(&self, now: Instant) -> (fresh: bool)
        ensures
            fresh == self@.cache_fresh(now),
    {
        match self.tools_cache_updated_at {
            Some(at) => now.elapsed_nanos(at) < TOOLS_CACHE_TTL_NANOS,
            None => false,
        }
    }

    /// Keeps a list of tools that was read at `now`.
    pub fn set_tools_cache(&mut self, tools: Vec<McpToolInfo>, now: Instant)
        ensures
            final(self)@ == old(self)@.with_tools(tool_views(tools@), now),
    {
        self.tools_cache = tools;
        self.tools_cache_updated_at = Some(now);
    }

    /// The tools that are known of, current or not.
    pub fn tools_snapshot(&self) -> (tools: Vec<McpToolInfo>)
        ensures
            tool_views(tools@) == self@.tools_cache,
    {
        copy_tools(&self.tools_cache)
    }

    /// Whether an error says that the server does not know the tool.
    pub fn is_tool_not_found_error(err: &str) -> (not_found: bool)
        ensures
            not_found == says_not_found(err@),
    {
        let lowered = text::to_lower(err);
        text::has_substring(lowered.as_str(), "not found") || text::has_substring(
            lowered.as_str(),
            "unknown tool",
        ) || text::has_substring(lowered.as_str(), "tool not found")
    }

    /// Whether an error says that the call may succeed when it is made again.
    pub fn should_retry_error(err: &str) -> (retry: bool)
        ensures
            retry == says_transient(err@),
    {
        let lowered = text::to_lower(err);
        text::has_substring(lowered.as_str(), "timeout") || text::has_substring(
            lowered.as_str(),
            "request timeout",
        ) || text::has_substring(lowered.as_str(), "transport closed") || text::has_substring(
            lowered.as_str(),
            "closed connection",
        ) || text::has_substring(lowered.as_str(), "broken pipe") || text::has_substring(
            lowered.as_str(),
            "connection reset",
        ) || text::has_substring(lowered.as_str(), "temporarily unavailable")
    }

    /// Forgets the list of tools.
    pub fn invalidate_tools_cache(&mut self)
        ensures
            final(self)@ == old(self)@.without_tools(),
    {
        self.tools_cache = Vec::new();
        self.tools_cache_updated_at = None;
        proof {
            assert(self@ =~= old(self)@.without_tools());
        }
    }

    /// Whether the list holds a tool of that name.
    pub fn knows_tool(&self, tool_name: &str) -> (known: bool)
        ensures
            known == self@.knows(tool_name@),
    {
        let mut i: usize = 0;
        while i < self.tools_cache.len()
            invariant
                i <= self.tools_cache@.len(),
                forall|j: int|
                    0 <= j < i ==> (#[trigger] self@.tools_cache[j]).name != tool_name@,
            decreases self.tools_cache@.len() - i,
        {
            proof {
                assert(self@.tools_cache[i as int].name == self.tools_cache@[i as int].name@);
            }
            if text::same_text(self.tools_cache[i].name.as_str(), tool_name) {
                return true;
            }
            i += 1;
        }
        false
    }

    /// Reads what came of asking the server for its tools.
    pub fn list_tools_uncached(&self, outcome: ListOutcome) -> (tools: Result<
        Vec<McpToolInfo>,
        String,
    >)
        ensures
            match tools {
                Ok(tools) => listed_tools(self@, outcome) == Ok::<Seq<ToolView>, Seq<char>>(
                    tool_views(tools@),
                ),
                Err(message) => listed_tools(self@, outcome) == Err::<Seq<ToolView>, Seq<char>>(
                    message@,
                ),
            },
    {
        match outcome {
            ListOutcome::TimedOut => {
                let mut s = connect::message(
                    "MCP list tools timed out for '",
                    self.name.as_str(),
                    "' after ",
                );
                s.append(self.request_timeout.readable_text().as_str());
                Err(s)
            },
            ListOutcome::Failed(e) => {
                let mut s = connect::message(
                    "Failed to list tools for '",
                    self.name.as_str(),
                    "': ",
                );
                s.append(e.as_str());
                Err(s)
            },
            ListOutcome::Listed(tools) => Ok(describe_tools(self.name.as_str(), tools)),
        }
    }

    /// Starts to bring the list of tools up to date. The server is asked if it must be, or if
    /// the list is no longer current.
    pub fn refresh_tools_cache(&self, force: bool, now: Instant) -> (step: RefreshStep)
        ensures
            step is List == (force || !self@.cache_fresh(now)),
            step matches RefreshStep::Cached(tools) ==> tool_views(tools@) == self@.tools_cache,
    {
        if !force && self.is_cache_fresh(now) {
            RefreshStep::Cached(self.tools_snapshot())
        } else {
            RefreshStep::List
        }
    }

    /// Brings the list of tools up to date with what came of asking the server. An answer
    /// replaces the list; without one it stays.
    pub fn finish_refresh(&mut self, outcome: ListOutcome, now: Instant) -> (tools: Result<
        Vec<McpToolInfo>,
        String,
    >)
        ensures
            final(self)@ == after_listing(old(self)@, outcome, now),
            match tools {
                Ok(tools) => listed_tools(old(self)@, outcome) == Ok::<Seq<ToolView>, Seq<char>>(
                    tool_views(tools@),
                ),
                Err(message) => listed_tools(old(self)@, outcome) == Err::<
                    Seq<ToolView>,
                    Seq<char>,
                >(message@),
            },
    {
        match self.list_tools_uncached(outcome) {
            Ok(tools) => {
                self.set_tools_cache(copy_tools(&tools), now);
                Ok(tools)
            },
            Err(message) => Err(message),
        }
    }

    /// Judges the server's health by what came of asking for its tools.
    pub fn health_probe(&mut self, outcome: ListOutcome, now: Instant) -> (healthy: Result<
        (),
        String,
    >)
        ensures
            final(self)@ == after_listing(old(self)@, outcome, now),
            match healthy {
                Ok(_) => listed_tools(old(self)@, outcome) is Ok,
                Err(message) => listed_tools(old(self)@, outcome) == Err::<
                    Seq<ToolView>,
                    Seq<char>,
                >(message@),
            },
    {
        match self.finish_refresh(outcome, now) {
            Ok(_) => Ok(()),
            Err(message) => Err(message),
        }
    }

    /// How often the server's health is probed, if it is at all: an interval of zero means never.
    pub fn start_health_probe(interval_secs: u64) -> (interval: Option<Duration>)
        ensures
            interval == if interval_secs == 0 {
                None::<Duration>
            } else {
                Some(Duration { secs: interval_secs, subsec_nanos: 0 })
            },
    {
        if interval_secs == 0 {
            None
        } else {
            Some(Duration::from_secs(interval_secs))
        }
    }
}

/// A list of tools is current for five minutes after it was read, and not longer.
pub proof fn law_cache_is_fresh_for_its_lifetime(
    server: ServerView,
    tools: Seq<ToolView>,
    read_at: Instant,
    now: Instant,
)
    requires
        read_at.nanos <= now.nanos,
    ensures
        server.with_tools(tools, read_at).cache_fresh(now) == (now.nanos - read_at.nanos
            < TOOLS_CACHE_TTL_NANOS),
        server.with_tools(tools, read_at).tools_cache == tools,
{
}

/// A forgotten list is never current, and no tool is known until the next one is read.
pub proof fn law_invalidated_cache_must_be_read_again(
    server: ServerView,
    tool_name: Seq<char>,
    now: Instant,
)
    ensures
        !server.without_tools().cache_fresh(now),
        !server.without_tools().knows(tool_name),
{
}

// ---------------------------------------------------------------------------
// Listing and errors, case by case
// ---------------------------------------------------------------------------

/// A server stands for its fields, and its tools for theirs.
pub proof fn law_a_server_stands_for_its_fields(server: McpServer, i: int)
    ensures
        server@.name == server.name@,
        server@.request_timeout == server.request_timeout,
        server@.max_retries == server.max_retries,
        server@.tools_cache.len() == server.tools_cache@.len(),
        server@.tools_cache_updated_at == server.tools_cache_updated_at,
        server@.circuit_breaker == server.circuit_breaker,
        server@.queue_wait == server.queue_wait,
        server@.rate_limiter == server.rate_limiter,
        0 <= i < server.tools_cache@.len() ==> {
            let tool = server.tools_cache@[i];
            let seen = server@.tools_cache[i];
            &&& seen.server_name == tool.server_name@
            &&& seen.name == tool.name@
            &&& seen.description == tool.description@
            &&& seen.input_schema == tool.input_schema@
        },
{
}

/// Each tool that a server lists is described by what the server says of it, under the server's
/// name and in its place. Without a description it has an empty one; without a schema it takes an
/// object without properties.
pub proof fn law_listed_tools_are_described(
    server_name: Seq<char>,
    tools: Seq<ListedTool>,
    i: int,
)
    requires
        0 <= i < tools.len(),
    ensures
        all_described(server_name, tools).len() == tools.len(),
        all_described(server_name, tools)[i].server_name == server_name,
        all_described(server_name, tools)[i].name == tools[i].name@,
        tools[i].description matches Some(text) ==> all_described(
            server_name,
            tools,
        )[i].description == text@,
        tools[i].description is None ==> all_described(server_name, tools)[i].description.len()
            == 0,
        tools[i].input_schema matches Some(schema) ==> all_described(
            server_name,
            tools,
        )[i].input_schema == schema@,
        tools[i].input_schema is None ==> all_described(server_name, tools)[i].input_schema
            == "{\"type\":\"object\",\"properties\":{}}"@,
{
}

/// A server that was just connected has the limits that were settled for it, knows no tool and
/// has to be asked for them, and starts with a closed circuit and an unused minute.
pub proof fn law_a_new_server_has_its_limits(
    name: Seq<char>,
    settings: ServerSettings,
    now: Instant,
    later: Instant,
    tool_name: Seq<char>,
)
    ensures
        ({
            let server = ServerView::fresh(name, settings, now);
            &&& server.name == name
            &&& server.request_timeout == settings.request_timeout
            &&& server.max_retries == settings.max_retries
            &&& server.queue_wait == settings.queue_wait
            &&& server.circuit_breaker.threshold == settings.circuit_breaker_threshold
            &&& settings.circuit_breaker_cooldown_secs >= 1
                ==> server.circuit_breaker.cooldown.secs == settings.circuit_breaker_cooldown_secs
            &&& server.circuit_breaker.open_until is None
            &&& server.circuit_breaker.consecutive_failures == 0
            &&& server.rate_limiter.limit_per_minute == settings.rate_limit_per_minute
            &&& server.rate_limiter.used_in_window == 0
            &&& server.rate_limiter.window_started_at == now
            &&& !server.cache_fresh(later)
            &&& !server.knows(tool_name)
        }),
{
}

/// An answer replaces the list of tools, whole, and makes it current; without an answer the
/// server stays as it was, and the error says why. Nothing but the list and its time changes.
pub proof fn law_only_an_answer_replaces_the_list(
    server: ServerView,
    tools: Vec<ListedTool>,
    cause: String,
    now: Instant,
)
    ensures
        ({
            let after = after_listing(server, ListOutcome::Listed(tools), now);
            let seen = all_described(server.name, tools@);
            &&& listed_tools(server, ListOutcome::Listed(tools)) == Ok::<
                Seq<ToolView>,
                Seq<char>,
            >(seen)
            &&& after.tools_cache == seen
            &&& after.tools_cache_updated_at == Some(now)
            &&& after.name == server.name
            &&& after.request_timeout == server.request_timeout
            &&& after.max_retries == server.max_retries
            &&& after.circuit_breaker == server.circuit_breaker
            &&& after.queue_wait == server.queue_wait
            &&& after.rate_limiter == server.rate_limiter
        }),
        after_listing(server, ListOutcome::Failed(cause), now) == server,
        after_listing(server, ListOutcome::TimedOut, now) == server,
        listed_tools(server, ListOutcome::Failed(cause)) == Err::<Seq<ToolView>, Seq<char>>(
            "Failed to list tools for '"@ + server.name + "': "@ + cause@,
        ),
        listed_tools(server, ListOutcome::TimedOut) == Err::<Seq<ToolView>, Seq<char>>(
            "MCP list tools timed out for '"@ + server.name + "' after "@
                + server.request_timeout.readable(),
        ),
{
}

/// After an answer exactly the tools in it are known.
pub proof fn law_listed_tools_are_known(
    server: ServerView,
    tools: Vec<ListedTool>,
    tool_name: Seq<char>,
    now: Instant,
)
    ensures
        after_listing(server, ListOutcome::Listed(tools), now).knows(tool_name) <==> exists|i: int|
            0 <= i < tools@.len() && (#[trigger] tools@[i]).name@ == tool_name,
{
    let after = after_listing(server, ListOutcome::Listed(tools), now);
    let seen = all_described(server.name, tools@);
    assert(after.tools_cache == seen);
    if after.knows(tool_name) {
        let i = choose|i: int|
            0 <= i < after.tools_cache.len() && (#[trigger] after.tools_cache[i]).name == tool_name;
        assert(tools@[i].name@ == tool_name);
    }
    if exists|i: int| 0 <= i < tools@.len() && (#[trigger] tools@[i]).name@ == tool_name {
        let i = choose|i: int|
            0 <= i < tools@.len() && (#[trigger] tools@[i]).name@ == tool_name;
        assert(after.tools_cache[i].name == tool_name);
    }
}

/// A list is current for just under five minutes.
pub proof fn law_lists_last_five_minutes(server: ServerView, at: Instant, now: Instant)
    requires
        server.tools_cache_updated_at == Some(at),
    ensures
        server.cache_fresh(now) <==> now.nanos < at.nanos + 300_000_000_000,
{
}

/// To forget the list changes nothing else.
pub proof fn law_forgetting_touches_the_list_alone(server: ServerView)
    ensures
        server.without_tools().tools_cache.len() == 0,
        server.without_tools().tools_cache_updated_at is None,
        server.without_tools().name == server.name,
        server.without_tools().request_timeout == server.request_timeout,
        server.without_tools().max_retries == server.max_retries,
        server.without_tools().circuit_breaker == server.circuit_breaker,
        server.without_tools().queue_wait == server.queue_wait,
        server.without_tools().rate_limiter == server.rate_limiter,
{
}

/// A phrase that stands in a text, in whatever case, stands in the text in small letters.
proof fn lemma_phrase_stands(before: Seq<char>, phrase: Seq<char>, after: Seq<char>)
    ensures
        text::contains(text::lower(before + phrase + after), text::lower(phrase)),
{
    let whole = before + phrase + after;
    assert(text::lower(whole) =~= text::lower(before) + text::lower(phrase) + text::lower(after));
    text::law_substrings_can_be_cut_out(
        whole,
        text::lower(before),
        text::lower(phrase),
        text::lower(after),
    );
}

/// A text that holds a phrase holds the phrase's end.
proof fn lemma_end_of_phrase(s: Seq<char>, phrase: Seq<char>, end: Seq<char>)
    requires
        text::contains(s, phrase),
        end.len() <= phrase.len(),
        phrase.skip(phrase.len() - end.len()) == end,
    ensures
        text::contains(s, end),
{
    let at = choose|at: int| text::occurs_at(s, phrase, at);
    let from = at + phrase.len() - end.len();
    assert(s.subrange(at, at + phrase.len()) =~= phrase);
    assert forall|i: int| 0 <= i < end.len() implies s[from + i] == #[trigger] end[i] by {
        assert(end[i] == phrase.skip(phrase.len() - end.len())[i]);
        assert(s[from + i] == s.subrange(at, at + phrase.len())[from + i - at]);
    }
    assert(s.subrange(from, from + end.len()) =~= end);
    assert(text::occurs_at(s, end, from));
}

/// An error says that the tool is unknown exactly where the one phrase or the other stands
/// somewhere in it, in whatever case.
pub proof fn law_unknown_tools_are_told_by_two_phrases(
    err: Seq<char>,
    before: Seq<char>,
    phrase: Seq<char>,
    after: Seq<char>,
)
    ensures
        text::lower(phrase) == "not found"@ || text::lower(phrase) == "unknown tool"@
            ==> says_not_found(before + phrase + after),
        !text::contains(text::lower(err), "not found"@) && !text::contains(
            text::lower(err),
            "unknown tool"@,
        ) ==> !says_not_found(err),
{
    lemma_phrase_stands(before, phrase, after);
    if text::contains(text::lower(err), "tool not found"@) {
        reveal_strlit("not found");
        reveal_strlit("tool not found");
        assert("tool not found"@.skip(5) =~= "not found"@);
        lemma_end_of_phrase(text::lower(err), "tool not found"@, "not found"@);
    }
}

/// An error may be transient exactly where one of six phrases stands somewhere in it, in
/// whatever case.
pub proof fn law_transient_errors_are_told_by_six_phrases(
    err: Seq<char>,
    before: Seq<char>,
    phrase: Seq<char>,
    after: Seq<char>,
)
    ensures
        text::lower(phrase) == "timeout"@ || text::lower(phrase) == "transport closed"@
            || text::lower(phrase) == "closed connection"@ || text::lower(phrase)
            == "broken pipe"@ || text::lower(phrase) == "connection reset"@ || text::lower(phrase)
            == "temporarily unavailable"@ ==> says_transient(before + phrase + after),
        !text::contains(text::lower(err), "timeout"@) && !text::contains(
            text::lower(err),
            "transport closed"@,
        ) && !text::contains(text::lower(err), "closed connection"@) && !text::contains(
            text::lower(err),
            "broken pipe"@,
        ) && !text::contains(text::lower(err), "connection reset"@) && !text::contains(
            text::lower(err),
            "temporarily unavailable"@,
        ) ==> !says_transient(err),
{
    lemma_phrase_stands(before, phrase, after);
    if text::contains(text::lower(err), "request timeout"@) {
        reveal_strlit("timeout");
        reveal_strlit("request timeout");
        assert("request timeout"@.skip(8) =~= "timeout"@);
        lemma_end_of_phrase(text::lower(err), "request timeout"@, "timeout"@);
    }
}

} // verus!
