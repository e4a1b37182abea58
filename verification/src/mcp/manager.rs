//! All configured servers: which to connect to, in which order, and the tools that they offer.

use vstd::prelude::*;

use crate::clock::{Duration, Instant};
use crate::mcp::config;
use crate::mcp::config::{McpConfig, McpServerConfig, Override};
use crate::mcp::connect;
use crate::mcp::connect::{ServerSettings, DEFAULT_HEALTH_INTERVAL_SECS};
use crate::mcp::server;
use crate::mcp::server::{ListOutcome, McpServer, McpToolInfo, ServerView, ToolView};
use crate::table;
use crate::text;

verus! {

/// Seconds that one attempt to connect to a server may take.
pub const CONNECT_TIMEOUT_SECS: u64 = 30;

/// The servers to which there is a connection.
pub struct McpManager {
    pub servers: Vec<McpServer>,
}

/// What a list of servers stands for.
pub open spec fn server_views(servers: Seq<McpServer>) -> Seq<ServerView> {
    servers.map_values(|s: McpServer| s@)
}

impl View for McpManager {
    type V = Seq<ServerView>;

    open spec fn view(&self) -> Seq<ServerView> {
        server_views(self.servers@)
    }
}

/// The tools of all servers, server by server, each with the position of its server.
pub open spec fn tools_of(servers: Seq<ServerView>) -> Seq<(int, ToolView)>
    decreases servers.len(),
{
    if servers.len() == 0 {
        Seq::empty()
    } else {
        tools_of(servers.drop_last()) + servers.last().tools_cache.map_values(
            |t: ToolView| (servers.len() - 1, t),
        )
    }
}

/// What a list of tools and positions stands for.
pub open spec fn placed_views(tools: Seq<(usize, McpToolInfo)>) -> Seq<(int, ToolView)> {
    tools.map_values(|t: (usize, McpToolInfo)| (t.0 as int, t.1@))
}

/// How often a server's health is probed.
pub open spec fn health_interval(config: McpServerConfig) -> Option<Duration> {
    let secs = connect::or_default(config.health_interval_secs, DEFAULT_HEALTH_INTERVAL_SECS);
    if secs == 0 {
        None
    } else {
        Some(Duration { secs, subsec_nanos: 0 })
    }
}

impl McpManager {
    /// The servers, in the order in which they were connected.
    pub fn servers(&self) -> (servers: &Vec<McpServer>)
        ensures
            *servers == self.servers,
            server_views(servers@) == self@,
    {
        &self.servers
    }

    /// The tools of all servers, each with the position of its server.
    pub fn all_tools(&self) -> (tools: Vec<(usize, McpToolInfo)>)
        ensures
            placed_views(tools@) == tools_of(self@),
    {
        let mut tools: Vec<(usize, McpToolInfo)> = Vec::new();
        let mut i: usize = 0;
        proof {
            assert(self@.take(0) =~= Seq::empty());
            assert(placed_views(tools@) =~= Seq::empty());
        }
        while i < self.servers.len()
            invariant
                i <= self.servers@.len(),
                placed_views(tools@) == tools_of(self@.take(i as int)),
            decreases self.servers@.len() - i,
        {
            let ghost before = placed_views(tools@);
            let ghost cache = self@[i as int].tools_cache;
            let snapshot = self.servers[i].tools_snapshot();
            let ghost all = snapshot@;
            proof {
                assert(server::tool_views(all) == cache);
                assert(cache.len() == all.len());
                assert(placed_views(tools@) =~= before + cache.take(0).map_values(
                    |t: ToolView| (i as int, t),
                ));
            }
            for tool in it: snapshot
                invariant
                    all == it.seq(),
                    server::tool_views(all) == cache,
                    placed_views(tools@) == before + cache.take(it.index() as int).map_values(
                        |t: ToolView| (i as int, t),
                    ),
            {
                proof {
                    let k = it.index() as int;
                    assert(cache[k] == all[k]@);
                    assert(cache.take(k + 1) =~= cache.take(k).push(cache[k]));
                    assert(before + cache.take(k + 1).map_values(|t: ToolView| (i as int, t)) =~= (
                    before + cache.take(k).map_values(|t: ToolView| (i as int, t))).push(
                        (i as int, cache[k]),
                    ));
                }
                let ghost so_far = placed_views(tools@);
                let ghost item = tool@;
                tools.push((i, tool));
                proof {
                    assert(placed_views(tools@) =~= so_far.push((i as int, item)));
                }
            }
            proof {
                assert(cache.take(cache.len() as int) =~= cache);
                assert(self@.take(i + 1).drop_last() =~= self@.take(i as int));
                assert(cache.map_values(|t: ToolView| (i as int, t)) =~= cache.map_values(
                    |t: ToolView| (self@.take(i + 1).len() - 1, t),
                ));
            }
            i += 1;
        }
        proof {
            assert(self@.take(i as int) =~= self@);
        }
        tools
    }

    /// Starts to connect to the servers in a list of configuration sources.
    pub fn from_config_paths(
        sources: Vec<Option<McpConfig>>,
        default_request_timeout_secs: u64,
    ) -> (startup: Startup)
        ensures
            startup.wf(),
            startup.next == 0,
            startup.manager@ == Seq::<ServerView>::empty(),
            startup.request_timeout_secs == config::request_timeout_secs(
                None,
                default_request_timeout_secs,
            ),
            text::opt_text(startup.default_protocol_version) == config::merged_protocol(sources@),
            config::override_views(startup.overrides@) == config::overrides(sources@),
            table::by_name(table::named(startup.entries@)) == config::merged_servers(sources@),
    {
        let request_timeout_secs = config::resolve_request_timeout_secs(
            None,
            default_request_timeout_secs,
        );
        let (_, default_protocol_version, servers, overrides) = config::merge_and_note(sources);
        let startup = Startup {
            request_timeout_secs,
            default_protocol_version,
            overrides,
            entries: servers.into_sorted(),
            next: 0,
            manager: McpManager { servers: Vec::new() },
        };
        proof {
            assert(startup.manager@ =~= Seq::<ServerView>::empty());
        }
        startup
    }

    /// Starts to connect to the servers in one configuration source.
    pub fn from_config_file(source: Option<McpConfig>, default_request_timeout_secs: u64) -> (
        startup: Startup)
        ensures
            startup.wf(),
            startup.next == 0,
            startup.manager@ == Seq::<ServerView>::empty(),
            startup.request_timeout_secs == config::request_timeout_secs(
                None,
                default_request_timeout_secs,
            ),
            text::opt_text(startup.default_protocol_version) == config::merged_protocol(
                seq![source],
            ),
            config::override_views(startup.overrides@) == config::overrides(seq![source]),
            table::by_name(table::named(startup.entries@)) == config::merged_servers(seq![source]),
    {
        let mut sources: Vec<Option<McpConfig>> = Vec::new();
        sources.push(source);
        proof {
            assert(sources@ =~= seq![source]);
        }
        McpManager::from_config_paths(sources, default_request_timeout_secs)
    }
}

/// The servers are in the order of their names.
pub open spec fn in_order(servers: Seq<ServerView>) -> bool {
    forall|i: int, j: int|
        0 <= i < j < servers.len() ==> text::before(
            (#[trigger] servers[i]).name,
            (#[trigger] servers[j]).name,
        )
}

/// What came of the attempt to connect to a server.
pub enum Attempt {
    /// There is no connection.
    Failed,
    /// There is one, and the server was asked for its tools.
    Connected { connected_at: Instant, listing: ListOutcome, listed_at: Instant },
}

/// A server with the limits of its configuration that has just been connected.
pub open spec fn new_server(
    name: Seq<char>,
    config: McpServerConfig,
    request_timeout_secs: u64,
    connected_at: Instant,
) -> ServerView {
    ServerView::fresh(
        name,
        ServerSettings::resolved(config, request_timeout_secs),
        connected_at,
    )
}

/// The server that is taken on after an attempt: one that listed its tools.
pub open spec fn taken_on(
    name: Seq<char>,
    config: McpServerConfig,
    request_timeout_secs: u64,
    attempt: Attempt,
) -> Option<ServerView> {
    match attempt {
        Attempt::Failed => None,
        Attempt::Connected { connected_at, listing, listed_at } => {
            let fresh = new_server(name, config, request_timeout_secs, connected_at);
            match server::listed_tools(fresh, listing) {
                Ok(tools) => Some(fresh.with_tools(tools, listed_at)),
                Err(_) => None,
            }
        },
    }
}

/// The servers with one more, if there is one.
pub open spec fn with_server(servers: Seq<ServerView>, server: Option<ServerView>) -> Seq<
    ServerView,
> {
    match server {
        Some(server) => servers.push(server),
        None => servers,
    }
}

/// The servers after one attempt for each of the first entries, in order.
pub open spec fn servers_after(
    entries: Seq<(Seq<char>, McpServerConfig)>,
    request_timeout_secs: u64,
    attempts: Seq<Attempt>,
) -> Seq<ServerView>
    decreases attempts.len(),
{
    if attempts.len() == 0 {
        Seq::empty()
    } else {
        let (name, config) = entries[attempts.len() - 1];
        with_server(
            servers_after(entries, request_timeout_secs, attempts.drop_last()),
            taken_on(name, config, request_timeout_secs, attempts.last()),
        )
    }
}

/// Connections being made, one server after the other, in the order of their names.
pub struct Startup {
    pub request_timeout_secs: u64,
    pub default_protocol_version: Option<String>,
    /// The servers that a later configuration source overrode.
    pub overrides: Vec<Override>,
    pub entries: Vec<(String, McpServerConfig)>,
    /// The position of the entry that is to be connected next.
    pub next: usize,
    /// The servers connected so far.
    pub manager: McpManager,
}

impl Startup {
    /// The servers are in the order of their names, those that are connected and those that are
    /// left, and no more are connected than were tried.
    pub open spec fn wf(self) -> bool {
        &&& table::names_ascend(table::named(self.entries@))
        &&& self.manager@.len() <= self.next <= self.entries@.len()
        &&& in_order(self.manager@)
        &&& forall|i: int, k: int|
            0 <= i < self.manager@.len() && self.next <= k < self.entries@.len() ==> text::before(
                (#[trigger] self.manager@[i]).name,
                (#[trigger] self.entries@[k]).0@,
            )
    }

    /// Nothing but the connections made so far has changed.
    pub open spec fn same_plan(self, other: Startup) -> bool {
        &&& self.request_timeout_secs == other.request_timeout_secs
        &&& self.default_protocol_version == other.default_protocol_version
        &&& self.overrides == other.overrides
        &&& self.entries == other.entries
    }

    /// The server to connect next, if any is left.
    pub fn pending(&self) -> (entry: Option<&(String, McpServerConfig)>)
        ensures
            match entry {
                Some(entry) => self.next < self.entries@.len() && *entry
                    == self.entries@[self.next as int],
                None => self.next >= self.entries@.len(),
            },
    {
        if self.next < self.entries.len() {
            Some(&self.entries[self.next])
        } else {
            None
        }
    }

    /// A connection to the pending server was made, and it was asked for its tools. With an
    /// answer it is taken on, with the limits of its configuration, and the result says how often
    /// to probe its health; without one it is passed over.
    pub fn connected(
        &mut self,
        connected_at: Instant,
        listing: ListOutcome,
        listed_at: Instant,
    ) -> (interval: Result<Option<Duration>, String>)
        requires
            old(self).wf(),
            old(self).next < old(self).entries@.len(),
        ensures
            final(self).wf(),
            final(self).same_plan(*old(self)),
            final(self).next == old(self).next + 1,
            ({
                let (name, config) = old(self).entries@[old(self).next as int];
                let timeout = old(self).request_timeout_secs;
                let fresh = new_server(name@, config, timeout, connected_at);
                let attempt = Attempt::Connected { connected_at, listing, listed_at };
                &&& final(self).manager@ == with_server(
                    old(self).manager@,
                    taken_on(name@, config, timeout, attempt),
                )
                &&& match server::listed_tools(fresh, listing) {
                    Ok(_) => interval == Ok::<Option<Duration>, String>(health_interval(config)),
                    Err(message) => interval is Err && interval->Err_0@ == message,
                }
            }),
    {
        let at: usize = self.next;
        let settings = ServerSettings::resolve(&self.entries[at].1, self.request_timeout_secs);
        let mut server = McpServer::connected(
            self.entries[at].0.as_str(),
            &settings,
            connected_at,
        );
        let interval_secs: u64 = match self.entries[at].1.health_interval_secs {
            Some(secs) => secs,
            None => DEFAULT_HEALTH_INTERVAL_SECS,
        };
        assert(at < self.entries.len());
        self.next = at + 1;
        match server.finish_refresh(listing, listed_at) {
            Ok(_) => {
                let ghost before = self.manager@;
                let ghost taken = server@;
                self.manager.servers.push(server);
                proof {
                    assert(self.manager@ =~= before.push(taken));
                    assert forall|k: int| at < k < self.entries@.len() implies text::before(
                        taken.name,
                        (#[trigger] self.entries@[k]).0@,
                    ) by {
                        let all = table::named(self.entries@);
                        assert(text::before(all[at as int].0, all[k].0));
                    }
                }
                Ok(McpServer::start_health_probe(interval_secs))
            },
            Err(message) => Err(message),
        }
    }

    /// No connection to the pending server could be made in time. It is passed over.
    pub fn failed(&mut self)
        requires
            old(self).wf(),
            old(self).next < old(self).entries@.len(),
        ensures
            final(self).wf(),
            final(self).same_plan(*old(self)),
            final(self).next == old(self).next + 1,
            final(self).manager == old(self).manager,
    {
        assert(self.next < self.entries.len());
        self.next = self.next + 1;
    }
}

// ---------------------------------------------------------------------------
// A whole startup
// ---------------------------------------------------------------------------

/// After all attempts the servers are exactly the configured ones whose attempt listed its
/// tools, each with the limits of its own configuration, in the order of their names.
pub proof fn law_servers_are_those_that_listed_their_tools(
    entries: Seq<(Seq<char>, McpServerConfig)>,
    request_timeout_secs: u64,
    attempts: Seq<Attempt>,
    server: ServerView,
)
    requires
        table::names_ascend(entries),
        attempts.len() <= entries.len(),
    ensures
        in_order(servers_after(entries, request_timeout_secs, attempts)),
        servers_after(entries, request_timeout_secs, attempts).contains(server) <==> exists|k: int|
            0 <= k < attempts.len() && taken_on(
                (#[trigger] entries[k]).0,
                entries[k].1,
                request_timeout_secs,
                attempts[k],
            ) == Some(server),
    decreases attempts.len(),
{
    lemma_names_come_before(entries, request_timeout_secs, attempts);
    let all = servers_after(entries, request_timeout_secs, attempts);
    if attempts.len() > 0 {
        let rest = attempts.drop_last();
        let last = attempts.len() - 1;
        law_servers_are_those_that_listed_their_tools(entries, request_timeout_secs, rest, server);
        let earlier = servers_after(entries, request_timeout_secs, rest);
        let taken = taken_on(
            entries[last].0,
            entries[last].1,
            request_timeout_secs,
            attempts[last],
        );
        assert(all == with_server(earlier, taken));
        if all.contains(server) && !earlier.contains(server) {
            let i = choose|i: int| 0 <= i < all.len() && all[i] == server;
            if i < earlier.len() {
                assert(earlier[i] == server);
            }
            assert(taken == Some(server));
        }
        if earlier.contains(server) {
            let i = choose|i: int| 0 <= i < earlier.len() && earlier[i] == server;
            assert(all[i] == server);
            let k = choose|k: int|
                0 <= k < rest.len() && taken_on(
                    (#[trigger] entries[k]).0,
                    entries[k].1,
                    request_timeout_secs,
                    rest[k],
                ) == Some(server);
            assert(attempts[k] == rest[k]);
        }
        if exists|k: int|
            0 <= k < attempts.len() && taken_on(
                (#[trigger] entries[k]).0,
                entries[k].1,
                request_timeout_secs,
                attempts[k],
            ) == Some(server) {
            let k = choose|k: int|
                0 <= k < attempts.len() && taken_on(
                    (#[trigger] entries[k]).0,
                    entries[k].1,
                    request_timeout_secs,
                    attempts[k],
                ) == Some(server);
            if k < last {
                assert(rest[k] == attempts[k]);
                assert(earlier.contains(server));
            } else {
                assert(all[earlier.len() as int] == server);
            }
        }
    }
}

/// The servers taken on so far are in order, and come before all that are left.
proof fn lemma_names_come_before(
    entries: Seq<(Seq<char>, McpServerConfig)>,
    request_timeout_secs: u64,
    attempts: Seq<Attempt>,
)
    requires
        table::names_ascend(entries),
        attempts.len() <= entries.len(),
    ensures
        in_order(servers_after(entries, request_timeout_secs, attempts)),
        forall|i: int, k: int|
            0 <= i < servers_after(entries, request_timeout_secs, attempts).len() && attempts.len()
                <= k < entries.len() ==> text::before(
                (#[trigger] servers_after(entries, request_timeout_secs, attempts)[i]).name,
                (#[trigger] entries[k]).0,
            ),
    decreases attempts.len(),
{
    if attempts.len() > 0 {
        lemma_names_come_before(entries, request_timeout_secs, attempts.drop_last());
        let last = attempts.len() - 1;
        assert forall|k: int| last < k < entries.len() implies text::before(
            entries[last].0,
            (#[trigger] entries[k]).0,
        ) by {}
    }
}

/// Carrying on with one more attempt is what taking in its outcome does, so a startup that took
/// in the attempts one by one holds the servers after all of them.
pub proof fn law_startup_goes_attempt_by_attempt(
    entries: Seq<(Seq<char>, McpServerConfig)>,
    request_timeout_secs: u64,
    attempts: Seq<Attempt>,
    attempt: Attempt,
)
    ensures
        servers_after(entries, request_timeout_secs, attempts.push(attempt)) == with_server(
            servers_after(entries, request_timeout_secs, attempts),
            taken_on(
                entries[attempts.len() as int].0,
                entries[attempts.len() as int].1,
                request_timeout_secs,
                attempt,
            ),
        ),
{
    assert(attempts.push(attempt).drop_last() =~= attempts);
}

// ---------------------------------------------------------------------------
// Ownership of tools
// ---------------------------------------------------------------------------

/// Every tool in a server's list names the server.
pub open spec fn owns_tools(server: ServerView) -> bool {
    forall|i: int|
        0 <= i < server.tools_cache.len() ==> (#[trigger] server.tools_cache[i]).server_name
            == server.name
}

/// A server that has just been connected, or that lists its tools, or that forgets them, has
/// only tools that name it.
pub proof fn law_tools_name_their_server(
    server: ServerView,
    settings: ServerSettings,
    outcome: ListOutcome,
    now: Instant,
)
    ensures
        owns_tools(ServerView::fresh(server.name, settings, now)),
        owns_tools(server) ==> owns_tools(server::after_listing(server, outcome, now)),
        outcome is Listed ==> owns_tools(server::after_listing(server, outcome, now)),
        owns_tools(server.without_tools()),
{
}

/// The list of all tools holds each tool of each server, and no other.
pub proof fn law_all_tools_are_the_servers_tools(servers: Seq<ServerView>, at: int, tool: ToolView)
    ensures
        tools_of(servers).contains((at, tool)) == (0 <= at < servers.len()
            && servers[at].tools_cache.contains(tool)),
    decreases servers.len(),
{
    if servers.len() > 0 {
        let rest = servers.drop_last();
        let last = servers.len() - 1;
        let cache = servers.last().tools_cache;
        let mine = cache.map_values(|t: ToolView| (servers.len() - 1, t));
        law_all_tools_are_the_servers_tools(rest, at, tool);
        let front = tools_of(rest);
        assert(tools_of(servers) == front + mine);
        assert(tools_of(servers).contains((at, tool)) == (front.contains((at, tool))
            || mine.contains((at, tool)))) by {
            if front.contains((at, tool)) {
                let i = choose|i: int| 0 <= i < front.len() && front[i] == (at, tool);
                assert((front + mine)[i] == (at, tool));
            }
            if mine.contains((at, tool)) {
                let i = choose|i: int| 0 <= i < mine.len() && mine[i] == (at, tool);
                assert((front + mine)[front.len() + i] == (at, tool));
            }
            if (front + mine).contains((at, tool)) {
                let i = choose|i: int|
                    0 <= i < (front + mine).len() && (front + mine)[i] == (at, tool);
                if i < front.len() {
                    assert(front[i] == (at, tool));
                } else {
                    assert(mine[i - front.len()] == (at, tool));
                }
            }
        }
        assert(mine.contains((at, tool)) == (at == last && cache.contains(tool))) by {
            if mine.contains((at, tool)) {
                let i = choose|i: int| 0 <= i < mine.len() && mine[i] == (at, tool);
                assert(cache[i] == tool);
            }
            if at == last && cache.contains(tool) {
                let i = choose|i: int| 0 <= i < cache.len() && cache[i] == tool;
                assert(mine[i] == (at, tool));
            }
        }
        if 0 <= at < last {
            assert(rest[at] == servers[at]);
        }
    }
}

/// The tools come server by server: those of one more server follow all the others, in the order
/// of its own list, and carry its position.
pub proof fn law_tools_come_server_by_server(servers: Seq<ServerView>, server: ServerView, i: int)
    ensures
        tools_of(Seq::empty()).len() == 0,
        tools_of(servers.push(server)).len() == tools_of(servers).len() + server.tools_cache.len(),
        0 <= i < tools_of(servers).len() ==> tools_of(servers.push(server))[i] == tools_of(
            servers,
        )[i],
        0 <= i < server.tools_cache.len() ==> tools_of(servers.push(server))[tools_of(
            servers,
        ).len() + i] == (servers.len() as int, server.tools_cache[i]),
{
    assert(servers.push(server).drop_last() =~= servers);
}

/// A list of tools and positions stands for both of each.
pub proof fn law_placed_tools_keep_their_place(tools: Seq<(usize, McpToolInfo)>, i: int)
    requires
        0 <= i < tools.len(),
    ensures
        placed_views(tools).len() == tools.len(),
        placed_views(tools)[i].0 == tools[i].0,
        placed_views(tools)[i].1 == tools[i].1@,
{
}

/// A server's health is probed as often as its configuration says, every minute where it says
/// nothing, and never where it says zero.
pub proof fn law_health_is_probed_as_configured(config: McpServerConfig)
    ensures
        config.health_interval_secs is None ==> health_interval(config) == Some(
            Duration { secs: 60, subsec_nanos: 0 },
        ),
        config.health_interval_secs == Some(0u64) ==> health_interval(config) is None,
        forall|n: u64|
            n >= 1 && config.health_interval_secs == Some(n) ==> health_interval(config) == Some(
                Duration { secs: n, subsec_nanos: 0 },
            ),
{
}

/// A server is taken on exactly where there is a connection and it listed its tools, and then
/// with those tools, read when it listed them, under its name and with its limits.
pub proof fn law_a_server_that_lists_is_taken_on(
    servers: Seq<ServerView>,
    name: Seq<char>,
    config: McpServerConfig,
    timeout: u64,
    connected_at: Instant,
    listed_at: Instant,
    listing: ListOutcome,
)
    ensures
        ({
            let attempt = Attempt::Connected { connected_at, listing, listed_at };
            let taken = taken_on(name, config, timeout, attempt);
            let settings = ServerSettings::resolved(config, timeout);
            &&& taken is Some <==> listing is Listed
            &&& taken is Some ==> {
                let server = taken->Some_0;
                &&& server.name == name
                &&& server.tools_cache == server::all_described(
                    name,
                    listing->Listed_0@,
                )
                &&& server.tools_cache_updated_at == Some(listed_at)
                &&& server.request_timeout == settings.request_timeout
                &&& server.max_retries == settings.max_retries
                &&& server.queue_wait == settings.queue_wait
                &&& server.circuit_breaker.threshold == settings.circuit_breaker_threshold
                &&& server.rate_limiter.limit_per_minute == settings.rate_limit_per_minute
                &&& server.rate_limiter.window_started_at == connected_at
                &&& with_server(servers, taken) == servers.push(server)
            }
            &&& taken is None ==> with_server(servers, taken) == servers
        }),
        taken_on(name, config, timeout, Attempt::Failed) is None,
{
}

/// Servers in order are compared in pairs by name, and so are the entries of a startup that is
/// in order; carrying on leaves everything but the connections as it was planned.
pub proof fn law_order_and_plan_of_a_startup(
    servers: Seq<ServerView>,
    startup: Startup,
    other: Startup,
    i: int,
    j: int,
)
    ensures
        in_order(servers) && 0 <= i < j < servers.len() ==> text::before(
            servers[i].name,
            servers[j].name,
        ),
        startup.wf() && 0 <= i < j < startup.entries@.len() ==> text::before(
            startup.entries@[i].0@,
            startup.entries@[j].0@,
        ),
        startup.wf() ==> in_order(startup.manager@),
        startup.same_plan(other) ==> startup.request_timeout_secs == other.request_timeout_secs
            && startup.default_protocol_version == other.default_protocol_version
            && startup.overrides == other.overrides && startup.entries == other.entries,
{
    if startup.wf() && 0 <= i < j < startup.entries@.len() {
        table::law_entries_are_compared_in_pairs(startup.entries@, i, j);
    }
}

/// The servers of a manager stand for what each of them does, in their places.
pub proof fn law_a_manager_stands_for_its_servers(manager: McpManager, i: int)
    ensures
        manager@.len() == manager.servers@.len(),
        0 <= i < manager.servers@.len() ==> manager@[i] == manager.servers@[i]@,
{
}

} // verus!
