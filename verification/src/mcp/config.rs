//! The configuration of tool servers, and how several configuration sources become one.

use vstd::prelude::*;

use crate::table;
use crate::table::NameTable;
use crate::text;

verus! {

/// How to reach one server, and the limits under which it is used. A limit that is absent has
/// a default.
#[derive(Clone, Debug)]
pub struct McpServerConfig {
    pub transport: String,
    pub protocol_version: Option<String>,
    pub request_timeout_secs: Option<u64>,
    pub max_retries: Option<u32>,
    pub health_interval_secs: Option<u64>,
    pub circuit_breaker_failure_threshold: Option<u32>,
    pub circuit_breaker_cooldown_secs: Option<u64>,
    pub max_concurrent_requests: Option<u32>,
    pub queue_wait_ms: Option<u64>,
    pub rate_limit_per_minute: Option<u32>,
    /// Of the `stdio` transport: the program to start, its arguments and its environment.
    pub command: String,
    pub args: Vec<String>,
    pub env: Vec<(String, String)>,
    /// Of the `streamable_http` transport: where to send requests, and the headers to add.
    pub endpoint: String,
    pub headers: Vec<(String, String)>,
}

/// One configuration source.
#[derive(Clone, Debug)]
pub struct McpConfig {
    pub default_protocol_version: Option<String>,
    pub mcp_servers: Vec<(String, McpServerConfig)>,
}

/// The transport of a server that names none.
pub fn default_transport() -> (transport: String)
    ensures
        transport@ == "stdio"@,
{
    "stdio".to_string()
}

/// Seconds that one request may take: the server's own setting where it has one, else the
/// default, and never less than one.
pub open spec fn request_timeout_secs(configured: Option<u64>, default: u64) -> u64 {
    let secs = match configured {
        Some(secs) => secs,
        None => default,
    };
    if secs < 1 {
        1
    } else {
        secs
    }
}

/// Seconds that one request may take: the server's own setting where it has one, else the
/// default, and never less than one.
pub fn resolve_request_timeout_secs(
    config_timeout_secs: Option<u64>,
    default_request_timeout_secs: u64,
) -> (secs: u64)
    ensures
        secs == request_timeout_secs(config_timeout_secs, default_request_timeout_secs),
        secs >= 1,
{
    config_timeout_secs.unwrap_or(default_request_timeout_secs).max(1)
}

/// Resolving the default alone first changes nothing.
pub proof fn law_request_timeout_default_resolves_once(configured: Option<u64>, default: u64)
    ensures
        request_timeout_secs(configured, request_timeout_secs(None, default))
            == request_timeout_secs(configured, default),
{
}

/// Servers, each under a name of its own.
pub type ServerTable = NameTable<McpServerConfig>;

// ---------------------------------------------------------------------------
// Merging
// ---------------------------------------------------------------------------

/// At least one source could be loaded.
pub open spec fn any_loaded(sources: Seq<Option<McpConfig>>) -> bool {
    exists|i: int| 0 <= i < sources.len() && (#[trigger] sources[i]) is Some
}

/// The default protocol version of the last source that names one.
pub open spec fn merged_protocol(sources: Seq<Option<McpConfig>>) -> Option<Seq<char>>
    decreases sources.len(),
{
    if sources.len() == 0 {
        None
    } else {
        match sources.last() {
            Some(config) if config.default_protocol_version is Some => Some(
                config.default_protocol_version->0@,
            ),
            _ => merged_protocol(sources.drop_last()),
        }
    }
}

/// The servers of all sources: of two with one name the one from the later source.
pub open spec fn merged_servers(sources: Seq<Option<McpConfig>>) -> Map<Seq<char>, McpServerConfig>
    decreases sources.len(),
{
    if sources.len() == 0 {
        Map::empty()
    } else {
        let earlier = merged_servers(sources.drop_last());
        match sources.last() {
            Some(config) => earlier.union_prefer_right(
                table::by_name(table::named(config.mcp_servers@)),
            ),
            None => earlier,
        }
    }
}

/// A server that a source overrode: its name, and the position of the source.
pub struct Override {
    pub name: String,
    pub source: usize,
}

/// What a list of overrides stands for.
pub open spec fn override_views(list: Seq<Override>) -> Seq<(Seq<char>, int)> {
    list.map_values(|o: Override| (o.name@, o.source as int))
}

/// The overrides when servers are added, one after the other, to those that there are.
pub open spec fn overrides_by(
    base: Map<Seq<char>, McpServerConfig>,
    added: Seq<(Seq<char>, McpServerConfig)>,
    source: int,
) -> Seq<(Seq<char>, int)>
    decreases added.len(),
{
    if added.len() == 0 {
        Seq::empty()
    } else {
        let earlier = overrides_by(base, added.drop_last(), source);
        let name = added.last().0;
        if base.union_prefer_right(table::by_name(added.drop_last())).contains_key(name) {
            earlier.push((name, source))
        } else {
            earlier
        }
    }
}

/// The overrides in a list of sources, in the order in which they happen.
pub open spec fn overrides(sources: Seq<Option<McpConfig>>) -> Seq<(Seq<char>, int)>
    decreases sources.len(),
{
    if sources.len() == 0 {
        Seq::empty()
    } else {
        let earlier = overrides(sources.drop_last());
        match sources.last() {
            Some(config) => earlier + overrides_by(
                merged_servers(sources.drop_last()),
                table::named(config.mcp_servers@),
                sources.len() - 1,
            ),
            None => earlier,
        }
    }
}

/// Adds the servers of one source to a table, and notes which were there already.
fn add_servers(
    table: &mut ServerTable,
    servers: Vec<(String, McpServerConfig)>,
    source: usize,
    overridden: &mut Vec<Override>,
)
    requires
        old(table).wf(),
    ensures
        final(table).wf(),
        final(table)@ == old(table)@.union_prefer_right(table::by_name(table::named(servers@))),
        override_views(final(overridden)@) == override_views(old(overridden)@) + overrides_by(
            old(table)@,
            table::named(servers@),
            source as int,
        ),
{
    let ghost base = table@;
    let ghost all = table::named(servers@);
    let ghost noted = override_views(overridden@);
    proof {
        assert(base.union_prefer_right(table::by_name(all.take(0))) =~= base);
        assert(noted + overrides_by(base, all.take(0), source as int) =~= noted);
    }
    for entry in it: servers
        invariant
            table.wf(),
            all == table::named(it.seq()),
            table@ == base.union_prefer_right(table::by_name(all.take(it.index() as int))),
            override_views(overridden@) == noted + overrides_by(
                base,
                all.take(it.index() as int),
                source as int,
            ),
    {
        let ghost so_far = override_views(overridden@);
        proof {
            let k = it.index() as int;
            assert(all.take(k + 1).drop_last() =~= all.take(k));
            assert(all[k] == (entry.0@, entry.1));
            assert(base.union_prefer_right(table::by_name(all.take(k + 1)))
                =~= base.union_prefer_right(table::by_name(all.take(k))).insert(entry.0@, entry.1));
        }
        let (name, server) = entry;
        let ghost held = name@;
        let noted_name = name.clone();
        if table.insert(name, server) {
            overridden.push(Override { name: noted_name, source });
            proof {
                let k = it.index() as int;
                assert(override_views(overridden@) =~= so_far.push((held, source as int)));
                assert(noted + overrides_by(base, all.take(k), source as int).push(
                    (held, source as int),
                ) =~= so_far.push((held, source as int)));
            }
        }
    }
    proof {
        assert(all.take(all.len() as int) =~= all);
    }
}

/// Merges configuration sources, in the order in which they are given; a source that could not
/// be loaded is `None`. Returns whether any could be, the default protocol version and the
/// servers. Later sources override earlier ones.
pub fn merge_config_sources(sources: Vec<Option<McpConfig>>) -> (merged: (
    bool,
    Option<String>,
    ServerTable,
))
    ensures
        merged.0 == any_loaded(sources@),
        text::opt_text(merged.1) == merged_protocol(sources@),
        merged.2.wf(),
        merged.2@ == merged_servers(sources@),
{
    let (loaded, protocol, servers, _) = merge_and_note(sources);
    (loaded, protocol, servers)
}

/// Merges configuration sources, and lists the servers that a later source overrode.
pub fn merge_and_note(sources: Vec<Option<McpConfig>>) -> (merged: (
    bool,
    Option<String>,
    ServerTable,
    Vec<Override>,
))
    ensures
        merged.0 == any_loaded(sources@),
        text::opt_text(merged.1) == merged_protocol(sources@),
        merged.2.wf(),
        merged.2@ == merged_servers(sources@),
        override_views(merged.3@) == overrides(sources@),
{
    let ghost all = sources@;
    let mut protocol: Option<String> = None;
    let mut servers = ServerTable::new();
    let mut loaded = false;
    let mut overridden: Vec<Override> = Vec::new();
    let count: usize = sources.len();
    let mut at: usize = 0;
    proof {
        assert(override_views(overridden@) =~= overrides(all.take(0)));
    }
    for source in it: sources
        invariant
            all == it.seq(),
            count == all.len(),
            at == it.index(),
            override_views(overridden@) == overrides(all.take(it.index() as int)),
            servers.wf(),
            loaded == any_loaded(all.take(it.index() as int)),
            text::opt_text(protocol) == merged_protocol(all.take(it.index() as int)),
            servers@ == merged_servers(all.take(it.index() as int)),
    {
        let ghost k = it.index() as int;
        proof {
            assert(all.take(k + 1).drop_last() =~= all.take(k));
            assert(all.take(k + 1).last() == source);
            assert(any_loaded(all.take(k + 1)) == (any_loaded(all.take(k)) || source is Some)) by {
                if any_loaded(all.take(k)) {
                    let i = choose|i: int| 0 <= i < k && (#[trigger] all.take(k)[i]) is Some;
                    assert(all.take(k + 1)[i] is Some);
                }
                if source is Some {
                    assert(all.take(k + 1)[k] is Some);
                }
                if any_loaded(all.take(k + 1)) && source is None {
                    let i = choose|i: int|
                        0 <= i < k + 1 && (#[trigger] all.take(k + 1)[i]) is Some;
                    assert(all.take(k)[i] is Some);
                }
            }
        }
        if let Some(config) = source {
            loaded = true;
            if config.default_protocol_version.is_some() {
                protocol = config.default_protocol_version;
            }
            add_servers(&mut servers, config.mcp_servers, at, &mut overridden);
        }
        assert(at < count);
        at += 1;
    }
    proof {
        assert(all.take(all.len() as int) =~= all);
    }
    (loaded, protocol, servers, overridden)
}

/// What the last source says of a server is what holds, whatever came before.
pub proof fn law_last_source_wins(
    sources: Seq<Option<McpConfig>>,
    config: McpConfig,
    name: Seq<char>,
)
    requires
        table::by_name(table::named(config.mcp_servers@)).contains_key(name),
    ensures
        merged_servers(sources.push(Some(config))).contains_key(name),
        merged_servers(sources.push(Some(config)))[name] == table::by_name(
            table::named(config.mcp_servers@),
        )[name],
{
    assert(sources.push(Some(config)).drop_last() =~= sources);
}

/// A server that the last source does not name stays as it was.
pub proof fn law_unnamed_servers_stay(
    sources: Seq<Option<McpConfig>>,
    config: McpConfig,
    name: Seq<char>,
)
    requires
        !table::by_name(table::named(config.mcp_servers@)).contains_key(name),
    ensures
        merged_servers(sources.push(Some(config))).contains_key(name) == merged_servers(
            sources,
        ).contains_key(name),
        merged_servers(sources).contains_key(name) ==> merged_servers(
            sources.push(Some(config)),
        )[name] == merged_servers(sources)[name],
{
    assert(sources.push(Some(config)).drop_last() =~= sources);
}

/// A source that could not be loaded changes nothing, wherever it stands.
pub proof fn law_missing_source_changes_nothing(
    before: Seq<Option<McpConfig>>,
    after: Seq<Option<McpConfig>>,
)
    ensures
        merged_servers(before + seq![None] + after) == merged_servers(before + after),
        merged_protocol(before + seq![None] + after) == merged_protocol(before + after),
        any_loaded(before + seq![None] + after) == any_loaded(before + after),
    decreases after.len(),
{
    let with = before + seq![None] + after;
    let without = before + after;
    if after.len() == 0 {
        assert(with.drop_last() =~= before);
        assert(without =~= before);
        assert(with.last() is None);
    } else {
        assert(with.drop_last() =~= before + seq![None] + after.drop_last());
        assert(without.drop_last() =~= before + after.drop_last());
        assert(with.last() == without.last());
        law_missing_source_changes_nothing(before, after.drop_last());
    }
    if any_loaded(without) {
        let i = choose|i: int| 0 <= i < without.len() && (#[trigger] without[i]) is Some;
        let k = if i < before.len() {
            i
        } else {
            i + 1
        };
        assert(with[k] == without[i]);
    }
    if any_loaded(with) {
        let i = choose|i: int| 0 <= i < with.len() && (#[trigger] with[i]) is Some;
        let k = if i < before.len() {
            i
        } else {
            i - 1
        };
        assert(without[k] == with[i]);
    }
}

/// A server is overridden by a source only where the sources up to and with it name the server.
pub proof fn law_only_named_servers_are_overridden(sources: Seq<Option<McpConfig>>)
    ensures
        forall|i: int|
            0 <= i < overrides(sources).len() ==> 0 <= (#[trigger] overrides(sources)[i]).1
                < sources.len() && merged_servers(sources).contains_key(overrides(sources)[i].0),
    decreases sources.len(),
{
    if sources.len() > 0 {
        let earlier = sources.drop_last();
        law_only_named_servers_are_overridden(earlier);
        if let Some(config) = sources.last() {
            let added = table::named(config.mcp_servers@);
            lemma_overrides_by(merged_servers(earlier), added, sources.len() - 1);
            let noted = overrides(earlier);
            let new = overrides_by(merged_servers(earlier), added, sources.len() - 1);
            assert forall|i: int| 0 <= i < overrides(sources).len() implies 0 <= (
            #[trigger] overrides(sources)[i]).1 < sources.len() && merged_servers(
                sources,
            ).contains_key(overrides(sources)[i].0) by {
                if i < noted.len() {
                    assert(overrides(sources)[i] == noted[i]);
                } else {
                    assert(overrides(sources)[i] == new[i - noted.len()]);
                }
            }
        }
    }
}

proof fn lemma_overrides_by(
    base: Map<Seq<char>, McpServerConfig>,
    added: Seq<(Seq<char>, McpServerConfig)>,
    source: int,
)
    ensures
        forall|i: int|
            0 <= i < overrides_by(base, added, source).len() ==> (#[trigger] overrides_by(
                base,
                added,
                source,
            )[i]).1 == source && base.union_prefer_right(table::by_name(added)).contains_key(
                overrides_by(base, added, source)[i].0,
            ),
    decreases added.len(),
{
    if added.len() > 0 {
        lemma_overrides_by(base, added.drop_last(), source);
        let earlier = overrides_by(base, added.drop_last(), source);
        assert forall|i: int| 0 <= i < overrides_by(base, added, source).len() implies (
        #[trigger] overrides_by(base, added, source)[i]).1 == source && base.union_prefer_right(
            table::by_name(added),
        ).contains_key(overrides_by(base, added, source)[i].0) by {
            if i < earlier.len() {
                assert(overrides_by(base, added, source)[i] == earlier[i]);
            }
        }
    }
}

/// Servers in the order of their names can be listed in one way only, so the order in which
/// they are connected does not depend on the order in which they were read.
pub proof fn law_connection_order_is_determined(
    a: Seq<(Seq<char>, McpServerConfig)>,
    b: Seq<(Seq<char>, McpServerConfig)>,
)
    requires
        table::names_ascend(a),
        table::names_ascend(b),
        table::by_name(a) == table::by_name(b),
    ensures
        a == b,
{
    table::lemma_sorted_unique(a, b);
}

// ---------------------------------------------------------------------------
// Merging, entry by entry
// ---------------------------------------------------------------------------

/// A request may take the seconds that the server's configuration gives, whatever the default;
/// the default where it gives none; and one second where that would be none at all.
pub proof fn law_request_timeout_is_configured_or_default(secs: u64, default: u64)
    ensures
        secs >= 1 ==> request_timeout_secs(Some(secs), default) == secs,
        request_timeout_secs(Some(0), default) == 1,
        default >= 1 ==> request_timeout_secs(None, default) == default,
        request_timeout_secs(None, 0) == 1,
{
}

/// Sources count as loaded as soon as one of them is.
pub proof fn law_one_loaded_source_is_enough(
    before: Seq<Option<McpConfig>>,
    config: McpConfig,
    after: Seq<Option<McpConfig>>,
    missing: Seq<Option<McpConfig>>,
)
    requires
        forall|i: int| 0 <= i < missing.len() ==> (#[trigger] missing[i]) is None,
    ensures
        any_loaded(before + seq![Some(config)] + after),
        !any_loaded(missing),
{
    let all = before + seq![Some(config)] + after;
    assert(all[before.len() as int] is Some);
}

/// The last source that names a default protocol version settles it; a source that names none
/// leaves it as it was, and without any source there is none.
pub proof fn law_last_named_protocol_holds(sources: Seq<Option<McpConfig>>, config: McpConfig)
    ensures
        config.default_protocol_version matches Some(version) ==> merged_protocol(
            sources.push(Some(config)),
        ) == Some(version@),
        config.default_protocol_version is None ==> merged_protocol(sources.push(Some(config)))
            == merged_protocol(sources),
        merged_protocol(Seq::empty()) == None::<Seq<char>>,
{
    assert(sources.push(Some(config)).drop_last() =~= sources);
}

/// Each entry of the last source holds, where no later entry of it has the same name.
pub proof fn law_the_last_source_holds(
    sources: Seq<Option<McpConfig>>,
    config: McpConfig,
    k: int,
)
    requires
        0 <= k < config.mcp_servers@.len(),
        forall|j: int|
            k < j < config.mcp_servers@.len() ==> (#[trigger] config.mcp_servers@[j]).0@
                != config.mcp_servers@[k].0@,
    ensures
        merged_servers(sources.push(Some(config))).contains_key(config.mcp_servers@[k].0@),
        merged_servers(sources.push(Some(config)))[config.mcp_servers@[k].0@]
            == config.mcp_servers@[k].1,
{
    let entries = table::named(config.mcp_servers@);
    assert(sources.push(Some(config)).drop_last() =~= sources);
    assert forall|j: int| k < j < entries.len() implies (#[trigger] entries[j]).0
        != entries[k].0 by {
        assert(config.mcp_servers@[j].0@ != config.mcp_servers@[k].0@);
    }
    table::law_the_last_entry_of_a_name_counts(entries, k);
}

/// A name that the last source does not mention stands for what it stood for before it, as does
/// every name where the last source was not there; without any source no name stands for
/// anything.
pub proof fn law_earlier_sources_hold_where_later_ones_are_silent(
    sources: Seq<Option<McpConfig>>,
    config: McpConfig,
    name: Seq<char>,
)
    requires
        forall|k: int|
            0 <= k < config.mcp_servers@.len() ==> (#[trigger] config.mcp_servers@[k]).0@ != name,
    ensures
        merged_servers(sources.push(Some(config))).contains_key(name) == merged_servers(
            sources,
        ).contains_key(name),
        merged_servers(sources).contains_key(name) ==> merged_servers(
            sources.push(Some(config)),
        )[name] == merged_servers(sources)[name],
        merged_servers(sources.push(None)) == merged_servers(sources),
        merged_servers(Seq::empty()) == Map::<Seq<char>, McpServerConfig>::empty(),
{
    let entries = table::named(config.mcp_servers@);
    assert(sources.push(Some(config)).drop_last() =~= sources);
    assert(sources.push(None).drop_last() =~= sources);
    assert forall|j: int| 0 <= j < entries.len() implies (#[trigger] entries[j]).0 != name by {
        assert(config.mcp_servers@[j].0@ != name);
    }
    table::law_a_name_without_entry_stands_for_nothing(entries, name);
}

/// A source overrides a server that an earlier source names, and one that no earlier source
/// names it does not; what was overridden before stays noted, in front.
pub proof fn law_overrides_are_noted(
    sources: Seq<Option<McpConfig>>,
    config: McpConfig,
    k: int,
)
    requires
        0 <= k < config.mcp_servers@.len(),
        forall|i: int, j: int|
            0 <= i < j < config.mcp_servers@.len() ==> (#[trigger] config.mcp_servers@[i]).0@ != (
            #[trigger] config.mcp_servers@[j]).0@,
    ensures
        overrides(sources).is_prefix_of(overrides(sources.push(Some(config)))),
        overrides(sources.push(Some(config))).skip(overrides(sources).len() as int).contains(
            (config.mcp_servers@[k].0@, sources.len() as int),
        ) <==> merged_servers(sources).contains_key(config.mcp_servers@[k].0@),
        overrides(Seq::empty()) == Seq::<(Seq<char>, int)>::empty(),
        overrides(sources.push(None)) == overrides(sources),
{
    let more = sources.push(Some(config));
    assert(more.drop_last() =~= sources);
    assert(sources.push(None).drop_last() =~= sources);
    let entries = table::named(config.mcp_servers@);
    let new = overrides_by(merged_servers(sources), entries, sources.len() as int);
    assert(overrides(more) == overrides(sources) + new);
    assert(overrides(sources) =~= overrides(more).subrange(0, overrides(sources).len() as int));
    assert(overrides(more).skip(overrides(sources).len() as int) =~= new);
    assert forall|i: int, j: int| 0 <= i < j < entries.len() implies (#[trigger] entries[i]).0 != (
    #[trigger] entries[j]).0 by {
        assert(config.mcp_servers@[i].0@ != config.mcp_servers@[j].0@);
    }
    lemma_overrides_of_distinct(merged_servers(sources), entries, sources.len() as int, k);
    assert(entries[k].0 == config.mcp_servers@[k].0@);
}

/// Servers that are added one by one override those that were there under their name, or that
/// were added before, and no others, in the order in which they are added.
pub proof fn law_overrides_go_entry_by_entry(
    base: Map<Seq<char>, McpServerConfig>,
    added: Seq<(Seq<char>, McpServerConfig)>,
    name: Seq<char>,
    server: McpServerConfig,
    source: int,
    k: int,
)
    ensures
        base.contains_key(name) || (0 <= k < added.len() && added[k].0 == name) ==> overrides_by(
            base,
            added.push((name, server)),
            source,
        ) == overrides_by(base, added, source).push((name, source)),
        !base.contains_key(name) && (forall|j: int|
            0 <= j < added.len() ==> (#[trigger] added[j]).0 != name) ==> overrides_by(
            base,
            added.push((name, server)),
            source,
        ) == overrides_by(base, added, source),
        overrides_by(base, Seq::empty(), source).len() == 0,
{
    assert(added.push((name, server)).drop_last() =~= added);
    if 0 <= k < added.len() && added[k].0 == name {
        table::law_a_name_with_entry_stands_for_something(added, k);
    }
    if forall|j: int| 0 <= j < added.len() ==> (#[trigger] added[j]).0 != name {
        table::law_a_name_without_entry_stands_for_nothing(added, name);
    }
}

/// What one more source overrides follows what the earlier ones did, and is noted under its
/// position; each note stands for a name and a position.
pub proof fn law_overrides_go_source_by_source(
    sources: Seq<Option<McpConfig>>,
    config: McpConfig,
    notes: Seq<Override>,
    i: int,
)
    ensures
        overrides(sources.push(Some(config))) == overrides(sources) + overrides_by(
            merged_servers(sources),
            table::named(config.mcp_servers@),
            sources.len() as int,
        ),
        override_views(notes).len() == notes.len(),
        0 <= i < notes.len() ==> override_views(notes)[i] == (notes[i].name@, notes[i].source
            as int),
{
    assert(sources.push(Some(config)).drop_last() =~= sources);
}

proof fn lemma_overrides_of_distinct(
    base: Map<Seq<char>, McpServerConfig>,
    added: Seq<(Seq<char>, McpServerConfig)>,
    source: int,
    k: int,
)
    requires
        0 <= k < added.len(),
        table::names_distinct(added),
    ensures
        overrides_by(base, added, source).contains((added[k].0, source)) <==> base.contains_key(
            added[k].0,
        ),
    decreases added.len(),
{
    let rest = added.drop_last();
    let last = added.len() - 1;
    let earlier = overrides_by(base, rest, source);
    let all = overrides_by(base, added, source);
    assert forall|i: int, j: int| 0 <= i < j < rest.len() implies (#[trigger] rest[i]).0 != (
    #[trigger] rest[j]).0 by {
        assert(added[i].0 != added[j].0);
    }
    let name = added[last].0;
    assert forall|j: int| 0 <= j < rest.len() implies (#[trigger] rest[j]).0 != name by {
        assert(added[j].0 != added[last].0);
    }
    table::law_a_name_without_entry_stands_for_nothing(rest, name);
    lemma_overrides_name_added(base, rest, source);
    if k < last {
        lemma_overrides_of_distinct(base, rest, source, k);
        assert(rest[k] == added[k]);
        let item = (added[k].0, source);
        if earlier.contains(item) {
            let i = choose|i: int| 0 <= i < earlier.len() && earlier[i] == item;
            assert(all[i] == item);
        }
        if all.contains(item) {
            let i = choose|i: int| 0 <= i < all.len() && all[i] == item;
            assert(added[k].0 != added[last].0);
            assert(i < earlier.len());
            assert(earlier[i] == item);
        }
    } else {
        let item = (name, source);
        if earlier.contains(item) {
            let i = choose|i: int| 0 <= i < earlier.len() && earlier[i] == item;
            let j = choose|j: int| 0 <= j < rest.len() && (#[trigger] rest[j]).0 == earlier[i].0;
            assert(added[j].0 != added[last].0);
        }
        if base.contains_key(name) {
            assert(all[earlier.len() as int] == item);
        }
        if all.contains(item) && !base.contains_key(name) {
            assert(all == earlier);
        }
    }
}

proof fn lemma_overrides_name_added(
    base: Map<Seq<char>, McpServerConfig>,
    added: Seq<(Seq<char>, McpServerConfig)>,
    source: int,
)
    ensures
        forall|i: int|
            0 <= i < overrides_by(base, added, source).len() ==> exists|j: int|
                0 <= j < added.len() && (#[trigger] added[j]).0 == (#[trigger] overrides_by(
                    base,
                    added,
                    source,
                )[i]).0,
    decreases added.len(),
{
    if added.len() > 0 {
        let rest = added.drop_last();
        let earlier = overrides_by(base, rest, source);
        lemma_overrides_name_added(base, rest, source);
        assert forall|i: int| 0 <= i < overrides_by(base, added, source).len() implies exists|
            j: int,
        |
            0 <= j < added.len() && (#[trigger] added[j]).0 == (#[trigger] overrides_by(
                base,
                added,
                source,
            )[i]).0 by {
            if i < earlier.len() {
                assert(overrides_by(base, added, source)[i] == earlier[i]);
                let j = choose|j: int|
                    0 <= j < rest.len() && (#[trigger] rest[j]).0 == earlier[i].0;
                assert(added[j].0 == earlier[i].0);
            } else {
                assert(added[added.len() - 1].0 == overrides_by(base, added, source)[i].0);
            }
        }
    }
}

} // verus!
