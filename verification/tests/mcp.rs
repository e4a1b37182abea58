use microclaw::clock::{Duration, Instant};
use microclaw::mcp::call::{
    backoff_ms, read_reply, CallAction, CallArguments, CallEvent, CallNotice, ContentItem,
    InvokeOutcome, PermitOutcome, ToolCall, ToolReply,
};
use microclaw::mcp::config::{
    default_transport, merge_and_note, merge_config_sources, resolve_request_timeout_secs,
    McpConfig, McpServerConfig,
};
use microclaw::mcp::connect::{
    begin_lookup, build_client_info, connect_failure, finish_lookup, lookup_answer,
    resolve_command, settle_command, windows_candidates, CommandLookup, ConnectFailure,
    LookupReport, ServerSettings, TransportKind, TransportPlan,
};
use microclaw::mcp::headers::parse_headers;
use microclaw::mcp::manager::McpManager;
use microclaw::mcp::resilience::{CircuitBreakerState, FixedWindowRateLimiter};
use microclaw::mcp::server::{ListOutcome, ListedTool, McpServer, RefreshStep};

fn at(millis: u64) -> Instant {
    Instant { nanos: millis * 1_000_000 }
}

fn server_config() -> McpServerConfig {
    McpServerConfig {
        transport: default_transport(),
        protocol_version: None,
        request_timeout_secs: None,
        max_retries: None,
        health_interval_secs: None,
        circuit_breaker_failure_threshold: None,
        circuit_breaker_cooldown_secs: None,
        max_concurrent_requests: None,
        queue_wait_ms: None,
        rate_limit_per_minute: None,
        command: String::new(),
        args: Vec::new(),
        env: Vec::new(),
        endpoint: String::new(),
        headers: Vec::new(),
    }
}

fn stdio() -> McpServerConfig {
    McpServerConfig { command: "npx".to_string(), ..server_config() }
}

fn http(endpoint: &str) -> McpServerConfig {
    McpServerConfig {
        transport: "streamable_http".to_string(),
        endpoint: endpoint.to_string(),
        ..server_config()
    }
}

fn tool(name: &str) -> ListedTool {
    ListedTool { name: name.to_string(), description: None, input_schema: None }
}

fn server_with(config: McpServerConfig) -> McpServer {
    let settings = ServerSettings::resolve(&config, 60);
    let mut server = McpServer::connected("demo", &settings, at(0));
    server.finish_refresh(ListOutcome::Listed(vec![tool("known")]), at(0)).unwrap();
    server
}

fn text_reply(is_error: Option<bool>, texts: &[&str]) -> InvokeOutcome {
    InvokeOutcome::Replied(ToolReply {
        is_error,
        content: texts.iter().map(|t| ContentItem::Text(t.to_string())).collect(),
        rendered: "[]".to_string(),
    })
}

// ---------------------------------------------------------------------------
// Configuration
// ---------------------------------------------------------------------------

#[test]
fn test_resolve_request_timeout_secs_prefers_server_override() {
    assert_eq!(resolve_request_timeout_secs(Some(25), 90), 25);
    assert_eq!(resolve_request_timeout_secs(None, 90), 90);
    assert_eq!(resolve_request_timeout_secs(Some(0), 90), 1);
    assert_eq!(resolve_request_timeout_secs(None, 0), 1);
}

#[test]
fn test_merge_config_sources_later_overrides_earlier() {
    let base = McpConfig {
        default_protocol_version: Some("2024-11-05".to_string()),
        mcp_servers: vec![("shared".to_string(), http("http://127.0.0.1:7001/mcp"))],
    };
    let override_cfg = McpConfig {
        default_protocol_version: Some("2025-12-01".to_string()),
        mcp_servers: vec![
            ("shared".to_string(), http("http://127.0.0.1:7002/mcp")),
            ("extra".to_string(), http("http://127.0.0.1:7003/mcp")),
        ],
    };

    let (loaded, protocol, servers) = merge_config_sources(vec![Some(base), Some(override_cfg)]);
    assert!(loaded);
    assert_eq!(protocol.as_deref(), Some("2025-12-01"));
    assert_eq!(servers.len(), 2);
    assert_eq!(
        servers.get("shared").map(|s| s.endpoint.as_str()),
        Some("http://127.0.0.1:7002/mcp")
    );
    assert_eq!(
        servers.get("extra").map(|s| s.endpoint.as_str()),
        Some("http://127.0.0.1:7003/mcp")
    );
}

#[test]
fn sources_that_are_missing_or_silent_change_nothing() {
    let named = McpConfig {
        default_protocol_version: Some("v1".to_string()),
        mcp_servers: vec![("a".to_string(), http("http://a"))],
    };
    let silent = McpConfig {
        default_protocol_version: None,
        mcp_servers: vec![("b".to_string(), http("http://b"))],
    };
    let (loaded, protocol, servers) = merge_config_sources(vec![None, Some(named), None, Some(silent)]);
    assert!(loaded);
    assert_eq!(protocol.as_deref(), Some("v1"));
    assert_eq!(servers.get("a").map(|s| s.endpoint.as_str()), Some("http://a"));
    assert_eq!(servers.len(), 2);
    let (loaded, protocol, servers) = merge_config_sources(vec![None, None]);
    assert!(!loaded);
    assert_eq!(protocol, None);
    assert_eq!(servers.len(), 0);
}

#[test]
fn overrides_are_noted_with_their_source() {
    let source = |names: &[&str]| {
        Some(McpConfig {
            default_protocol_version: None,
            mcp_servers: names.iter().map(|n| (n.to_string(), http("http://x"))).collect(),
        })
    };
    let sources = vec![source(&["a", "b"]), None, source(&["b", "c"]), source(&["c", "b"])];
    let (_, _, servers, overridden) = merge_and_note(sources);
    assert_eq!(servers.len(), 3);
    let noted: Vec<(&str, usize)> =
        overridden.iter().map(|o| (o.name.as_str(), o.source)).collect();
    assert_eq!(noted, vec![("b", 2), ("c", 3), ("b", 3)]);
}

#[test]
fn resolving_the_default_timeout_first_changes_nothing() {
    for configured in [None, Some(0), Some(7)] {
        for default in [0u64, 1, 90] {
            assert_eq!(
                resolve_request_timeout_secs(
                    configured,
                    resolve_request_timeout_secs(None, default)
                ),
                resolve_request_timeout_secs(configured, default)
            );
        }
    }
}

#[test]
fn settings_have_defaults_and_floors() {
    let settings = ServerSettings::resolve(&server_config(), 45);
    assert_eq!(settings.request_timeout, Duration::from_secs(45));
    assert_eq!(settings.max_retries, 0);
    assert_eq!(settings.circuit_breaker_threshold, 5);
    assert_eq!(settings.circuit_breaker_cooldown_secs, 30);
    assert_eq!(settings.max_concurrent_requests, 4);
    assert_eq!(settings.queue_wait, Duration::from_millis(200));
    assert_eq!(settings.rate_limit_per_minute, 120);
    let config = McpServerConfig {
        request_timeout_secs: Some(0),
        max_retries: Some(3),
        circuit_breaker_failure_threshold: Some(0),
        circuit_breaker_cooldown_secs: Some(9),
        max_concurrent_requests: Some(0),
        queue_wait_ms: Some(0),
        rate_limit_per_minute: Some(0),
        ..server_config()
    };
    let settings = ServerSettings::resolve(&config, 45);
    assert_eq!(settings.request_timeout, Duration::from_secs(1));
    assert_eq!(settings.max_retries, 3);
    assert_eq!(settings.circuit_breaker_threshold, 0);
    assert_eq!(settings.circuit_breaker_cooldown_secs, 9);
    assert_eq!(settings.max_concurrent_requests, 1);
    assert_eq!(settings.queue_wait, Duration::from_millis(1));
    assert_eq!(settings.rate_limit_per_minute, 0);
}

// ---------------------------------------------------------------------------
// Connecting
// ---------------------------------------------------------------------------

fn refused(config: &McpServerConfig) -> String {
    match McpServer::connect("demo", config, None, 60) {
        Ok(_) => panic!("the configuration is refused"),
        Err(e) => e,
    }
}

#[test]
fn a_program_is_planned_for_stdio() {
    for transport in ["stdio", "", "  STDIO ", "\tStdio\n"] {
        let config = McpServerConfig {
            transport: transport.to_string(),
            args: vec!["-y".to_string()],
            env: vec![("K".to_string(), "v".to_string())],
            ..stdio()
        };
        let plan = McpServer::connect("demo", &config, Some("2024-11-05"), 60).unwrap_or_else(|e| panic!("{e}"));
        assert_eq!(plan.settings, ServerSettings::resolve(&config, 60));
        assert_eq!(plan.client_info.protocol_version, "2024-11-05");
        match plan.transport {
            TransportPlan::Stdio { command, args, env } => {
                assert_eq!(command, "npx");
                assert_eq!(args, vec!["-y"]);
                assert_eq!(env, vec![("K".to_string(), "v".to_string())]);
            }
            _ => panic!("a program is started"),
        }
    }
}

#[test]
fn an_endpoint_is_planned_for_http() {
    for transport in ["streamable_http", "http", " HTTP "] {
        let config = McpServerConfig {
            transport: transport.to_string(),
            protocol_version: Some("2025-03-26".to_string()),
            headers: vec![("Authorization".to_string(), "Bearer test".to_string())],
            ..http("http://127.0.0.1:8080/mcp")
        };
        let plan = McpServer::connect("demo", &config, Some("2024-11-05"), 60).unwrap_or_else(|e| panic!("{e}"));
        assert_eq!(plan.client_info.protocol_version, "2025-03-26");
        match plan.transport {
            TransportPlan::StreamableHttp { endpoint, headers } => {
                assert_eq!(endpoint, "http://127.0.0.1:8080/mcp");
                assert_eq!(headers.len(), 1);
                assert_eq!(headers.get("authorization"), Some(&b"Bearer test".to_vec()));
            }
            _ => panic!("an endpoint is called"),
        }
    }
}

#[test]
fn configurations_that_lead_nowhere_are_refused() {
    assert_eq!(
        refused(&McpServerConfig { command: "  ".to_string(), ..server_config() }),
        "MCP server 'demo' requires `command` when transport=stdio"
    );
    assert_eq!(
        refused(&http(" \n")),
        "MCP server 'demo' requires `endpoint` when transport=streamable_http"
    );
    assert_eq!(
        refused(&McpServerConfig { transport: " WebSocket ".to_string(), ..stdio() }),
        "MCP server 'demo' has unsupported transport 'websocket'"
    );
    let bad = McpServerConfig {
        headers: vec![("a b".to_string(), "v".to_string())],
        ..http("http://x")
    };
    assert_eq!(
        refused(&bad),
        "Invalid header name 'a b' for MCP 'demo': invalid HTTP header name"
    );
}

#[test]
fn headers_are_read() {
    let list = |pairs: &[(&str, &str)]| -> Vec<(String, String)> {
        pairs.iter().map(|(k, v)| (k.to_string(), v.to_string())).collect()
    };
    let headers = parse_headers("s", &list(&[("X-Key", "one"), ("x-key", "two"), ("Accept", "é\t")])).unwrap_or_else(|e| panic!("{e}"));
    assert_eq!(headers.len(), 2);
    assert_eq!(headers.get("x-key"), Some(&b"two".to_vec()));
    assert_eq!(headers.get("X-Key"), None);
    assert_eq!(headers.get("accept"), Some(&"é\t".as_bytes().to_vec()));
    for name in ["", "a b", "a:b", "ä", "a\n", "(x)"] {
        match parse_headers("s", &list(&[(name, "v")])) {
            Ok(_) => panic!("{name:?} is no name"),
            Err(e) => assert_eq!(e, format!("Invalid header name '{name}' for MCP 's': invalid HTTP header name")),
        }
    }
    for value in ["a\nb", "\u{7f}", "\0"] {
        match parse_headers("s", &list(&[("K", value)])) {
            Ok(_) => panic!("{value:?} is no value"),
            Err(e) => assert_eq!(e, "Invalid header value for 'K' in MCP 's': failed to parse header value"),
        }
    }
    for name in ["!#$%&'*+-.^_`|~", "A0z"] {
        assert!(parse_headers("s", &list(&[(name, "")])).is_ok());
    }
    let longest = "a".repeat(65535);
    assert!(parse_headers("s", &list(&[(longest.as_str(), "v")])).is_ok());
    let longer = "a".repeat(65536);
    assert!(parse_headers("s", &list(&[(longer.as_str(), "v")])).is_err());
}

#[test]
fn every_character_is_judged_as_in_a_header() {
    let allowed = "!#$%&'*+-.^_`|~";
    for n in 0..0x180u32 {
        let c = char::from_u32(n).unwrap();
        let name_ok = c.is_ascii_alphanumeric() || allowed.contains(c);
        let named = parse_headers("s", &vec![(c.to_string(), "v".to_string())]);
        assert_eq!(named.is_ok(), name_ok, "{n:x}");
        let value_ok = (n >= 32 && n != 127) || n == 9;
        let valued = parse_headers("s", &vec![("k".to_string(), c.to_string())]);
        assert_eq!(valued.is_ok(), value_ok, "{n:x}");
    }
}

#[test]
fn the_protocol_version_is_the_one_asked_for() {
    for version in ["2024-11-05", "2025-03-26", "1999-01-01", "", "\"x\""] {
        assert_eq!(build_client_info(Some(version.to_string())).protocol_version, version);
    }
    assert_eq!(build_client_info(None).protocol_version, "2024-11-05");
    let plan = McpServer::connect("demo", &stdio(), None, 60).unwrap_or_else(|e| panic!("{e}"));
    assert_eq!(plan.client_info.protocol_version, "2024-11-05");
}

#[test]
fn failures_to_connect_say_what_failed() {
    assert_eq!(
        connect_failure("demo", &ConnectFailure::Spawn("no such file".to_string())),
        "Failed to spawn MCP server 'demo': no such file"
    );
    assert_eq!(
        connect_failure(
            "demo",
            &ConnectFailure::Initialize(TransportKind::Stdio, "eof".to_string())
        ),
        "Failed to initialize MCP server 'demo' (stdio): eof"
    );
    assert_eq!(
        connect_failure(
            "demo",
            &ConnectFailure::Initialize(TransportKind::StreamableHttp, "404".to_string())
        ),
        "Failed to initialize MCP server 'demo' (http): 404"
    );
}

#[test]
fn programs_are_looked_up() {
    assert!(matches!(resolve_command("npx"), CommandLookup::Ask(p) if p == "npx"));
    assert!(matches!(resolve_command("./npx"), CommandLookup::Ask(p) if p == "./npx"));
    assert!(matches!(resolve_command("bin/npx"), CommandLookup::Ask(p) if p == "bin/npx"));
    assert!(matches!(resolve_command("\\npx"), CommandLookup::Ask(p) if p == "\\npx"));
    assert!(matches!(resolve_command(""), CommandLookup::Ask(p) if p.is_empty()));
    assert!(matches!(resolve_command("/usr/bin/npx"), CommandLookup::Use(p) if p == "/usr/bin/npx"));
    assert!(matches!(begin_lookup("x", true), CommandLookup::Use(p) if p == "x"));
    assert_eq!(lookup_answer("/usr/bin/npx\n/bin/npx\n").as_deref(), Some("/usr/bin/npx"));
    assert_eq!(lookup_answer("  C:\\npx.cmd \r\n").as_deref(), Some("C:\\npx.cmd"));
    assert_eq!(lookup_answer(""), None);
    assert_eq!(lookup_answer("\n/bin/npx\n"), None);
    let report = |success: bool, stdout: &[u8]| Some(LookupReport { success, stdout: stdout.to_vec() });
    assert_eq!(finish_lookup(&report(true, b"/bin/n\xff\n")).as_deref(), Some("/bin/n\u{fffd}"));
    assert_eq!(finish_lookup(&report(false, b"/bin/npx\n")), None);
    assert_eq!(finish_lookup(&None), None);
    let places = windows_candidates("npx");
    assert_eq!(
        places,
        vec![
            "C:\\Program Files\\nodejs\\npx.cmd",
            "C:\\Program Files\\nodejs\\npx.exe",
            "C:\\Program Files\\nodejs\\npx",
        ]
    );
    assert_eq!(settle_command("npx", Some("/bin/npx".to_string()), &places, &vec![true, true, true]), "/bin/npx");
    assert_eq!(settle_command("npx", None, &places, &vec![false, true, true]), places[1]);
    assert_eq!(settle_command("npx", None, &places, &vec![false, false, false]), "npx");
    assert_eq!(settle_command("npx", None, &Vec::new(), &Vec::new()), "npx");
}

// ---------------------------------------------------------------------------
// Resilience
// ---------------------------------------------------------------------------

#[test]
fn test_rate_limiter_blocks_after_limit() {
    let now = at(0);
    let mut limiter = FixedWindowRateLimiter::new(2, now);
    assert!(limiter.consume_or_retry_after_secs(now).is_ok());
    assert!(limiter.consume_or_retry_after_secs(now).is_ok());
    assert!(limiter.consume_or_retry_after_secs(now).is_err());
}

#[test]
fn test_rate_limiter_can_be_disabled() {
    let now = at(0);
    let mut limiter = FixedWindowRateLimiter::new(0, now);
    for _ in 0..10 {
        assert!(limiter.consume_or_retry_after_secs(now).is_ok());
    }
}

#[test]
fn a_limiter_says_how_long_to_wait_and_renews_its_window() {
    let mut limiter = FixedWindowRateLimiter::new(1, at(0));
    assert_eq!(limiter.consume_or_retry_after_secs(at(100)), Ok(()));
    assert_eq!(limiter.consume_or_retry_after_secs(at(100)), Err(59));
    assert_eq!(limiter.consume_or_retry_after_secs(at(30_000)), Err(30));
    assert_eq!(limiter.consume_or_retry_after_secs(at(59_999)), Err(1));
    assert_eq!(limiter.consume_or_retry_after_secs(at(60_000)), Ok(()));
    assert_eq!(limiter.consume_or_retry_after_secs(at(60_000)), Err(60));
    assert_eq!(limiter.window_started_at, at(60_000));
}

#[test]
fn test_circuit_breaker_trips_and_recovers() {
    let mut breaker = CircuitBreakerState::new(2, 1);
    let now = at(5_000);

    assert!(breaker.check_ready(now).is_ok());
    assert!(!breaker.record_failure(now));
    assert!(breaker.check_ready(now).is_ok());
    assert!(breaker.record_failure(now));

    let blocked = breaker.check_ready(now);
    assert!(blocked.is_err());

    let later = at(5_000 + 1100);
    assert!(breaker.check_ready(later).is_ok());
}

#[test]
fn test_circuit_breaker_can_be_disabled() {
    let mut breaker = CircuitBreakerState::new(0, 1);
    assert!(breaker.check_ready(at(0)).is_ok());
    assert!(!breaker.record_failure(at(0)));
    assert!(breaker.check_ready(at(0)).is_ok());
}

#[test]
fn a_breaker_counts_consecutive_failures() {
    let mut breaker = CircuitBreakerState::new(2, 10);
    assert!(!breaker.record_failure(at(0)));
    breaker.record_success();
    assert!(!breaker.record_failure(at(1)));
    assert!(breaker.record_failure(at(2_000)));
    assert_eq!(breaker.check_ready(at(2_000)), Err(10));
    assert_eq!(breaker.check_ready(at(4_500)), Err(7));
    assert_eq!(breaker.check_ready(at(11_999)), Err(1));
    assert_eq!(breaker.check_ready(at(12_000)), Ok(()));
    assert_eq!(breaker.open_until, None);
    assert_eq!(CircuitBreakerState::new(1, 0).cooldown, Duration::from_secs(1));
    let mut endless = CircuitBreakerState::new(1, u64::MAX);
    assert!(endless.record_failure(Instant { nanos: u64::MAX }));
    assert_eq!(endless.check_ready(Instant { nanos: u64::MAX }), Err(u64::MAX));
}

// ---------------------------------------------------------------------------
// Servers
// ---------------------------------------------------------------------------

#[test]
fn test_tool_not_found_error_detection() {
    assert!(McpServer::is_tool_not_found_error("Tool not found"));
    assert!(McpServer::is_tool_not_found_error("unknown tool: x"));
    assert!(!McpServer::is_tool_not_found_error("permission denied"));
}

#[test]
fn transient_errors_are_told_apart() {
    for err in [
        "Timeout",
        "request TIMEOUT",
        "Transport closed",
        "peer closed connection",
        "Broken pipe (os error 32)",
        "connection reset by peer",
        "Resource temporarily unavailable",
    ] {
        assert!(McpServer::should_retry_error(err), "{err}");
    }
    for err in ["", "timed out", "not found", "permission denied"] {
        assert!(!McpServer::should_retry_error(err), "{err}");
    }
}

#[test]
fn tools_are_described_with_their_server() {
    let mut server = server_with(stdio());
    let listed = vec![
        ListedTool {
            name: "read".to_string(),
            description: Some("Reads.".to_string()),
            input_schema: Some("{\"type\":\"string\"}".to_string()),
        },
        tool("bare"),
    ];
    let tools = server.finish_refresh(ListOutcome::Listed(listed), at(10)).unwrap();
    assert_eq!(tools.len(), 2);
    assert_eq!(tools[0].server_name, "demo");
    assert_eq!(tools[0].description, "Reads.");
    assert_eq!(tools[0].input_schema, "{\"type\":\"string\"}");
    assert_eq!(tools[1].name, "bare");
    assert_eq!(tools[1].description, "");
    assert_eq!(tools[1].input_schema, "{\"type\":\"object\",\"properties\":{}}");
    assert!(server.knows_tool("read"));
    assert!(!server.knows_tool("known"));
}

#[test]
fn listings_that_fail_leave_the_tools_as_they_were() {
    let mut server = server_with(stdio());
    assert_eq!(
        server.finish_refresh(ListOutcome::TimedOut, at(1)).unwrap_err(),
        "MCP list tools timed out for 'demo' after 60s"
    );
    assert_eq!(
        server.health_probe(ListOutcome::Failed("eof".to_string()), at(1)).unwrap_err(),
        "Failed to list tools for 'demo': eof"
    );
    assert!(server.knows_tool("known"));
    assert_eq!(server.tools_cache_updated_at, Some(at(0)));
    assert_eq!(server.health_probe(ListOutcome::Listed(Vec::new()), at(2)), Ok(()));
    assert!(!server.knows_tool("known"));
    assert_eq!(server.tools_cache_updated_at, Some(at(2)));
}

#[test]
fn tools_are_current_for_five_minutes() {
    let mut server = server_with(stdio());
    assert!(server.is_cache_fresh(at(299_999)));
    assert!(!server.is_cache_fresh(at(300_000)));
    assert!(matches!(server.refresh_tools_cache(false, at(1)), RefreshStep::Cached(tools) if tools.len() == 1));
    assert!(matches!(server.refresh_tools_cache(true, at(1)), RefreshStep::List));
    assert!(matches!(server.refresh_tools_cache(false, at(300_000)), RefreshStep::List));
    server.invalidate_tools_cache();
    assert!(!server.is_cache_fresh(at(0)));
    assert!(server.tools_snapshot().is_empty());
}

#[test]
fn health_is_probed_at_an_interval() {
    assert_eq!(McpServer::start_health_probe(0), None);
    assert_eq!(McpServer::start_health_probe(15), Some(Duration::from_secs(15)));
}

// ---------------------------------------------------------------------------
// Calls
// ---------------------------------------------------------------------------

#[test]
fn replies_read_as_their_text() {
    let reply = |content: Vec<ContentItem>| ToolReply {
        is_error: None,
        content,
        rendered: "[1]".to_string(),
    };
    let text = |s: &str| ContentItem::Text(s.to_string());
    assert_eq!(read_reply(&reply(vec![text("a"), ContentItem::Other, text("b")])), "a\nb");
    assert_eq!(read_reply(&reply(vec![text(""), text("b")])), "b");
    assert_eq!(read_reply(&reply(vec![text("a"), text("")])), "a\n");
    assert_eq!(read_reply(&reply(vec![ContentItem::Other])), "[1]");
    assert_eq!(read_reply(&reply(vec![text("")])), "[1]");
    assert_eq!(read_reply(&reply(vec![])), "[1]");
}

#[test]
fn the_time_between_requests_doubles_up_to_a_limit() {
    let expected = [200u64, 400, 800, 1600, 3200, 6400, 12_800, 25_600, 51_200, 51_200];
    for (attempt, millis) in expected.iter().enumerate() {
        assert_eq!(backoff_ms(attempt as u32), *millis);
    }
    assert_eq!(backoff_ms(u32::MAX), 51_200);
}

fn running(server: &mut McpServer, tool_name: &str) -> ToolCall {
    let mut call = server.call_tool(tool_name);
    call.advance(server, CallEvent::Refreshed, at(0));
    assert!(matches!(call.action(server), CallAction::AcquirePermit { .. }));
    call.advance(server, CallEvent::Permit(PermitOutcome::Granted), at(0));
    assert!(matches!(call.action(server), CallAction::Invoke));
    call
}

fn released(call: &mut ToolCall, server: &mut McpServer, now: Instant) -> CallNotice {
    assert!(matches!(call.action(server), CallAction::ReleasePermit));
    call.advance(server, CallEvent::Released, now)
}

fn finished(call: &ToolCall, server: &McpServer) -> Result<String, String> {
    match call.action(server) {
        CallAction::Finish(result) => result,
        _ => panic!("the call is not over"),
    }
}

#[test]
fn a_call_runs_to_its_result() {
    let mut server = server_with(stdio());
    server.circuit_breaker.record_failure(at(0));
    let call = server.call_tool("known");
    assert!(matches!(call.action(&server), CallAction::Refresh { force: false }));
    let call = server.call_tool("other");
    assert!(matches!(call.action(&server), CallAction::Refresh { force: true }));
    let mut call = running(&mut server, "known");
    call.advance(&mut server, CallEvent::Slept, at(1));
    assert!(matches!(call.action(&server), CallAction::Invoke));
    call.advance(&mut server, CallEvent::Invoked(text_reply(None, &["a", "b"])), at(1));
    assert_eq!(server.circuit_breaker.consecutive_failures, 1);
    released(&mut call, &mut server, at(1));
    assert_eq!(finished(&call, &server), Ok("a\nb".to_string()));
    assert_eq!(server.circuit_breaker.consecutive_failures, 0);
    assert_eq!(server.rate_limiter.used_in_window, 1);
    call.advance(&mut server, CallEvent::Invoked(text_reply(Some(true), &["x"])), at(2));
    assert_eq!(finished(&call, &server), Ok("a\nb".to_string()));
}

#[test]
fn requests_carry_the_tool_and_an_object() {
    let mut server = server_with(stdio());
    let call = running(&mut server, "known");
    let members = vec![("path".to_string(), 7u32), ("mode".to_string(), 8)];
    let request = call.request(CallArguments::Object(members.clone()));
    assert_eq!(request.tool_name, "known");
    assert_eq!(request.arguments, members);
    let request = call.request(CallArguments::<u32>::Other);
    assert_eq!(request.tool_name, "known");
    assert!(request.arguments.is_empty());
}

#[test]
fn calls_that_fail_say_why() {
    let mut server = server_with(stdio());
    for (outcome, said) in [
        (InvokeOutcome::TimedOut, "MCP tool call timed out for 'demo' after 60s"),
        (InvokeOutcome::Failed("eof".to_string()), "MCP tool call error: eof"),
        (text_reply(Some(true), &["denied"]), "denied"),
    ] {
        let mut call = running(&mut server, "known");
        let notice = call.advance(&mut server, CallEvent::Invoked(outcome), at(1));
        assert!(matches!(notice, CallNotice::Nothing));
        assert!(matches!(released(&mut call, &mut server, at(1)), CallNotice::Nothing));
        assert_eq!(finished(&call, &server), Err(said.to_string()));
    }
    assert_eq!(server.circuit_breaker.consecutive_failures, 3);
}

#[test]
fn transient_failures_are_retried_with_growing_pauses() {
    let mut server = server_with(McpServerConfig { max_retries: Some(2), ..stdio() });
    let mut call = running(&mut server, "known");
    for millis in [200u64, 400] {
        let broken = InvokeOutcome::Failed("Broken pipe".to_string());
        match call.advance(&mut server, CallEvent::Invoked(broken), at(1)) {
            CallNotice::Retrying(error) => assert_eq!(error, "MCP tool call error: Broken pipe"),
            _ => panic!("the retry is worth a warning"),
        }
        match call.action(&server) {
            CallAction::Sleep { millis: slept } => assert_eq!(slept, millis),
            _ => panic!("the request is made again"),
        }
        assert_eq!(server.circuit_breaker.consecutive_failures, 0);
        call.advance(&mut server, CallEvent::Slept, at(2));
        assert!(matches!(call.action(&server), CallAction::Invoke));
    }
    let broken = InvokeOutcome::Failed("Broken pipe".to_string());
    call.advance(&mut server, CallEvent::Invoked(broken), at(3));
    assert_eq!(server.circuit_breaker.consecutive_failures, 0);
    released(&mut call, &mut server, at(3));
    assert_eq!(finished(&call, &server), Err("MCP tool call error: Broken pipe".to_string()));
    assert_eq!(server.circuit_breaker.consecutive_failures, 1);
    let mut call = running(&mut server, "known");
    call.advance(&mut server, CallEvent::Invoked(text_reply(Some(true), &["denied"])), at(4));
    released(&mut call, &mut server, at(4));
    assert_eq!(finished(&call, &server), Err("denied".to_string()));
}

#[test]
fn a_tool_that_the_server_does_not_know_outdates_the_tools() {
    let mut server = server_with(stdio());
    let mut call = running(&mut server, "known");
    call.advance(&mut server, CallEvent::Invoked(text_reply(Some(true), &["Unknown tool"])), at(1));
    assert!(server.tools_snapshot().is_empty());
    assert_eq!(server.tools_cache_updated_at, None);
    assert!(matches!(call.action(&server), CallAction::Refresh { force: true }));
    call.advance(&mut server, CallEvent::Refreshed, at(2));
    released(&mut call, &mut server, at(2));
    assert_eq!(finished(&call, &server), Err("Unknown tool".to_string()));
    let mut call = running(&mut server, "known");
    let failed = InvokeOutcome::Failed("not found".to_string());
    call.advance(&mut server, CallEvent::Invoked(failed), at(3));
    released(&mut call, &mut server, at(3));
    assert_eq!(finished(&call, &server), Err("MCP tool call error: not found".to_string()));
}

#[test]
fn calls_are_refused_without_a_request() {
    let mut server = server_with(McpServerConfig {
        rate_limit_per_minute: Some(1),
        circuit_breaker_failure_threshold: Some(1),
        circuit_breaker_cooldown_secs: Some(5),
        ..stdio()
    });
    let mut first = running(&mut server, "known");
    let mut second = server.call_tool("known");
    second.advance(&mut server, CallEvent::Refreshed, at(0));
    assert_eq!(
        finished(&second, &server),
        Err("MCP server 'demo' rate-limited; retry in ~60s".to_string())
    );
    first.advance(&mut server, CallEvent::Invoked(InvokeOutcome::TimedOut), at(60_000));
    let notice = released(&mut first, &mut server, at(60_000));
    assert!(matches!(notice, CallNotice::CircuitOpened));
    let mut third = server.call_tool("known");
    third.advance(&mut server, CallEvent::Refreshed, at(60_000));
    third.advance(&mut server, CallEvent::Permit(PermitOutcome::Granted), at(61_000));
    assert_eq!(
        finished(&third, &server),
        Err("MCP server 'demo' circuit open; retry in ~4s".to_string())
    );
}

#[test]
fn calls_do_not_wait_for_ever() {
    let mut server = server_with(stdio());
    let mut call = server.call_tool("known");
    call.advance(&mut server, CallEvent::Refreshed, at(0));
    match call.action(&server) {
        CallAction::AcquirePermit { wait } => assert_eq!(wait, Duration::from_millis(200)),
        _ => panic!("the call waits for its turn"),
    }
    call.advance(&mut server, CallEvent::Permit(PermitOutcome::TimedOut), at(200));
    assert_eq!(
        finished(&call, &server),
        Err("MCP server 'demo' busy; exceeded queue wait of 200ms".to_string())
    );
    let mut call = server.call_tool("known");
    call.advance(&mut server, CallEvent::Refreshed, at(0));
    call.advance(&mut server, CallEvent::Permit(PermitOutcome::Closed), at(0));
    assert_eq!(
        finished(&call, &server),
        Err("MCP server 'demo' limiter is closed".to_string())
    );
}

// ---------------------------------------------------------------------------
// The manager
// ---------------------------------------------------------------------------

#[test]
fn servers_are_connected_in_the_order_of_their_names() {
    let config = McpConfig {
        default_protocol_version: Some("v".to_string()),
        mcp_servers: vec![
            ("c".to_string(), stdio()),
            ("a".to_string(), McpServerConfig { health_interval_secs: Some(0), ..stdio() }),
            ("b".to_string(), stdio()),
            ("d".to_string(), McpServerConfig { max_retries: Some(3), ..stdio() }),
        ],
    };
    let mut startup = McpManager::from_config_file(Some(config), 0);
    assert_eq!(startup.request_timeout_secs, 1);
    assert_eq!(startup.default_protocol_version.as_deref(), Some("v"));
    assert!(startup.overrides.is_empty());
    assert_eq!(startup.pending().map(|e| e.0.as_str()), Some("a"));
    let listed = ListOutcome::Listed(vec![tool("one"), tool("two")]);
    assert_eq!(startup.connected(at(1), listed, at(2)), Ok(None));
    assert_eq!(startup.pending().map(|e| e.0.as_str()), Some("b"));
    startup.failed();
    assert_eq!(startup.pending().map(|e| e.0.as_str()), Some("c"));
    assert_eq!(
        startup.connected(at(3), ListOutcome::TimedOut, at(4)),
        Err("MCP list tools timed out for 'c' after 1s".to_string())
    );
    let listed = ListOutcome::Listed(vec![tool("three")]);
    assert_eq!(
        startup.connected(at(5), listed, at(6)),
        Ok(Some(Duration::from_secs(60)))
    );
    assert!(startup.pending().is_none());
    let names: Vec<&str> = startup.manager.servers().iter().map(|s| s.name.as_str()).collect();
    assert_eq!(names, vec!["a", "d"]);
    let retries: Vec<u32> = startup.manager.servers().iter().map(|s| s.max_retries).collect();
    assert_eq!(retries, vec![0, 3]);
    let tools: Vec<(usize, String, String)> = startup
        .manager
        .all_tools()
        .into_iter()
        .map(|(i, t)| (i, t.server_name, t.name))
        .collect();
    let expected: Vec<(usize, String, String)> = [(0, "a", "one"), (0, "a", "two"), (1, "d", "three")]
        .iter()
        .map(|(i, s, t)| (*i, s.to_string(), t.to_string()))
        .collect();
    assert_eq!(tools, expected);
}

#[test]
fn without_configuration_there_is_nothing_to_connect() {
    let startup = McpManager::from_config_paths(vec![None, None], 30);
    assert!(startup.pending().is_none());
    assert!(startup.manager.all_tools().is_empty());
}
