//! One call of a tool, from the first look at the list of tools to its result.
//!
//! A call alternates between work that happens outside (asking the server for its tools, waiting
//! for a turn, sending the request, sleeping) and decisions. `ToolCall::action` says which work
//! is due; `ToolCall::advance` takes in what came of it and decides. Several calls may be under
//! way on one server, each with a `ToolCall` of its own.

use vstd::prelude::*;

use crate::clock::{Duration, Instant};
use crate::mcp::connect;
use crate::mcp::server;
use crate::mcp::server::{McpServer, ServerView};
use crate::text;

verus! {

// ---------------------------------------------------------------------------
// Replies
// ---------------------------------------------------------------------------

/// A piece of what a tool returned.
#[derive(Debug)]
pub enum ContentItem {
    Text(String),
    /// An image, a sound, a resource.
    Other,
}

/// What a tool returned. `rendered` is all of the content as JSON text.
#[derive(Debug)]
pub struct ToolReply {
    pub is_error: Option<bool>,
    pub content: Vec<ContentItem>,
    pub rendered: String,
}

/// What came of sending a request to a server.
#[derive(Debug)]
pub enum InvokeOutcome {
    TimedOut,
    Failed(String),
    Replied(ToolReply),
}

/// The pieces of text in a reply, one per line. A line break goes in front of a piece only where
/// there is text before it.
pub open spec fn joined_text(content: Seq<ContentItem>) -> Seq<char>
    decreases content.len(),
{
    if content.len() == 0 {
        Seq::empty()
    } else {
        let before = joined_text(content.drop_last());
        match content.last() {
            ContentItem::Text(piece) => if before.len() > 0 {
                before + "\n"@ + piece@
            } else {
                piece@
            },
            ContentItem::Other => before,
        }
    }
}

/// What a reply reads: its text, or all of it as JSON where it has no text.
pub open spec fn reply_text(reply: ToolReply) -> Seq<char> {
    if joined_text(reply.content@).len() > 0 {
        joined_text(reply.content@)
    } else {
        reply.rendered@
    }
}

/// The result of a request.
pub open spec fn invoke_result(server: ServerView, outcome: InvokeOutcome) -> Result<
    Seq<char>,
    Seq<char>,
> {
    match outcome {
        InvokeOutcome::TimedOut => Err(
            "MCP tool call timed out for '"@ + server.name + "' after "@
                + server.request_timeout.readable(),
        ),
        InvokeOutcome::Failed(e) => Err("MCP tool call error: "@ + e@),
        InvokeOutcome::Replied(reply) => if reply.is_error == Some(true) {
            Err(reply_text(reply))
        } else {
            Ok(reply_text(reply))
        },
    }
}

/// The server itself says that it does not know the tool, so what is known of its tools is
/// out of date.
pub open spec fn outdates_tools(outcome: InvokeOutcome) -> bool {
    match outcome {
        InvokeOutcome::Replied(reply) => reply.is_error == Some(true) && server::says_not_found(
            reply_text(reply),
        ),
        _ => false,
    }
}

/// Reads a reply.
pub fn read_reply(reply: &ToolReply) -> (output: String)
    ensures
        output@ == reply_text(*reply),
{
    let mut output = String::new();
    let mut i: usize = 0;
    proof {
        assert(reply.content@.take(0) =~= Seq::empty());
    }
    while i < reply.content.len()
        invariant
            i <= reply.content@.len(),
            output@ == joined_text(reply.content@.take(i as int)),
        decreases reply.content@.len() - i,
    {
        proof {
            assert(reply.content@.take(i + 1).drop_last() =~= reply.content@.take(i as int));
        }
        let ghost before = output@;
        match &reply.content[i] {
            ContentItem::Text(piece) => {
                if !output.as_str().is_empty() {
                    output.append("\n");
                }
                output.append(piece.as_str());
                proof {
                    if before.len() == 0 {
                        assert(output@ =~= piece@);
                    }
                }
            },
            ContentItem::Other => {},
        }
        i += 1;
    }
    proof {
        assert(reply.content@.take(i as int) =~= reply.content@);
    }
    if output.as_str().is_empty() {
        reply.rendered.clone()
    } else {
        output
    }
}

// ---------------------------------------------------------------------------
// Requests
// ---------------------------------------------------------------------------

/// The arguments of a call, as a JSON value: an object with its members, or anything else.
pub enum CallArguments<V> {
    Object(Vec<(String, V)>),
    Other,
}

/// What is sent to a server: the name of a tool, and the members of the object of arguments.
pub struct ToolRequest<V> {
    pub tool_name: String,
    pub arguments: Vec<(String, V)>,
}

/// The members that are sent: those of the object, and none where the arguments are no object.
pub open spec fn sent_arguments<V>(arguments: CallArguments<V>) -> Seq<(String, V)> {
    match arguments {
        CallArguments::Object(members) => members@,
        CallArguments::Other => Seq::empty(),
    }
}

// ---------------------------------------------------------------------------
// Calls
// ---------------------------------------------------------------------------

/// Where a call stands.
#[derive(Debug)]
pub enum CallPhase {
    /// The list of tools is being brought up to date.
    Looking { force: bool },
    /// The call waits for its turn.
    Queued,
    /// The request is under way.
    Running,
    /// The server did not know the tool, which is the error given here; its list of tools is
    /// being read again.
    Relisting(String),
    /// The request failed and is made again after a while.
    Waiting,
    /// The last request has ended with this result, and the call gives its turn back.
    Releasing(Result<String, String>),
    /// The call is over.
    Done(Result<String, String>),
}

/// One call of a tool.
#[derive(Debug)]
pub struct ToolCall {
    pub tool_name: String,
    pub phase: CallPhase,
    /// How many requests of this call have failed and were made again.
    pub attempt: u32,
}

/// What came of waiting for a turn.
#[derive(Debug)]
pub enum PermitOutcome {
    Granted,
    TimedOut,
    Closed,
}

/// What came of the work that was due.
#[derive(Debug)]
pub enum CallEvent {
    Refreshed,
    Permit(PermitOutcome),
    Invoked(InvokeOutcome),
    Slept,
    Released,
}

/// What is worth a warning.
#[derive(Debug)]
pub enum CallNotice {
    Nothing,
    /// The request failed with this error and is made again after a pause.
    Retrying(String),
    /// The server has failed so often that its circuit is open now.
    CircuitOpened,
}

/// The work that is due.
#[derive(Debug)]
pub enum CallAction {
    /// Bring the list of tools up to date; whether that works out does not matter.
    Refresh { force: bool },
    /// Wait for a turn, no longer than this.
    AcquirePermit { wait: Duration },
    /// Send the request that `ToolCall::request` makes.
    Invoke,
    /// Sleep for so many milliseconds.
    Sleep { millis: u64 },
    /// Give the turn back.
    ReleasePermit,
    /// Return this.
    Finish(Result<String, String>),
}

/// Where a call stands.
pub enum PhaseView {
    Looking { force: bool },
    Queued,
    Running,
    Relisting(Seq<char>),
    Waiting,
    Releasing(Result<Seq<char>, Seq<char>>),
    Done(Result<Seq<char>, Seq<char>>),
}

/// What a call stands for.
pub struct CallView {
    pub tool_name: Seq<char>,
    pub phase: PhaseView,
    pub attempt: u32,
}

/// The work that is due.
pub enum ActionView {
    Refresh { force: bool },
    AcquirePermit { wait: Duration },
    Invoke,
    Sleep { millis: u64 },
    ReleasePermit,
    Finish(Result<Seq<char>, Seq<char>>),
}

/// What is worth a warning.
pub enum NoticeView {
    Nothing,
    Retrying(Seq<char>),
    CircuitOpened,
}

impl View for CallNotice {
    type V = NoticeView;

    open spec fn view(&self) -> NoticeView {
        match *self {
            CallNotice::Nothing => NoticeView::Nothing,
            CallNotice::Retrying(error) => NoticeView::Retrying(error@),
            CallNotice::CircuitOpened => NoticeView::CircuitOpened,
        }
    }
}

pub open spec fn result_view(result: Result<String, String>) -> Result<Seq<char>, Seq<char>> {
    match result {
        Ok(output) => Ok(output@),
        Err(message) => Err(message@),
    }
}

impl View for CallPhase {
    type V = PhaseView;

    open spec fn view(&self) -> PhaseView {
        match *self {
            CallPhase::Looking { force } => PhaseView::Looking { force },
            CallPhase::Queued => PhaseView::Queued,
            CallPhase::Running => PhaseView::Running,
            CallPhase::Relisting(message) => PhaseView::Relisting(message@),
            CallPhase::Waiting => PhaseView::Waiting,
            CallPhase::Releasing(result) => PhaseView::Releasing(result_view(result)),
            CallPhase::Done(result) => PhaseView::Done(result_view(result)),
        }
    }
}

impl View for ToolCall {
    type V = CallView;

    open spec fn view(&self) -> CallView {
        CallView { tool_name: self.tool_name@, phase: self.phase@, attempt: self.attempt }
    }
}

impl View for CallAction {
    type V = ActionView;

    open spec fn view(&self) -> ActionView {
        match *self {
            CallAction::Refresh { force } => ActionView::Refresh { force },
            CallAction::AcquirePermit { wait } => ActionView::AcquirePermit { wait },
            CallAction::Invoke => ActionView::Invoke,
            CallAction::Sleep { millis } => ActionView::Sleep { millis },
            CallAction::ReleasePermit => ActionView::ReleasePermit,
            CallAction::Finish(result) => ActionView::Finish(result_view(result)),
        }
    }
}

/// Milliseconds to sleep before a request is made again: 200 at first, twice as long each time,
/// and no longer once it has doubled eight times.
pub open spec fn backoff(attempt: u32) -> nat {
    200 * vstd::arithmetic::power2::pow2(
        if attempt < 8 {
            attempt as nat
        } else {
            8
        },
    )
}

/// Milliseconds to sleep before a request is made again.
pub fn backoff_ms(attempt: u32) -> (millis: u64)
    ensures
        millis == backoff(attempt),
        200 <= millis <= 51_200,
{
    let steps: u32 = if attempt < 8 {
        attempt
    } else {
        8
    };
    let mut millis: u64 = 200;
    let mut i: u32 = 0;
    proof {
        vstd::arithmetic::power2::lemma2_to64();
    }
    while i < steps
        invariant
            i <= steps <= 8,
            millis == 200 * vstd::arithmetic::power2::pow2(i as nat),
            vstd::arithmetic::power2::pow2(i as nat) <= vstd::arithmetic::power2::pow2(8),
            vstd::arithmetic::power2::pow2(8) == 256,
        decreases steps - i,
    {
        proof {
            vstd::arithmetic::power2::lemma_pow2_unfold((i + 1) as nat);
            lemma_pow2_up_to_eight((i + 1) as nat);
        }
        millis = millis * 2;
        i += 1;
    }
    proof {
        vstd::arithmetic::power2::lemma_pow2_pos(steps as nat);
    }
    millis
}

proof fn lemma_pow2_up_to_eight(n: nat)
    requires
        n <= 8,
    ensures
        vstd::arithmetic::power2::pow2(n) <= vstd::arithmetic::power2::pow2(8),
{
    if n < 8 {
        vstd::arithmetic::power2::lemma_pow2_strictly_increases(n, 8);
    }
}

pub open spec fn rate_limited(name: Seq<char>, secs: u64) -> Seq<char> {
    "MCP server '"@ + name + "' rate-limited; retry in ~"@ + text::decimal(secs as nat) + "s"@
}

pub open spec fn circuit_open(name: Seq<char>, secs: u64) -> Seq<char> {
    "MCP server '"@ + name + "' circuit open; retry in ~"@ + text::decimal(secs as nat) + "s"@
}

pub open spec fn busy(server: ServerView) -> Seq<char> {
    "MCP server '"@ + server.name + "' busy; exceeded queue wait of "@
        + server.queue_wait.readable()
}

pub open spec fn limiter_closed(name: Seq<char>) -> Seq<char> {
    "MCP server '"@ + name + "' limiter is closed"@
}

impl CallView {
    /// A call that starts. The list of tools is read anew where it does not hold the tool.
    pub open spec fn start(server: ServerView, tool_name: Seq<char>) -> CallView {
        CallView {
            tool_name,
            phase: PhaseView::Looking { force: !server.knows(tool_name) },
            attempt: 0,
        }
    }

    /// The call in another phase.
    pub open spec fn at(self, phase: PhaseView) -> CallView {
        CallView { phase, ..self }
    }

    /// The work that is due.
    pub open spec fn action(self, server: ServerView) -> ActionView {
        match self.phase {
            PhaseView::Looking { force } => ActionView::Refresh { force },
            PhaseView::Queued => ActionView::AcquirePermit { wait: server.queue_wait },
            PhaseView::Running => ActionView::Invoke,
            PhaseView::Relisting(_) => ActionView::Refresh { force: true },
            PhaseView::Waiting => ActionView::Sleep { millis: backoff(self.attempt) as u64 },
            PhaseView::Releasing(_) => ActionView::ReleasePermit,
            PhaseView::Done(result) => ActionView::Finish(result),
        }
    }

    /// The event is what came of the work that was due.
    pub open spec fn awaits(self, event: CallEvent) -> bool {
        match self.phase {
            PhaseView::Looking { .. } => event is Refreshed,
            PhaseView::Queued => event is Permit,
            PhaseView::Running => event is Invoked,
            PhaseView::Relisting(_) => event is Refreshed,
            PhaseView::Waiting => event is Slept,
            PhaseView::Releasing(_) => event is Released,
            PhaseView::Done(_) => false,
        }
    }

    /// The list of tools was brought up to date: the call is let through, or the rate limiter
    /// refuses it.
    pub open spec fn looked(self, server: ServerView, now: Instant) -> (CallView, ServerView) {
        let counted = ServerView { rate_limiter: server.rate_limiter.after(now), ..server };
        match server.rate_limiter.verdict(now) {
            Ok(_) => (self.at(PhaseView::Queued), counted),
            Err(secs) => (
                self.at(PhaseView::Done(Err(rate_limited(server.name, secs)))),
                counted,
            ),
        }
    }

    /// The call's turn came, or did not; where it did, the circuit breaker may still refuse it.
    pub open spec fn queued(
        self,
        server: ServerView,
        outcome: PermitOutcome,
        now: Instant,
    ) -> (CallView, ServerView) {
        match outcome {
            PermitOutcome::TimedOut => (self.at(PhaseView::Done(Err(busy(server)))), server),
            PermitOutcome::Closed => (
                self.at(PhaseView::Done(Err(limiter_closed(server.name)))),
                server,
            ),
            PermitOutcome::Granted => {
                let checked = ServerView {
                    circuit_breaker: server.circuit_breaker.after_check(now),
                    ..server
                };
                match server.circuit_breaker.verdict(now) {
                    Ok(_) => (self.at(PhaseView::Running), checked),
                    Err(secs) => (
                        self.at(PhaseView::Done(Err(circuit_open(server.name, secs)))),
                        checked,
                    ),
                }
            },
        }
    }

    /// A request ended with a result. A failure that may be transient is waited out while there
    /// are retries left; after any other result the call gives its turn back.
    pub open spec fn settled(
        self,
        server: ServerView,
        result: Result<Seq<char>, Seq<char>>,
    ) -> CallView {
        match result {
            Err(message) if self.attempt < server.max_retries && server::says_transient(
                message,
            ) => self.at(PhaseView::Waiting),
            _ => self.at(PhaseView::Releasing(result)),
        }
    }

    /// What is worth a warning when a request ends with a result.
    pub open spec fn settled_notice(
        self,
        server: ServerView,
        result: Result<Seq<char>, Seq<char>>,
    ) -> NoticeView {
        match result {
            Err(message) if self.attempt < server.max_retries && server::says_transient(
                message,
            ) => NoticeView::Retrying(message),
            _ => NoticeView::Nothing,
        }
    }

    /// The turn was given back: the call is over, and the circuit breaker takes note of its
    /// result.
    pub open spec fn released(
        self,
        server: ServerView,
        result: Result<Seq<char>, Seq<char>>,
        now: Instant,
    ) -> (CallView, ServerView) {
        let breaker = match result {
            Ok(_) => server.circuit_breaker.after_success(),
            Err(_) => server.circuit_breaker.after_failure(now),
        };
        (
            self.at(PhaseView::Done(result)),
            ServerView { circuit_breaker: breaker, ..server },
        )
    }

    /// What is worth a warning after an event.
    pub open spec fn notice(self, server: ServerView, event: CallEvent) -> NoticeView {
        match (self.phase, event) {
            (PhaseView::Running, CallEvent::Invoked(outcome)) => if outdates_tools(outcome) {
                NoticeView::Nothing
            } else {
                self.settled_notice(server, invoke_result(server, outcome))
            },
            (PhaseView::Relisting(message), CallEvent::Refreshed) => self.settled_notice(
                server,
                Err(message),
            ),
            (PhaseView::Releasing(Err(_)), CallEvent::Released) => {
                if server.circuit_breaker.trips() {
                    NoticeView::CircuitOpened
                } else {
                    NoticeView::Nothing
                }
            },
            _ => NoticeView::Nothing,
        }
    }

    /// The request was answered, or was not.
    pub open spec fn invoked(
        self,
        server: ServerView,
        outcome: InvokeOutcome,
    ) -> (CallView, ServerView) {
        if outdates_tools(outcome) {
            (
                self.at(PhaseView::Relisting(invoke_result(server, outcome)->Err_0)),
                server.without_tools(),
            )
        } else {
            (self.settled(server, invoke_result(server, outcome)), server)
        }
    }

    /// The call and its server after an event. One that the call does not wait for changes
    /// nothing.
    pub open spec fn after(self, server: ServerView, event: CallEvent, now: Instant) -> (
        CallView,
        ServerView,
    ) {
        match (self.phase, event) {
            (PhaseView::Looking { .. }, CallEvent::Refreshed) => self.looked(server, now),
            (PhaseView::Queued, CallEvent::Permit(outcome)) => self.queued(server, outcome, now),
            (PhaseView::Running, CallEvent::Invoked(outcome)) => self.invoked(server, outcome),
            (PhaseView::Relisting(message), CallEvent::Refreshed) => (
                self.settled(server, Err(message)),
                server,
            ),
            (PhaseView::Releasing(result), CallEvent::Released) => self.released(
                server,
                result,
                now,
            ),
            (PhaseView::Waiting, CallEvent::Slept) => (
                CallView {
                    phase: PhaseView::Running,
                    attempt: if self.attempt < u32::MAX {
                        (self.attempt + 1) as u32
                    } else {
                        self.attempt
                    },
                    ..self
                },
                server,
            ),
            _ => (self, server),
        }
    }
}

fn refusal(name: &str, why: &str, secs: u64) -> (s: String)
    ensures
        s@ == "MCP server '"@ + name@ + why@ + text::decimal(secs as nat) + "s"@,
{
    let mut s = connect::message("MCP server '", name, why);
    s.append(text::decimal_text(secs).as_str());
    s.append("s");
    s
}

impl McpServer {
    /// Starts a call of one of the server's tools.
    pub fn call_tool(&self, tool_name: &str) -> (call: ToolCall)
        ensures
            call@ == CallView::start(self@, tool_name@),
    {
        ToolCall {
            tool_name: tool_name.to_string(),
            phase: CallPhase::Looking { force: !self.knows_tool(tool_name) },
            attempt: 0,
        }
    }

    /// The result of a request.
    pub fn call_tool_inner(&self, outcome: &InvokeOutcome) -> (result: Result<String, String>)
        ensures
            result_view(result) == invoke_result(self@, *outcome),
            outcome matches InvokeOutcome::Replied(reply) ==> match (reply.is_error, result) {
                (Some(true), Err(output)) => output@ == reply_text(*reply),
                (Some(true), Ok(_)) => false,
                (_, Ok(output)) => output@ == reply_text(*reply),
                (_, Err(_)) => false,
            },
    {
        match outcome {
            InvokeOutcome::TimedOut => {
                let mut s = connect::message(
                    "MCP tool call timed out for '",
                    self.name.as_str(),
                    "' after ",
                );
                s.append(self.request_timeout.readable_text().as_str());
                Err(s)
            },
            InvokeOutcome::Failed(e) => {
                let mut s = "MCP tool call error: ".to_string();
                s.append(e.as_str());
                Err(s)
            },
            InvokeOutcome::Replied(reply) => {
                let output = read_reply(reply);
                if reply.is_error.unwrap_or(false) {
                    Err(output)
                } else {
                    Ok(output)
                }
            },
        }
    }
}

impl ToolCall {
    /// The work that is due.
    pub fn action(&self, server: &McpServer) -> (action: CallAction)
        ensures
            action@ == self@.action(server@),
    {
        match &self.phase {
            CallPhase::Looking { force } => CallAction::Refresh { force: *force },
            CallPhase::Queued => CallAction::AcquirePermit { wait: server.queue_wait },
            CallPhase::Running => CallAction::Invoke,
            CallPhase::Relisting(_) => CallAction::Refresh { force: true },
            CallPhase::Waiting => CallAction::Sleep { millis: backoff_ms(self.attempt) },
            CallPhase::Releasing(_) => CallAction::ReleasePermit,
            CallPhase::Done(Ok(output)) => CallAction::Finish(Ok(output.clone())),
            CallPhase::Done(Err(message)) => CallAction::Finish(Err(message.clone())),
        }
    }

    /// Makes up the request: it names the tool, and carries the arguments where they are an
    /// object, and an empty object where they are not.
    pub fn request<V>(&self, arguments: CallArguments<V>) -> (request: ToolRequest<V>)
        ensures
            request.tool_name@ == self@.tool_name,
            request.arguments@ == sent_arguments(arguments),
    {
        ToolRequest {
            tool_name: self.tool_name.clone(),
            arguments: match arguments {
                CallArguments::Object(members) => members,
                CallArguments::Other => Vec::new(),
            },
        }
    }

    /// Takes in what came of the work that was due, at `now`, and decides how to go on. Says
    /// what of it is worth a warning.
    pub fn advance(&mut self, server: &mut McpServer, event: CallEvent, now: Instant) -> (notice:
        CallNotice)
        ensures
            (final(self)@, final(server)@) == old(self)@.after(old(server)@, event, now),
            notice@ == old(self)@.notice(old(server)@, event),
            old(server)@.wf() ==> final(server)@.wf(),
    {
        let (phase, notice) = match (&self.phase, event) {
            (CallPhase::Looking { .. }, CallEvent::Refreshed) => {
                let phase = match server.rate_limiter.consume_or_retry_after_secs(now) {
                    Ok(_) => CallPhase::Queued,
                    Err(secs) => CallPhase::Done(
                        Err(
                            refusal(
                                server.name.as_str(),
                                "' rate-limited; retry in ~",
                                secs,
                            ),
                        ),
                    ),
                };
                (phase, CallNotice::Nothing)
            },
            (CallPhase::Queued, CallEvent::Permit(outcome)) => (
                ToolCall::take_turn(server, outcome, now),
                CallNotice::Nothing,
            ),
            (CallPhase::Running, CallEvent::Invoked(outcome)) => {
                let result = server.call_tool_inner(&outcome);
                match (result, outcome) {
                    (Err(message), InvokeOutcome::Replied(_)) => {
                        if McpServer::is_tool_not_found_error(message.as_str()) {
                            server.invalidate_tools_cache();
                            (CallPhase::Relisting(message), CallNotice::Nothing)
                        } else {
                            ToolCall::settle(self.attempt, server, Err(message))
                        }
                    },
                    (result, _) => ToolCall::settle(self.attempt, server, result),
                }
            },
            (CallPhase::Relisting(message), CallEvent::Refreshed) => ToolCall::settle(
                self.attempt,
                server,
                Err(message.clone()),
            ),
            (CallPhase::Releasing(result), CallEvent::Released) => match result {
                Ok(output) => {
                    server.circuit_breaker.record_success();
                    (CallPhase::Done(Ok(output.clone())), CallNotice::Nothing)
                },
                Err(message) => {
                    let notice = if server.circuit_breaker.record_failure(now) {
                        CallNotice::CircuitOpened
                    } else {
                        CallNotice::Nothing
                    };
                    (CallPhase::Done(Err(message.clone())), notice)
                },
            },
            (CallPhase::Waiting, CallEvent::Slept) => {
                self.attempt = self.attempt.saturating_add(1);
                (CallPhase::Running, CallNotice::Nothing)
            },
            _ => {
                return CallNotice::Nothing;
            },
        };
        self.phase = phase;
        notice
    }

    fn take_turn(server: &mut McpServer, outcome: PermitOutcome, now: Instant) -> (phase: CallPhase)
        ensures
            forall|call: CallView| #[trigger]
                call.queued(old(server)@, outcome, now) == (call.at(phase@), final(server)@),
            old(server)@.wf() ==> final(server)@.wf(),
    {
        match outcome {
            PermitOutcome::TimedOut => {
                let mut s = connect::message(
                    "MCP server '",
                    server.name.as_str(),
                    "' busy; exceeded queue wait of ",
                );
                s.append(server.queue_wait.readable_text().as_str());
                CallPhase::Done(Err(s))
            },
            PermitOutcome::Closed => CallPhase::Done(
                Err(
                    connect::message(
                        "MCP server '",
                        server.name.as_str(),
                        "' limiter is closed",
                    ),
                ),
            ),
            PermitOutcome::Granted => match server.circuit_breaker.check_ready(now) {
                Ok(_) => CallPhase::Running,
                Err(secs) => CallPhase::Done(
                    Err(refusal(server.name.as_str(), "' circuit open; retry in ~", secs)),
                ),
            },
        }
    }

    fn settle(attempt: u32, server: &McpServer, result: Result<String, String>) -> (settled: (
        CallPhase,
        CallNotice,
    ))
        ensures
            forall|call: CallView|
                call.attempt == attempt ==> #[trigger] call.settled(server@, result_view(result))
                    == call.at(settled.0@),
            forall|call: CallView|
                call.attempt == attempt ==> #[trigger] call.settled_notice(
                    server@,
                    result_view(result),
                ) == settled.1@,
    {
        match result {
            Ok(output) => (CallPhase::Releasing(Ok(output)), CallNotice::Nothing),
            Err(message) => if attempt < server.max_retries && McpServer::should_retry_error(
                message.as_str(),
            ) {
                (CallPhase::Waiting, CallNotice::Retrying(message))
            } else {
                (CallPhase::Releasing(Err(message)), CallNotice::Nothing)
            },
        }
    }
}

// ---------------------------------------------------------------------------
// Whole calls
// ---------------------------------------------------------------------------

/// What a call takes in at one point: the server as it is then, which other calls may have
/// changed meanwhile, an event and the time.
pub struct CallInput {
    pub server: ServerView,
    pub event: CallEvent,
    pub now: Instant,
}

/// The call after a sequence of inputs.
pub open spec fn call_run(call: CallView, inputs: Seq<CallInput>) -> CallView
    decreases inputs.len(),
{
    if inputs.len() == 0 {
        call
    } else {
        let input = inputs.last();
        call_run(call, inputs.drop_last()).after(input.server, input.event, input.now).0
    }
}

/// How many requests a call has made.
pub open spec fn requests(call: CallView, inputs: Seq<CallInput>) -> nat
    decreases inputs.len(),
{
    if inputs.len() == 0 {
        0
    } else {
        let earlier = inputs.drop_last();
        let made = call_run(call, earlier).phase is Running && inputs.last().event is Invoked;
        requests(call, earlier) + if made {
            1nat
        } else {
            0nat
        }
    }
}

/// All inputs come from a server with this many retries.
pub open spec fn retries_are(inputs: Seq<CallInput>, max_retries: u32) -> bool {
    forall|i: int|
        0 <= i < inputs.len() ==> (#[trigger] inputs[i]).server.max_retries == max_retries
}

/// Every input is what came of the work that was due.
pub open spec fn all_awaited(call: CallView, inputs: Seq<CallInput>) -> bool
    decreases inputs.len(),
{
    inputs.len() == 0 || (all_awaited(call, inputs.drop_last()) && call_run(
        call,
        inputs.drop_last(),
    ).awaits(inputs.last().event))
}

/// A call has made no more retries than it may.
pub open spec fn within_retries(call: CallView, max_retries: u32) -> bool {
    call.attempt <= max_retries && (call.phase is Waiting ==> call.attempt < max_retries)
}

/// An upper bound on the events that a call still takes until it is over.
pub open spec fn events_left(call: CallView, max_retries: u32) -> int {
    let left = 3 * (max_retries - call.attempt);
    match call.phase {
        PhaseView::Looking { .. } => left + 5,
        PhaseView::Queued => left + 4,
        PhaseView::Running => left + 3,
        PhaseView::Relisting(_) => left + 2,
        PhaseView::Waiting => left + 1,
        PhaseView::Releasing(_) => 1,
        PhaseView::Done(_) => 0,
    }
}

proof fn lemma_call_run(call: CallView, inputs: Seq<CallInput>, max_retries: u32)
    requires
        call.phase is Looking,
        call.attempt == 0,
        retries_are(inputs, max_retries),
    ensures
        within_retries(call_run(call, inputs), max_retries),
        requests(call, inputs) <= call_run(call, inputs).attempt + if call_run(
            call,
            inputs,
        ).phase is Looking || call_run(call, inputs).phase is Queued || call_run(
            call,
            inputs,
        ).phase is Running {
            0int
        } else {
            1int
        },
        all_awaited(call, inputs) ==> inputs.len() + events_left(
            call_run(call, inputs),
            max_retries,
        ) <= 3 * max_retries + 5,
    decreases inputs.len(),
{
    if inputs.len() > 0 {
        let earlier = inputs.drop_last();
        assert forall|i: int| 0 <= i < earlier.len() implies (
        #[trigger] earlier[i]).server.max_retries == max_retries by {
            assert(earlier[i] == inputs[i]);
        }
        lemma_call_run(call, earlier, max_retries);
        assert(inputs.last() == inputs[inputs.len() - 1]);
    }
}

/// A call makes at most one request more than it has retries.
pub proof fn law_requests_are_bounded_by_retries(
    server: ServerView,
    tool_name: Seq<char>,
    inputs: Seq<CallInput>,
)
    requires
        retries_are(inputs, server.max_retries),
    ensures
        requests(CallView::start(server, tool_name), inputs) <= server.max_retries + 1,
{
    lemma_call_run(CallView::start(server, tool_name), inputs, server.max_retries);
}

/// Every call comes to an end: it waits for no more than five events, and three more for each
/// retry.
pub proof fn law_every_call_ends(server: ServerView, tool_name: Seq<char>, inputs: Seq<CallInput>)
    requires
        retries_are(inputs, server.max_retries),
        all_awaited(CallView::start(server, tool_name), inputs),
    ensures
        inputs.len() <= 3 * server.max_retries + 5,
        inputs.len() == 3 * server.max_retries + 5 ==> call_run(
            CallView::start(server, tool_name),
            inputs,
        ).phase is Done,
{
    lemma_call_run(CallView::start(server, tool_name), inputs, server.max_retries);
}

/// What a call does to its server, and when. The breaker is told of a call once it has given its
/// turn back, and asked when its turn comes; the limiter is asked once the tools were looked at;
/// and the list of tools is forgotten when the server did not know the tool. A call that is over
/// does nothing.
pub proof fn law_effects_on_the_server(
    call: CallView,
    server: ServerView,
    event: CallEvent,
    now: Instant,
)
    ensures
        ({
            let (next, after) = call.after(server, event, now);
            &&& call.phase is Done ==> next == call && after == server
            &&& !call.awaits(event) ==> next == call && after == server
            &&& after.circuit_breaker == if call.phase is Releasing && event is Released {
                if call.phase->Releasing_0 is Ok {
                    server.circuit_breaker.after_success()
                } else {
                    server.circuit_breaker.after_failure(now)
                }
            } else if call.phase is Queued && event == CallEvent::Permit(PermitOutcome::Granted) {
                server.circuit_breaker.after_check(now)
            } else {
                server.circuit_breaker
            }
            &&& after.rate_limiter == if call.phase is Looking && event is Refreshed {
                server.rate_limiter.after(now)
            } else {
                server.rate_limiter
            }
            &&& !(next.phase is Relisting && !(call.phase is Relisting)) ==> after.tools_cache
                == server.tools_cache && after.tools_cache_updated_at
                == server.tools_cache_updated_at
            &&& next.phase is Relisting && !(call.phase is Relisting) ==> after.tools_cache.len()
                == 0 && after.tools_cache_updated_at is None
            &&& after.name == server.name && after.max_retries == server.max_retries
            &&& after.request_timeout == server.request_timeout && after.queue_wait
                == server.queue_wait
        }),
{
}

/// What a call returns is what its last request came to. Output is what the server replied; an
/// error of a request is returned as it is, where it is not waited out.
pub proof fn law_results_come_from_requests(
    call: CallView,
    server: ServerView,
    event: CallEvent,
    now: Instant,
)
    requires
        call.awaits(event),
    ensures
        ({
            let next = call.after(server, event, now).0;
            &&& next.phase matches PhaseView::Releasing(result) ==> match (call.phase, event) {
                (PhaseView::Running, CallEvent::Invoked(outcome)) => result == invoke_result(
                    server,
                    outcome,
                ),
                (PhaseView::Relisting(message), CallEvent::Refreshed) => result == Err::<
                    Seq<char>,
                    Seq<char>,
                >(message),
                _ => false,
            }
            &&& next.phase matches PhaseView::Done(Ok(_)) ==> call.phase is Releasing
            &&& call.phase is Releasing ==> next.phase == PhaseView::Done(call.phase->Releasing_0)
        }),
{
}

/// A call whose request is under way or may be made again gives its turn back before it is over,
/// and before the circuit breaker takes note of it.
pub proof fn law_turns_are_given_back(
    call: CallView,
    server: ServerView,
    event: CallEvent,
    now: Instant,
)
    requires
        call.phase is Running || call.phase is Relisting || call.phase is Waiting,
    ensures
        !(call.after(server, event, now).0.phase is Done),
        call.after(server, event, now).1.circuit_breaker == server.circuit_breaker,
{
}

/// A request is made only when the call's turn has come and the circuit is closed, or after a
/// pause between two requests of the same call.
pub proof fn law_requests_wait_for_their_turn(
    call: CallView,
    server: ServerView,
    event: CallEvent,
    now: Instant,
)
    requires
        !(call.phase is Running),
        call.after(server, event, now).0.phase is Running,
    ensures
        (call.phase is Queued && event == CallEvent::Permit(PermitOutcome::Granted)
            && server.circuit_breaker.verdict(now) is Ok) || (call.phase is Waiting
            && event is Slept),
{
}

/// Whatever happens to a call, each of its requests names the tool that it was started for.
pub proof fn law_requests_name_the_tool(call: CallView, inputs: Seq<CallInput>)
    ensures
        call_run(call, inputs).tool_name == call.tool_name,
    decreases inputs.len(),
{
    if inputs.len() > 0 {
        law_requests_name_the_tool(call, inputs.drop_last());
    }
}

/// A warning says what happens: a pause follows the one and ends no call, and the other comes
/// with a call that failed and opened the circuit.
pub proof fn law_notices_say_what_happens(
    call: CallView,
    server: ServerView,
    event: CallEvent,
    now: Instant,
)
    ensures
        ({
            let (next, after) = call.after(server, event, now);
            &&& call.notice(server, event) is Retrying <==> next.phase is Waiting && !(
            call.phase is Waiting)
            &&& call.notice(server, event) is CircuitOpened <==> call.phase is Releasing
                && next.phase is Done && next.phase->Done_0 is Err
                && server.circuit_breaker.trips()
        }),
{
}

/// A request is made again only after an error that may be transient, and only while there are
/// retries left.
pub proof fn law_only_transient_failures_are_retried(
    call: CallView,
    server: ServerView,
    event: CallEvent,
    now: Instant,
)
    requires
        !(call.phase is Waiting),
        call.after(server, event, now).0.phase is Waiting,
    ensures
        call.attempt < server.max_retries,
        match (call.phase, event) {
            (PhaseView::Running, CallEvent::Invoked(outcome)) => (invoke_result(
                server,
                outcome,
            ) matches Err(message) && server::says_transient(message)),
            (PhaseView::Relisting(message), CallEvent::Refreshed) => server::says_transient(
                message,
            ),
            _ => false,
        },
{
}

/// A call that the rate limiter or the circuit breaker refuses is over, with an error, and no
/// request was made.
pub proof fn law_refused_calls_make_no_request(
    server: ServerView,
    tool_name: Seq<char>,
    now: Instant,
    at_turn: ServerView,
    later: Instant,
)
    ensures
        ({
            let start = CallView::start(server, tool_name);
            let (asked, counted) = start.after(server, CallEvent::Refreshed, now);
            &&& server.rate_limiter.verdict(now) is Err ==> asked.phase is Done
                && asked.phase->Done_0 is Err
            &&& server.rate_limiter.verdict(now) is Ok ==> asked.action(counted)
                == (ActionView::AcquirePermit { wait: server.queue_wait })
            &&& server.rate_limiter.verdict(now) is Ok && at_turn.circuit_breaker.verdict(
                later,
            ) is Err ==> {
                let refused = asked.after(
                    at_turn,
                    CallEvent::Permit(PermitOutcome::Granted),
                    later,
                ).0;
                refused.phase is Done && refused.phase->Done_0 is Err
            }
        }),
{
}

/// A tool that is not in the list makes the list be read anew, one that is in it does not.
pub proof fn law_unknown_tools_force_a_listing(server: ServerView, tool_name: Seq<char>)
    ensures
        CallView::start(server, tool_name).action(server) == (ActionView::Refresh {
            force: !server.knows(tool_name),
        }),
{
}

/// The time slept between requests never shrinks, and stays within 200 and 51200 milliseconds.
pub proof fn law_backoff_grows_to_a_limit(a: u32, b: u32)
    requires
        a <= b,
    ensures
        backoff(a) <= backoff(b),
        200 <= backoff(a) <= 51_200,
{
    vstd::arithmetic::power2::lemma2_to64();
    let m: nat = if a < 8 {
        a as nat
    } else {
        8
    };
    let n: nat = if b < 8 {
        b as nat
    } else {
        8
    };
    vstd::arithmetic::power2::lemma_pow2_pos(m);
    lemma_pow2_up_to_eight(m);
    if m < n {
        vstd::arithmetic::power2::lemma_pow2_strictly_increases(m, n);
    }
}

// ---------------------------------------------------------------------------
// Replies and stages, case by case
// ---------------------------------------------------------------------------

/// A reply without the mark of an error, or with a mark that says there is none, is a result; a
/// reply with the mark is an error. Either reads the same.
pub proof fn law_only_marked_replies_are_errors(
    server: ServerView,
    content: Vec<ContentItem>,
    rendered: String,
)
    ensures
        ({
            let unmarked = ToolReply { is_error: None, content, rendered };
            let unmistaken = ToolReply { is_error: Some(false), content, rendered };
            let mistaken = ToolReply { is_error: Some(true), content, rendered };
            let output = reply_text(unmarked);
            &&& reply_text(unmistaken) == output
            &&& reply_text(mistaken) == output
            &&& invoke_result(server, InvokeOutcome::Replied(unmarked)) == Ok::<
                Seq<char>,
                Seq<char>,
            >(output)
            &&& invoke_result(server, InvokeOutcome::Replied(unmistaken)) == Ok::<
                Seq<char>,
                Seq<char>,
            >(output)
            &&& invoke_result(server, InvokeOutcome::Replied(mistaken)) == Err::<
                Seq<char>,
                Seq<char>,
            >(output)
            &&& !outdates_tools(InvokeOutcome::Replied(unmarked))
            &&& !outdates_tools(InvokeOutcome::Replied(unmistaken))
            &&& outdates_tools(InvokeOutcome::Replied(mistaken)) <==> server::says_not_found(
                output,
            )
        }),
{
}

/// For every reply: an error exactly where it is marked as one, and then with the reply's text.
pub proof fn law_replies_are_results_unless_marked(server: ServerView, reply: ToolReply)
    ensures
        invoke_result(server, InvokeOutcome::Replied(reply)) is Err <==> reply.is_error == Some(
            true,
        ),
        reply.is_error is None ==> invoke_result(server, InvokeOutcome::Replied(reply)) == Ok::<
            Seq<char>,
            Seq<char>,
        >(reply_text(reply)),
        reply.is_error == Some(false) ==> invoke_result(server, InvokeOutcome::Replied(reply))
            == Ok::<Seq<char>, Seq<char>>(reply_text(reply)),
        reply.is_error == Some(true) ==> invoke_result(server, InvokeOutcome::Replied(reply))
            == Err::<Seq<char>, Seq<char>>(reply_text(reply)),
        outdates_tools(InvokeOutcome::Replied(reply)) ==> reply.is_error == Some(true),
{
}

/// A request without a reply is an error that says why, and says nothing of the tools.
pub proof fn law_requests_without_reply_are_errors(server: ServerView, cause: String)
    ensures
        invoke_result(server, InvokeOutcome::TimedOut) == Err::<Seq<char>, Seq<char>>(
            "MCP tool call timed out for '"@ + server.name + "' after "@
                + server.request_timeout.readable(),
        ),
        invoke_result(server, InvokeOutcome::Failed(cause)) == Err::<Seq<char>, Seq<char>>(
            "MCP tool call error: "@ + cause@,
        ),
        !outdates_tools(InvokeOutcome::TimedOut),
        !outdates_tools(InvokeOutcome::Failed(cause)),
{
}

/// The list of tools is forgotten only when the server itself says, in a reply that is marked as
/// an error, that it does not know the tool. Every other outcome leaves the whole server as it
/// is.
pub proof fn law_tools_are_forgotten_only_on_marked_replies(
    call: CallView,
    server: ServerView,
    outcome: InvokeOutcome,
    now: Instant,
)
    requires
        call.phase is Running,
    ensures
        ({
            let (next, after) = call.after(server, CallEvent::Invoked(outcome), now);
            match outcome {
                InvokeOutcome::Replied(reply) => {
                    let unknown = reply.is_error == Some(true) && server::says_not_found(
                        reply_text(reply),
                    );
                    &&& unknown ==> next.phase == PhaseView::Relisting(reply_text(reply))
                        && after.tools_cache.len() == 0 && after.tools_cache_updated_at is None
                        && after.circuit_breaker == server.circuit_breaker && after.rate_limiter
                        == server.rate_limiter
                    &&& !unknown ==> after == server && !(next.phase is Relisting)
                    &&& reply.is_error != Some(true) ==> next.phase == PhaseView::Releasing(
                        Ok(reply_text(reply)),
                    )
                },
                _ => after == server && !(next.phase is Relisting),
            }
        }),
{
}

/// Pieces that are no text make no difference, and a piece alone reads as it stands.
pub proof fn law_pieces_of_text_alone_are_read(content: Seq<ContentItem>, piece: String)
    ensures
        joined_text(content.push(ContentItem::Other)) == joined_text(content),
        joined_text(content.push(ContentItem::Text(piece))) == if joined_text(content).len()
            == 0 {
            piece@
        } else {
            joined_text(content).push('\n') + piece@
        },
        joined_text(Seq::empty()).len() == 0,
{
    assert(content.push(ContentItem::Other).drop_last() =~= content);
    assert(content.push(ContentItem::Text(piece)).drop_last() =~= content);
    reveal_strlit("\n");
    assert(joined_text(content) + "\n"@ + piece@ =~= joined_text(content).push('\n') + piece@);
}

/// What two replies read, one after the other, is what the one reads and, on a new line, what
/// the other does, where the pieces of the second hold text.
pub proof fn law_replies_read_one_after_the_other(a: Seq<ContentItem>, b: Seq<ContentItem>)
    requires
        joined_text(a).len() > 0,
        forall|i: int|
            0 <= i < b.len() ==> (#[trigger] b[i] matches ContentItem::Text(piece) ==> piece@.len()
                > 0),
    ensures
        joined_text(a + b) == if joined_text(b).len() == 0 {
            joined_text(a)
        } else {
            joined_text(a).push('\n') + joined_text(b)
        },
    decreases b.len(),
{
    if b.len() == 0 {
        assert(a + b =~= a);
    } else {
        let rest = b.drop_last();
        assert forall|i: int| 0 <= i < rest.len() implies (
        #[trigger] rest[i] matches ContentItem::Text(piece) ==> piece@.len() > 0) by {
            assert(rest[i] == b[i]);
        }
        law_replies_read_one_after_the_other(a, rest);
        assert((a + b).drop_last() =~= a + rest);
        assert((a + b).last() == b.last());
        assert(b.last() == b[b.len() - 1]);
        reveal_strlit("\n");
        let before = joined_text(a);
        match b.last() {
            ContentItem::Text(piece) => {
                assert(joined_text(a + rest).len() > 0);
                if joined_text(rest).len() == 0 {
                    assert(before + "\n"@ + piece@ =~= before.push('\n') + piece@);
                } else {
                    let more = joined_text(rest);
                    assert((before.push('\n') + more) + "\n"@ + piece@ =~= before.push('\n') + (
                    more + "\n"@ + piece@));
                }
            },
            ContentItem::Other => {},
        }
    }
}

/// A reply with text reads as its text, and one without as all of its content in JSON.
pub proof fn law_replies_without_text_are_rendered(reply: ToolReply)
    ensures
        joined_text(reply.content@).len() > 0 ==> reply_text(reply) == joined_text(reply.content@),
        joined_text(reply.content@).len() == 0 ==> reply_text(reply) == reply.rendered@,
{
}

/// The members of an object are sent as they stand; what is no object is sent as no members.
pub proof fn law_objects_are_sent_whole<V>(members: Vec<(String, V)>)
    ensures
        sent_arguments(CallArguments::Object(members)) == members@,
        sent_arguments(CallArguments::<V>::Other).len() == 0,
{
}

/// The pause between requests doubles from one to the next, from a fifth of a second on, until
/// it has doubled eight times.
pub proof fn law_pauses_double(attempt: u32)
    ensures
        backoff(0) == 200,
        attempt < 8 ==> backoff((attempt + 1) as u32) == 2 * backoff(attempt),
        attempt >= 8 ==> backoff(attempt) == 51_200,
{
    vstd::arithmetic::power2::lemma2_to64();
    if attempt < 8 {
        vstd::arithmetic::power2::lemma_pow2_unfold((attempt + 1) as nat);
    }
}

/// What each phase asks for.
pub proof fn law_each_phase_has_its_work(call: CallView, server: ServerView)
    ensures
        match call.phase {
            PhaseView::Looking { force } => call.action(server) == (ActionView::Refresh { force }),
            PhaseView::Queued => call.action(server) == (ActionView::AcquirePermit {
                wait: server.queue_wait,
            }),
            PhaseView::Running => call.action(server) == ActionView::Invoke,
            PhaseView::Relisting(_) => call.action(server) == (ActionView::Refresh {
                force: true,
            }),
            PhaseView::Waiting => call.action(server) is Sleep && call.action(server)->millis
                == backoff(call.attempt),
            PhaseView::Releasing(_) => call.action(server) == ActionView::ReleasePermit,
            PhaseView::Done(result) => call.action(server) == ActionView::Finish(result),
        },
{
    law_backoff_grows_to_a_limit(call.attempt, call.attempt);
}

/// Once the tools were looked at, a call that the limiter lets through waits for its turn, and
/// one that it refuses ends with the seconds to wait. The limiter alone takes note of it.
pub proof fn law_the_limiter_decides_first(
    call: CallView,
    server: ServerView,
    now: Instant,
)
    requires
        call.phase is Looking,
    ensures
        ({
            let (next, after) = call.after(server, CallEvent::Refreshed, now);
            &&& server.rate_limiter.verdict(now) is Ok ==> next.phase is Queued
            &&& server.rate_limiter.verdict(now) is Err ==> next.phase == PhaseView::Done(
                Err(
                    "MCP server '"@ + server.name + "' rate-limited; retry in ~"@ + text::decimal(
                        server.rate_limiter.verdict(now)->Err_0 as nat,
                    ) + "s"@,
                ),
            )
            &&& next.attempt == call.attempt && next.tool_name == call.tool_name
            &&& after == (ServerView { rate_limiter: server.rate_limiter.after(now), ..server })
        }),
{
}

/// A call whose turn does not come ends with why it did not. One whose turn comes runs where
/// the circuit is closed, and else ends with the seconds to wait.
pub proof fn law_the_breaker_decides_at_the_turn(
    call: CallView,
    server: ServerView,
    now: Instant,
)
    requires
        call.phase is Queued,
    ensures
        ({
            let (next, after) = call.after(
                server,
                CallEvent::Permit(PermitOutcome::Granted),
                now,
            );
            &&& server.circuit_breaker.verdict(now) is Ok ==> next.phase is Running
            &&& server.circuit_breaker.verdict(now) is Err ==> next.phase == PhaseView::Done(
                Err(
                    "MCP server '"@ + server.name + "' circuit open; retry in ~"@ + text::decimal(
                        server.circuit_breaker.verdict(now)->Err_0 as nat,
                    ) + "s"@,
                ),
            )
            &&& next.attempt == call.attempt && next.tool_name == call.tool_name
            &&& after == (ServerView {
                circuit_breaker: server.circuit_breaker.after_check(now),
                ..server
            })
        }),
        ({
            let (next, after) = call.after(
                server,
                CallEvent::Permit(PermitOutcome::TimedOut),
                now,
            );
            &&& next.phase == PhaseView::Done(
                Err(
                    "MCP server '"@ + server.name + "' busy; exceeded queue wait of "@
                        + server.queue_wait.readable(),
                ),
            )
            &&& after == server
        }),
        ({
            let (next, after) = call.after(server, CallEvent::Permit(PermitOutcome::Closed), now);
            &&& next.phase == PhaseView::Done(
                Err("MCP server '"@ + server.name + "' limiter is closed"@),
            )
            &&& after == server
        }),
{
}

/// A failed request is made again exactly where its error may be transient and the call has
/// retries left; a request with a result, or with any other error, ends the call with that.
pub proof fn law_requests_end_or_are_made_again(
    call: CallView,
    server: ServerView,
    outcome: InvokeOutcome,
    now: Instant,
)
    requires
        call.phase is Running,
        !outdates_tools(outcome),
    ensures
        ({
            let next = call.after(server, CallEvent::Invoked(outcome), now).0;
            let notice = call.notice(server, CallEvent::Invoked(outcome));
            match invoke_result(server, outcome) {
                Ok(output) => next.phase == PhaseView::Releasing(Ok(output)) && notice is Nothing,
                Err(message) => if server::says_transient(message) && call.attempt
                    < server.max_retries {
                    next.phase is Waiting && notice == NoticeView::Retrying(message)
                } else {
                    next.phase == PhaseView::Releasing(Err(message)) && notice is Nothing
                },
            }
        }),
        call.after(server, CallEvent::Invoked(outcome), now).0.attempt == call.attempt,
        call.after(server, CallEvent::Invoked(outcome), now).0.tool_name == call.tool_name,
{
}

/// Once the tools were listed again, the error that asked for it is dealt with like any other:
/// it is the call's result, unless it may be transient and there are retries left.
pub proof fn law_unknown_tools_stay_errors(
    call: CallView,
    server: ServerView,
    message: Seq<char>,
    now: Instant,
)
    requires
        call.phase == PhaseView::Relisting(message),
    ensures
        ({
            let (next, after) = call.after(server, CallEvent::Refreshed, now);
            &&& after == server
            &&& server::says_transient(message) && call.attempt < server.max_retries
                ==> next.phase is Waiting
            &&& !(server::says_transient(message) && call.attempt < server.max_retries)
                ==> next.phase == PhaseView::Releasing(Err(message))
            &&& next.attempt == call.attempt && next.tool_name == call.tool_name
        }),
{
}

/// After a pause the request is made again, and counts as one attempt more.
pub proof fn law_pauses_lead_to_the_next_request(call: CallView, server: ServerView, now: Instant)
    requires
        call.phase is Waiting,
        call.attempt < u32::MAX,
    ensures
        ({
            let (next, after) = call.after(server, CallEvent::Slept, now);
            &&& next.phase is Running
            &&& next.attempt == call.attempt + 1
            &&& next.tool_name == call.tool_name
            &&& after == server
        }),
{
}

/// A call that gives its turn back is over with the result of its last request, and the breaker
/// takes note of that and nothing else does.
pub proof fn law_released_calls_are_over(
    call: CallView,
    server: ServerView,
    result: Result<Seq<char>, Seq<char>>,
    now: Instant,
)
    requires
        call.phase == PhaseView::Releasing(result),
    ensures
        ({
            let (next, after) = call.after(server, CallEvent::Released, now);
            let breaker = if result is Ok {
                server.circuit_breaker.after_success()
            } else {
                server.circuit_breaker.after_failure(now)
            };
            &&& next.phase == PhaseView::Done(result)
            &&& after == (ServerView { circuit_breaker: breaker, ..server })
            &&& call.notice(server, CallEvent::Released) is CircuitOpened <==> result is Err
                && server.circuit_breaker.trips()
        }),
{
}

/// A call that nothing stands in the way of takes five steps, makes one request, and ends with
/// its reply.
pub proof fn law_an_unhindered_call_ends_with_its_reply(
    server: ServerView,
    tool_name: Seq<char>,
    reply: ToolReply,
    now: Instant,
)
    requires
        server.rate_limiter.limit_per_minute == 0,
        server.circuit_breaker.open_until is None,
        reply.is_error != Some(true),
    ensures
        ({
            let (c1, s1) = CallView::start(server, tool_name).after(
                server,
                CallEvent::Refreshed,
                now,
            );
            let (c2, s2) = c1.after(s1, CallEvent::Permit(PermitOutcome::Granted), now);
            let (c3, s3) = c2.after(
                s2,
                CallEvent::Invoked(InvokeOutcome::Replied(reply)),
                now,
            );
            let (c4, s4) = c3.after(s3, CallEvent::Released, now);
            &&& c1.action(s1) is AcquirePermit
            &&& c2.action(s2) is Invoke
            &&& c3.action(s3) is ReleasePermit
            &&& c4.action(s4) == ActionView::Finish(Ok(reply_text(reply)))
            &&& s4.circuit_breaker.consecutive_failures == 0
            &&& s4.circuit_breaker.open_until is None
        }),
{
}

/// A call stands for its fields, and what it asks for and reports for theirs.
pub proof fn law_a_call_stands_for_its_fields(call: ToolCall, wait: Duration, message: String)
    ensures
        call@.tool_name == call.tool_name@,
        call@.attempt == call.attempt,
        match call.phase {
            CallPhase::Looking { force } => call@.phase == (PhaseView::Looking { force }),
            CallPhase::Queued => call@.phase is Queued,
            CallPhase::Running => call@.phase is Running,
            CallPhase::Relisting(e) => call@.phase == PhaseView::Relisting(e@),
            CallPhase::Waiting => call@.phase is Waiting,
            CallPhase::Releasing(Ok(output)) => call@.phase == PhaseView::Releasing(Ok(output@)),
            CallPhase::Releasing(Err(e)) => call@.phase == PhaseView::Releasing(Err(e@)),
            CallPhase::Done(Ok(output)) => call@.phase == PhaseView::Done(Ok(output@)),
            CallPhase::Done(Err(e)) => call@.phase == PhaseView::Done(Err(e@)),
        },
        (CallAction::Refresh { force: true })@ == (ActionView::Refresh { force: true }),
        (CallAction::Refresh { force: false })@ == (ActionView::Refresh { force: false }),
        (CallAction::AcquirePermit { wait })@ == (ActionView::AcquirePermit { wait }),
        CallAction::Invoke@ == ActionView::Invoke,
        forall|millis: u64| (#[trigger] (CallAction::Sleep { millis })@) == (ActionView::Sleep {
            millis,
        }),
        CallAction::ReleasePermit@ == ActionView::ReleasePermit,
        CallAction::Finish(Ok(message))@ == ActionView::Finish(Ok(message@)),
        CallAction::Finish(Err(message))@ == ActionView::Finish(Err(message@)),
        CallNotice::Nothing@ == NoticeView::Nothing,
        CallNotice::Retrying(message)@ == NoticeView::Retrying(message@),
        CallNotice::CircuitOpened@ == NoticeView::CircuitOpened,
{
}

} // verus!
