//! Requests about skills: listing them, and switching them on and off.
//!
//! A request is followed from the check of its scope to its answer. What it asks of the rest of
//! the program is an action, and what came of that is an event.

use vstd::prelude::*;

use crate::text;

verus! {

/// What a request must be entitled to.
#[derive(Clone, Copy, Debug, PartialEq, Eq, Structural)]
pub enum AuthScope {
    Read,
    Write,
}

/// What a skill says of itself.
#[derive(Debug)]
pub struct SkillMeta {
    pub name: String,
    pub description: String,
    pub source: String,
    pub version: Option<String>,
    pub platforms: Vec<String>,
}

/// A skill that was found, whether it can be used, and why not.
#[derive(Debug)]
pub struct DiscoveredSkill {
    pub meta: SkillMeta,
    pub available: bool,
    pub reason: Option<String>,
}

/// A skill as it is listed.
#[derive(Debug)]
pub struct SkillStatus {
    pub name: String,
    pub description: String,
    pub enabled: bool,
    pub source: String,
    pub version: Option<String>,
    pub platforms: Vec<String>,
    pub reason: Option<String>,
}

/// A skill as it is listed.
pub struct StatusView {
    pub name: Seq<char>,
    pub description: Seq<char>,
    pub enabled: bool,
    pub source: Seq<char>,
    pub version: Option<Seq<char>>,
    pub platforms: Seq<Seq<char>>,
    pub reason: Option<Seq<char>>,
}

impl View for SkillStatus {
    type V = StatusView;

    open spec fn view(&self) -> StatusView {
        StatusView {
            name: self.name@,
            description: self.description@,
            enabled: self.enabled,
            source: self.source@,
            version: text::opt_text(self.version),
            platforms: text::texts(self.platforms@),
            reason: text::opt_text(self.reason),
        }
    }
}

/// How a skill that was found is listed: it is enabled where it can be used.
pub open spec fn listed(skill: DiscoveredSkill) -> StatusView {
    StatusView {
        name: skill.meta.name@,
        description: skill.meta.description@,
        enabled: skill.available,
        source: skill.meta.source@,
        version: text::opt_text(skill.meta.version),
        platforms: text::texts(skill.meta.platforms@),
        reason: text::opt_text(skill.reason),
    }
}

/// How the skills that were found are listed, in the order in which they were found.
pub open spec fn listing(skills: Seq<DiscoveredSkill>) -> Seq<StatusView> {
    skills.map_values(|s: DiscoveredSkill| listed(s))
}

/// What a list of skills stands for.
pub open spec fn status_views(list: Seq<SkillStatus>) -> Seq<StatusView> {
    list.map_values(|s: SkillStatus| s@)
}

/// Lists the skills that were found.
pub fn list_skills(skills: Vec<DiscoveredSkill>) -> (list: Vec<SkillStatus>)
    ensures
        status_views(list@) == listing(skills@),
{
    let ghost all = listing(skills@);
    let mut list: Vec<SkillStatus> = Vec::new();
    for skill in it: skills
        invariant
            it.seq() == skills@,
            all == listing(skills@),
            status_views(list@) == all.take(it.index() as int),
    {
        let ghost before = status_views(list@);
        let ghost entry = listed(skill);
        proof {
            assert(all[it.index() as int] == entry);
        }
        list.push(
            SkillStatus {
                name: skill.meta.name,
                description: skill.meta.description,
                enabled: skill.available,
                source: skill.meta.source,
                version: skill.meta.version,
                platforms: skill.meta.platforms,
                reason: skill.reason,
            },
        );
        proof {
            assert(status_views(list@) =~= before.push(entry));
            assert(all.take(it.index() + 1) =~= all.take(it.index() as int).push(entry));
        }
    }
    proof {
        assert(all.take(all.len() as int) =~= all);
    }
    list
}

// ---------------------------------------------------------------------------
// Requests
// ---------------------------------------------------------------------------

/// Why a request failed: an HTTP status, and what is said.
#[derive(Debug)]
pub struct ApiError {
    pub status: u16,
    pub message: String,
}

/// Why a request failed.
pub struct ErrorView {
    pub status: u16,
    pub message: Seq<char>,
}

impl View for ApiError {
    type V = ErrorView;

    open spec fn view(&self) -> ErrorView {
        ErrorView { status: self.status, message: self.message@ }
    }
}

/// The answer to a request that succeeded.
#[derive(Debug)]
pub enum SkillReply {
    Skills(Vec<SkillStatus>),
    Message(String),
}

/// The answer to a request that succeeded.
pub enum ReplyView {
    Skills(Seq<StatusView>),
    Message(Seq<char>),
}

impl View for SkillReply {
    type V = ReplyView;

    open spec fn view(&self) -> ReplyView {
        match *self {
            SkillReply::Skills(list) => ReplyView::Skills(status_views(list@)),
            SkillReply::Message(message) => ReplyView::Message(message@),
        }
    }
}

/// What an answer stands for.
pub open spec fn answer_view(answer: Result<SkillReply, ApiError>) -> Result<ReplyView, ErrorView> {
    match answer {
        Ok(reply) => Ok(reply@),
        Err(e) => Err(e@),
    }
}

/// What is asked for.
pub enum SkillRequest {
    List,
    /// Switch the skill by this name on or off.
    Switch { name: String, enabled: bool },
}

/// What is asked for.
pub enum RequestView {
    List,
    Switch { name: Seq<char>, enabled: bool },
}

impl View for SkillRequest {
    type V = RequestView;

    open spec fn view(&self) -> RequestView {
        match *self {
            SkillRequest::List => RequestView::List,
            SkillRequest::Switch { name, enabled } => RequestView::Switch { name: name@, enabled },
        }
    }
}

/// A request on its way to its answer.
pub enum SkillCall {
    /// Its scope is checked.
    Authorizing(SkillRequest),
    /// The skills are looked for.
    Discovering,
    /// Is there a skill by this name?
    Finding { name: String, enabled: bool },
    /// The skill is switched.
    Switching { name: String, enabled: bool },
    /// It is answered.
    Done(Result<SkillReply, ApiError>),
}

/// A request on its way to its answer.
pub enum SkillCallView {
    Authorizing(RequestView),
    Discovering,
    Finding { name: Seq<char>, enabled: bool },
    Switching { name: Seq<char>, enabled: bool },
    Done(Result<ReplyView, ErrorView>),
}

impl View for SkillCall {
    type V = SkillCallView;

    open spec fn view(&self) -> SkillCallView {
        match *self {
            SkillCall::Authorizing(request) => SkillCallView::Authorizing(request@),
            SkillCall::Discovering => SkillCallView::Discovering,
            SkillCall::Finding { name, enabled } => SkillCallView::Finding { name: name@, enabled },
            SkillCall::Switching { name, enabled } => SkillCallView::Switching {
                name: name@,
                enabled,
            },
            SkillCall::Done(answer) => SkillCallView::Done(answer_view(answer)),
        }
    }
}

/// What a request needs next.
pub enum SkillAction {
    /// Check that whoever asks is entitled to this.
    RequireScope(AuthScope),
    /// Look for all skills, those that cannot be used among them.
    Discover,
    /// Is there a skill by this name?
    Find(String),
    /// Switch a skill.
    SetEnabled { name: String, enabled: bool },
    /// Nothing: it is answered.
    Answered,
}

/// What a request needs next.
pub enum SkillActionView {
    RequireScope(AuthScope),
    Discover,
    Find(Seq<char>),
    SetEnabled { name: Seq<char>, enabled: bool },
    Answered,
}

impl View for SkillAction {
    type V = SkillActionView;

    open spec fn view(&self) -> SkillActionView {
        match *self {
            SkillAction::RequireScope(scope) => SkillActionView::RequireScope(scope),
            SkillAction::Discover => SkillActionView::Discover,
            SkillAction::Find(name) => SkillActionView::Find(name@),
            SkillAction::SetEnabled { name, enabled } => SkillActionView::SetEnabled {
                name: name@,
                enabled,
            },
            SkillAction::Answered => SkillActionView::Answered,
        }
    }
}

/// What came of it.
pub enum SkillEvent {
    /// The scope was granted, or refused with this answer.
    Scope(Result<(), ApiError>),
    Discovered(Vec<DiscoveredSkill>),
    Found(bool),
    /// The skill was switched, or not for this reason.
    Switched(Result<(), String>),
}

/// What a skill that was switched is answered.
pub open spec fn switched_message(enabled: bool) -> Seq<char> {
    if enabled {
        "Skill enabled"@
    } else {
        "Skill disabled"@
    }
}

impl SkillCallView {
    /// What the request needs next. Listing takes the right to read, switching the right to
    /// write.
    pub open spec fn action(self) -> SkillActionView {
        match self {
            SkillCallView::Authorizing(RequestView::List) => SkillActionView::RequireScope(
                AuthScope::Read,
            ),
            SkillCallView::Authorizing(RequestView::Switch { name, enabled }) =>
                SkillActionView::RequireScope(AuthScope::Write),
            SkillCallView::Discovering => SkillActionView::Discover,
            SkillCallView::Finding { name, enabled } => SkillActionView::Find(name),
            SkillCallView::Switching { name, enabled } => SkillActionView::SetEnabled {
                name,
                enabled,
            },
            SkillCallView::Done(_) => SkillActionView::Answered,
        }
    }

    /// How far the request has come after an event. An event that nothing waits for changes
    /// nothing.
    pub open spec fn after(self, event: SkillEvent) -> SkillCallView {
        match (self, event) {
            (SkillCallView::Authorizing(request), SkillEvent::Scope(granted)) => match granted {
                Ok(_) => match request {
                    RequestView::List => SkillCallView::Discovering,
                    RequestView::Switch { name, enabled } => SkillCallView::Finding {
                        name,
                        enabled,
                    },
                },
                Err(e) => SkillCallView::Done(Err(e@)),
            },
            (SkillCallView::Discovering, SkillEvent::Discovered(skills)) => SkillCallView::Done(
                Ok(ReplyView::Skills(listing(skills@))),
            ),
            (SkillCallView::Finding { name, enabled }, SkillEvent::Found(found)) => if found {
                SkillCallView::Switching { name, enabled }
            } else {
                SkillCallView::Done(Err(ErrorView { status: 404, message: "Skill not found"@ }))
            },
            (SkillCallView::Switching { name, enabled }, SkillEvent::Switched(result)) =>
                match result {
                    Ok(_) => SkillCallView::Done(Ok(ReplyView::Message(switched_message(enabled)))),
                    Err(e) => SkillCallView::Done(Err(ErrorView { status: 500, message: e@ })),
                },
            _ => self,
        }
    }

    /// How far the request has come after several events.
    pub open spec fn after_all(self, events: Seq<SkillEvent>) -> SkillCallView
        decreases events.len(),
    {
        if events.len() == 0 {
            self
        } else {
            self.after_all(events.drop_last()).after(events.last())
        }
    }

    /// The event answers what the request needs next.
    pub open spec fn awaits(self, event: SkillEvent) -> bool {
        match self {
            SkillCallView::Authorizing(_) => event is Scope,
            SkillCallView::Discovering => event is Discovered,
            SkillCallView::Finding { name, enabled } => event is Found,
            SkillCallView::Switching { name, enabled } => event is Switched,
            SkillCallView::Done(_) => false,
        }
    }

    /// How many answers are missing at most.
    pub open spec fn steps_left(self) -> nat {
        match self {
            SkillCallView::Authorizing(_) => 3,
            SkillCallView::Discovering => 1,
            SkillCallView::Finding { name, enabled } => 2,
            SkillCallView::Switching { name, enabled } => 1,
            SkillCallView::Done(_) => 0,
        }
    }
}

/// A request for the list of skills.
pub fn api_list_skills() -> (call: SkillCall)
    ensures
        call@ == SkillCallView::Authorizing(RequestView::List),
{
    SkillCall::Authorizing(SkillRequest::List)
}

/// A request to switch a skill on.
pub fn api_enable_skill(name: String) -> (call: SkillCall)
    ensures
        call@ == SkillCallView::Authorizing(RequestView::Switch { name: name@, enabled: true }),
{
    SkillCall::Authorizing(SkillRequest::Switch { name, enabled: true })
}

/// A request to switch a skill off.
pub fn api_disable_skill(name: String) -> (call: SkillCall)
    ensures
        call@ == SkillCallView::Authorizing(RequestView::Switch { name: name@, enabled: false }),
{
    SkillCall::Authorizing(SkillRequest::Switch { name, enabled: false })
}

impl SkillCall {
    /// Says what the request needs next.
    pub fn action(&self) -> (action: SkillAction)
        ensures
            action@ == self@.action(),
    {
        match self {
            SkillCall::Authorizing(request) => match request {
                SkillRequest::List => SkillAction::RequireScope(AuthScope::Read),
                SkillRequest::Switch { name, enabled } => SkillAction::RequireScope(
                    AuthScope::Write,
                ),
            },
            SkillCall::Discovering => SkillAction::Discover,
            SkillCall::Finding { name, enabled } => SkillAction::Find(name.clone()),
            SkillCall::Switching { name, enabled } => SkillAction::SetEnabled {
                name: name.clone(),
                enabled: *enabled,
            },
            SkillCall::Done(_) => SkillAction::Answered,
        }
    }

    /// Takes in what came of it.
    pub fn advance(self, event: SkillEvent) -> (next: Self)
        ensures
            next@ == self@.after(event),
    {
        match (self, event) {
            (SkillCall::Authorizing(request), SkillEvent::Scope(granted)) => match granted {
                Ok(_) => match request {
                    SkillRequest::List => SkillCall::Discovering,
                    SkillRequest::Switch { name, enabled } => SkillCall::Finding { name, enabled },
                },
                Err(e) => SkillCall::Done(Err(e)),
            },
            (SkillCall::Discovering, SkillEvent::Discovered(skills)) => SkillCall::Done(
                Ok(SkillReply::Skills(list_skills(skills))),
            ),
            (SkillCall::Finding { name, enabled }, SkillEvent::Found(found)) => if found {
                SkillCall::Switching { name, enabled }
            } else {
                SkillCall::Done(
                    Err(ApiError { status: 404, message: "Skill not found".to_string() }),
                )
            },
            (SkillCall::Switching { name, enabled }, SkillEvent::Switched(result)) => match result {
                Ok(_) => {
                    let message = if enabled {
                        "Skill enabled"
                    } else {
                        "Skill disabled"
                    };
                    SkillCall::Done(Ok(SkillReply::Message(message.to_string())))
                },
                Err(e) => SkillCall::Done(Err(ApiError { status: 500, message: e })),
            },
            (call, _) => call,
        }
    }

    /// The answer, once there is one.
    pub fn answer(self) -> (answer: Option<Result<SkillReply, ApiError>>)
        ensures
            match answer {
                Some(answer) => self@ == SkillCallView::Done(answer_view(answer)),
                None => !(self@ is Done),
            },
    {
        match self {
            SkillCall::Done(answer) => Some(answer),
            _ => None,
        }
    }
}

// ---------------------------------------------------------------------------
// Laws
// ---------------------------------------------------------------------------

/// A request for the list never switches a skill, whatever happens.
pub proof fn law_listing_switches_nothing(events: Seq<SkillEvent>)
    ensures
        !(SkillCallView::Authorizing(RequestView::List).after_all(
            events,
        ).action() is SetEnabled),
{
    lemma_list_stays_a_list(events);
}

proof fn lemma_list_stays_a_list(events: Seq<SkillEvent>)
    ensures
        ({
            let call = SkillCallView::Authorizing(RequestView::List).after_all(events);
            call == SkillCallView::Authorizing(RequestView::List) || call is Discovering
                || call is Done
        }),
    decreases events.len(),
{
    if events.len() > 0 {
        lemma_list_stays_a_list(events.drop_last());
    }
}

/// The events grant the scope, and after that find the skill.
pub open spec fn cleared(events: Seq<SkillEvent>) -> bool {
    exists|i: int, j: int|
        0 <= i < j < events.len() && (#[trigger] events[i] matches SkillEvent::Scope(granted)
            && granted is Ok) && (#[trigger] events[j] matches SkillEvent::Found(found) && found)
}

/// A skill is switched only after the right to write was granted and the skill was found; and
/// it is the one that was asked for, to what was asked for.
pub proof fn law_switching_takes_scope_and_skill(
    name: Seq<char>,
    enabled: bool,
    events: Seq<SkillEvent>,
)
    ensures
        SkillCallView::Authorizing(RequestView::Switch { name, enabled }).after_all(
            events,
        ).action() matches SkillActionView::SetEnabled { name: n, enabled: e } ==> n == name && e
            == enabled && cleared(events),
{
    lemma_switch_so_far(name, enabled, events);
}

/// The events grant the scope.
pub open spec fn granted_in(events: Seq<SkillEvent>) -> bool {
    exists|i: int|
        0 <= i < events.len() && (#[trigger] events[i] matches SkillEvent::Scope(granted)
            && granted is Ok)
}

proof fn lemma_switch_so_far(name: Seq<char>, enabled: bool, events: Seq<SkillEvent>)
    ensures
        match SkillCallView::Authorizing(RequestView::Switch { name, enabled }).after_all(events) {
            SkillCallView::Authorizing(request) => request == (RequestView::Switch {
                name,
                enabled,
            }),
            SkillCallView::Discovering => false,
            SkillCallView::Finding { name: n, enabled: e } => n == name && e == enabled
                && granted_in(events),
            SkillCallView::Switching { name: n, enabled: e } => n == name && e == enabled
                && cleared(events),
            SkillCallView::Done(_) => true,
        },
    decreases events.len(),
{
    if events.len() > 0 {
        let start = SkillCallView::Authorizing(RequestView::Switch { name, enabled });
        let before = events.drop_last();
        lemma_switch_so_far(name, enabled, before);
        let last = events.len() - 1;
        if granted_in(before) {
            let i = choose|i: int|
                0 <= i < before.len() && (#[trigger] before[i] matches SkillEvent::Scope(granted)
                    && granted is Ok);
            assert(events[i] == before[i]);
            assert(granted_in(events));
            if events.last() matches SkillEvent::Found(found) && found {
                assert(events[last] == events.last());
                assert(cleared(events));
            }
        }
        if events.last() matches SkillEvent::Scope(granted) && granted is Ok {
            assert(events[last] == events.last());
            assert(granted_in(events));
        }
        if cleared(before) {
            let (i, j) = choose|i: int, j: int|
                0 <= i < j < before.len() && (#[trigger] before[i] matches SkillEvent::Scope(
                    granted,
                ) && granted is Ok) && (#[trigger] before[j] matches SkillEvent::Found(found)
                    && found);
            assert(events[i] == before[i] && events[j] == before[j]);
            assert(cleared(events));
        }
    }
}

/// A request whose scope is refused is answered with the refusal, and nothing is looked up or
/// switched for it.
pub proof fn law_refused_requests_do_nothing(
    request: RequestView,
    e: ApiError,
    events: Seq<SkillEvent>,
)
    ensures
        SkillCallView::Authorizing(request).after(
            SkillEvent::Scope(Err(e)),
        ).after_all(events) == SkillCallView::Done(Err(e@)),
    decreases events.len(),
{
    if events.len() > 0 {
        law_refused_requests_do_nothing(request, e, events.drop_last());
    }
}

/// A skill that does not exist is answered with 404 and not switched.
pub proof fn law_unknown_skills_are_not_switched(
    name: Seq<char>,
    enabled: bool,
    events: Seq<SkillEvent>,
)
    ensures
        (SkillCallView::Finding { name, enabled }).after(
            SkillEvent::Found(false),
        ).after_all(events) == SkillCallView::Done(
            Err(ErrorView { status: 404, message: "Skill not found"@ }),
        ),
    decreases events.len(),
{
    if events.len() > 0 {
        law_unknown_skills_are_not_switched(name, enabled, events.drop_last());
    }
}

/// Every answer that is waited for brings a request nearer to its end, and anything else leaves
/// it as it is.
pub proof fn law_every_request_ends(call: SkillCallView, event: SkillEvent)
    ensures
        call.awaits(event) ==> call.after(event).steps_left() < call.steps_left(),
        !call.awaits(event) ==> call.after(event) == call,
        call.steps_left() == 0 <==> call is Done,
{
}

/// Every skill that was found is listed, in its place and with all that it says of itself, and
/// is enabled exactly where it can be used.
pub proof fn law_every_skill_is_listed(skills: Seq<DiscoveredSkill>, i: int)
    requires
        0 <= i < skills.len(),
    ensures
        listing(skills).len() == skills.len(),
        ({
            let skill = skills[i];
            let seen = listing(skills)[i];
            &&& seen.name == skill.meta.name@
            &&& seen.description == skill.meta.description@
            &&& seen.source == skill.meta.source@
            &&& seen.enabled == skill.available
            &&& seen.platforms.len() == skill.meta.platforms@.len()
            &&& forall|k: int|
                0 <= k < skill.meta.platforms@.len() ==> seen.platforms[k]
                    == #[trigger] skill.meta.platforms@[k]@
            &&& skill.meta.version is Some ==> seen.version == Some(skill.meta.version->Some_0@)
            &&& skill.meta.version is None ==> seen.version is None
            &&& skill.reason is Some ==> seen.reason == Some(skill.reason->Some_0@)
            &&& skill.reason is None ==> seen.reason is None
        }),
{
}

/// A request for the list takes the right to read and ends with all the skills that were found.
pub proof fn law_lists_are_answered(skills: Vec<DiscoveredSkill>)
    ensures
        ({
            let asked = SkillCallView::Authorizing(RequestView::List);
            let granted = asked.after(SkillEvent::Scope(Ok(())));
            let done = granted.after(SkillEvent::Discovered(skills));
            &&& asked.action() == SkillActionView::RequireScope(AuthScope::Read)
            &&& granted.action() == SkillActionView::Discover
            &&& done == SkillCallView::Done(Ok(ReplyView::Skills(listing(skills@))))
            &&& done.action() == SkillActionView::Answered
        }),
{
}

/// A request to switch a skill takes the right to write, asks for that skill, switches it to what
/// was asked, and ends with what was done; or with the reason why it could not be switched.
pub proof fn law_switches_are_answered(name: Seq<char>, enabled: bool, cause: String)
    ensures
        ({
            let asked = SkillCallView::Authorizing(RequestView::Switch { name, enabled });
            let granted = asked.after(SkillEvent::Scope(Ok(())));
            let found = granted.after(SkillEvent::Found(true));
            let missing = granted.after(SkillEvent::Found(false));
            let done = found.after(SkillEvent::Switched(Ok(())));
            let failed = found.after(SkillEvent::Switched(Err(cause)));
            &&& asked.action() == SkillActionView::RequireScope(AuthScope::Write)
            &&& granted.action() == SkillActionView::Find(name)
            &&& found.action() == (SkillActionView::SetEnabled { name, enabled })
            &&& enabled ==> done == SkillCallView::Done(Ok(ReplyView::Message("Skill enabled"@)))
            &&& !enabled ==> done == SkillCallView::Done(Ok(ReplyView::Message("Skill disabled"@)))
            &&& missing == SkillCallView::Done(
                Err(ErrorView { status: 404, message: "Skill not found"@ }),
            )
            &&& failed == SkillCallView::Done(Err(ErrorView { status: 500, message: cause@ }))
        }),
{
}

/// A listed skill and an answer stand for their fields.
pub proof fn law_answers_stand_for_their_fields(
    status: SkillStatus,
    list: Vec<SkillStatus>,
    message: String,
    error: ApiError,
    i: int,
)
    ensures
        status@.name == status.name@,
        status@.description == status.description@,
        status@.enabled == status.enabled,
        status@.source == status.source@,
        answer_view(Ok(SkillReply::Message(message))) == Ok::<ReplyView, ErrorView>(
            ReplyView::Message(message@),
        ),
        answer_view(Err(error)) == Err::<ReplyView, ErrorView>(
            ErrorView { status: error.status, message: error.message@ },
        ),
        answer_view(Ok(SkillReply::Skills(list))) == Ok::<ReplyView, ErrorView>(
            ReplyView::Skills(status_views(list@)),
        ),
        status_views(list@).len() == list@.len(),
        0 <= i < list@.len() ==> status_views(list@)[i] == list@[i]@,
{
}

/// A request stands for what was asked, and what it needs stands for itself.
pub proof fn law_a_request_stands_for_what_was_asked(name: String, enabled: bool, scope: AuthScope)
    ensures
        SkillCall::Authorizing(SkillRequest::List)@ == SkillCallView::Authorizing(
            RequestView::List,
        ),
        SkillCall::Authorizing(SkillRequest::Switch { name, enabled })@
            == SkillCallView::Authorizing(RequestView::Switch { name: name@, enabled }),
        SkillCall::Discovering@ == SkillCallView::Discovering,
        (SkillCall::Finding { name, enabled })@ == (SkillCallView::Finding {
            name: name@,
            enabled,
        }),
        (SkillCall::Switching { name, enabled })@ == (SkillCallView::Switching {
            name: name@,
            enabled,
        }),
        SkillAction::RequireScope(scope)@ == SkillActionView::RequireScope(scope),
        SkillAction::Discover@ == SkillActionView::Discover,
        SkillAction::Find(name)@ == SkillActionView::Find(name@),
        (SkillAction::SetEnabled { name, enabled })@ == (SkillActionView::SetEnabled {
            name: name@,
            enabled,
        }),
        SkillAction::Answered@ == SkillActionView::Answered,
{
}

} // verus!
