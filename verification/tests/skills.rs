use microclaw::skills::{
    api_disable_skill, api_enable_skill, api_list_skills, ApiError, AuthScope, DiscoveredSkill,
    SkillAction, SkillCall, SkillEvent, SkillMeta, SkillReply,
};

fn found(name: &str, available: bool) -> DiscoveredSkill {
    DiscoveredSkill {
        meta: SkillMeta {
            name: name.to_string(),
            description: format!("does {name}"),
            source: "local".to_string(),
            version: Some("1.2".to_string()),
            platforms: vec!["linux".to_string()],
        },
        available,
        reason: if available { None } else { Some("missing tool".to_string()) },
    }
}

fn denied() -> SkillEvent {
    SkillEvent::Scope(Err(ApiError { status: 403, message: "forbidden".to_string() }))
}

fn error(call: SkillCall) -> (u16, String) {
    match call.answer() {
        Some(Err(e)) => (e.status, e.message),
        _ => panic!("the request failed"),
    }
}

fn message(call: SkillCall) -> String {
    match call.answer() {
        Some(Ok(SkillReply::Message(message))) => message,
        _ => panic!("the request succeeded"),
    }
}

#[test]
fn skills_are_listed_as_they_were_found() {
    let call = api_list_skills();
    assert!(matches!(call.action(), SkillAction::RequireScope(AuthScope::Read)));
    let call = call.advance(SkillEvent::Scope(Ok(())));
    assert!(matches!(call.action(), SkillAction::Discover));
    let call = call.advance(SkillEvent::Discovered(vec![found("b", true), found("a", false)]));
    assert!(matches!(call.action(), SkillAction::Answered));
    let Some(Ok(SkillReply::Skills(list))) = call.answer() else {
        panic!("the skills are listed");
    };
    assert_eq!(list.len(), 2);
    assert_eq!(list[0].name, "b");
    assert_eq!(list[0].description, "does b");
    assert!(list[0].enabled);
    assert_eq!(list[0].source, "local");
    assert_eq!(list[0].version.as_deref(), Some("1.2"));
    assert_eq!(list[0].platforms, vec!["linux"]);
    assert_eq!(list[0].reason, None);
    assert_eq!(list[1].name, "a");
    assert!(!list[1].enabled);
    assert_eq!(list[1].reason.as_deref(), Some("missing tool"));
}

#[test]
fn skills_are_switched_on_and_off() {
    for (call, on, said) in [
        (api_enable_skill("x".to_string()), true, "Skill enabled"),
        (api_disable_skill("x".to_string()), false, "Skill disabled"),
    ] {
        assert!(matches!(call.action(), SkillAction::RequireScope(AuthScope::Write)));
        let call = call.advance(SkillEvent::Scope(Ok(())));
        assert!(matches!(call.action(), SkillAction::Find(name) if name == "x"));
        let call = call.advance(SkillEvent::Found(true));
        assert!(matches!(
            call.action(),
            SkillAction::SetEnabled { name, enabled } if name == "x" && enabled == on
        ));
        assert_eq!(message(call.advance(SkillEvent::Switched(Ok(())))), said);
    }
}

#[test]
fn refused_requests_do_nothing() {
    for call in [
        api_list_skills(),
        api_enable_skill("x".to_string()),
        api_disable_skill("x".to_string()),
    ] {
        let call = call.advance(denied()).advance(SkillEvent::Scope(Ok(()))).advance(SkillEvent::Found(true));
        assert!(matches!(call.action(), SkillAction::Answered));
        assert_eq!(error(call), (403, "forbidden".to_string()));
    }
}

#[test]
fn unknown_skills_are_not_switched() {
    let call = api_enable_skill("x".to_string())
        .advance(SkillEvent::Scope(Ok(())))
        .advance(SkillEvent::Found(false))
        .advance(SkillEvent::Switched(Ok(())));
    assert_eq!(error(call), (404, "Skill not found".to_string()));
}

#[test]
fn a_switch_that_fails_says_why() {
    let call = api_disable_skill("x".to_string())
        .advance(SkillEvent::Scope(Ok(())))
        .advance(SkillEvent::Found(true))
        .advance(SkillEvent::Switched(Err("disk full".to_string())));
    assert_eq!(error(call), (500, "disk full".to_string()));
}

#[test]
fn events_that_nothing_waits_for_change_nothing() {
    let call = api_enable_skill("x".to_string())
        .advance(SkillEvent::Switched(Ok(())))
        .advance(SkillEvent::Found(true))
        .advance(SkillEvent::Discovered(Vec::new()));
    assert!(matches!(call.action(), SkillAction::RequireScope(AuthScope::Write)));
    assert!(call.answer().is_none());
}
