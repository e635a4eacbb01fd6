use guild_triggers::auth::StoreError;
use guild_triggers::events::{proper_event_name, EventKind};
use guild_triggers::router::{
    Dispatch, EventPayload, Handler, MessageEvent, PlatformEvent, RouteError,
};

fn rules(list: &[(&str, &str)]) -> Vec<(String, String)> {
    list.iter().map(|(p, s)| (p.to_string(), s.to_string())).collect()
}

fn message(guild_id: Option<u64>, content: &str) -> MessageEvent {
    MessageEvent { guild_id, channel_id: 10, message_id: 11, author_id: 12, content: content.to_string() }
}

#[test]
fn event_names_ignore_case() {
    assert_eq!(proper_event_name("memberjoin"), Some("MemberJoin"));
    assert_eq!(proper_event_name("MEMBERLEAVE"), Some("MemberLeave"));
    assert_eq!(proper_event_name("reactionRemove"), Some("ReactionRemove"));
    assert_eq!(proper_event_name("VoiceUpdate"), Some("VoiceUpdate"));
    assert_eq!(proper_event_name("guildupdate"), Some("GuildUpdate"));
}

#[test]
fn event_names_rejected() {
    assert_eq!(proper_event_name(""), None);
    assert_eq!(proper_event_name("member join"), None);
    assert_eq!(proper_event_name("MemberJoin "), None);
    assert_eq!(proper_event_name("message"), None);
}

#[test]
fn every_kind_round_trips_through_its_name() {
    let kinds = [
        EventKind::MemberJoin,
        EventKind::MemberLeave,
        EventKind::MemberUpdate,
        EventKind::RoleCreate,
        EventKind::RoleUpdate,
        EventKind::RoleDelete,
        EventKind::ChannelCreate,
        EventKind::ChannelDelete,
        EventKind::ChannelUpdate,
        EventKind::GuildUpdate,
        EventKind::VoiceUpdate,
        EventKind::ReactionAdd,
        EventKind::ReactionRemove,
    ];
    for k in kinds {
        assert_eq!(EventKind::from_name(k.name()), Some(k));
        assert_eq!(EventKind::from_name(&k.name().to_lowercase()), Some(k));
    }
}

#[test]
fn role_delete_carries_only_role_id() {
    let d = Handler.route_event(&PlatformEvent::RoleDelete { guild_id: 1, role_id: 2 });
    assert_eq!(
        d,
        Ok(Dispatch { guild_id: 1, kind: EventKind::RoleDelete, payload: EventPayload::RoleDelete { role_id: 2 } })
    );
}

#[test]
fn member_join_routes() {
    let d = Handler.route_event(&PlatformEvent::MemberJoin { guild_id: 5, user_id: 6 });
    assert_eq!(
        d,
        Ok(Dispatch { guild_id: 5, kind: EventKind::MemberJoin, payload: EventPayload::MemberJoin { user_id: 6 } })
    );
}

#[test]
fn voice_update_needs_guild_and_channel() {
    let h = Handler;
    assert_eq!(
        h.route_event(&PlatformEvent::VoiceUpdate { guild_id: None, channel_id: Some(3), user_id: 4 }),
        Err(RouteError::MissingContext)
    );
    assert_eq!(
        h.route_event(&PlatformEvent::VoiceUpdate { guild_id: Some(1), channel_id: None, user_id: 4 }),
        Err(RouteError::MissingContext)
    );
    assert_eq!(
        h.route_event(&PlatformEvent::VoiceUpdate { guild_id: Some(1), channel_id: Some(3), user_id: 4 }),
        Ok(Dispatch {
            guild_id: 1,
            kind: EventKind::VoiceUpdate,
            payload: EventPayload::VoiceUpdate { channel_id: 3, user_id: 4 }
        })
    );
}

#[test]
fn reaction_without_guild_or_user_is_dropped() {
    let h = Handler;
    let no_guild = PlatformEvent::ReactionAdd { guild_id: None, channel_id: 1, message_id: 2, user_id: Some(3) };
    let no_user = PlatformEvent::ReactionRemove { guild_id: Some(9), channel_id: 1, message_id: 2, user_id: None };
    assert_eq!(h.route_event(&no_guild), Err(RouteError::MissingContext));
    assert_eq!(h.route_event(&no_user), Err(RouteError::MissingContext));
    let ok = PlatformEvent::ReactionRemove { guild_id: Some(9), channel_id: 1, message_id: 2, user_id: Some(3) };
    assert_eq!(
        h.route_event(&ok),
        Ok(Dispatch {
            guild_id: 9,
            kind: EventKind::ReactionRemove,
            payload: EventPayload::ReactionRemove { channel_id: 1, message_id: 2, user_id: 3 }
        })
    );
}

#[test]
fn channel_update_outside_guild_is_dropped() {
    let h = Handler;
    assert_eq!(
        h.route_event(&PlatformEvent::ChannelUpdate { guild_id: None, channel_id: 1 }),
        Err(RouteError::MissingContext)
    );
    assert_eq!(
        h.route_event(&PlatformEvent::GuildUpdate { guild_id: 4 }),
        Ok(Dispatch { guild_id: 4, kind: EventKind::GuildUpdate, payload: EventPayload::GuildUpdate })
    );
}

#[test]
fn lookup_outcomes() {
    let h = Handler;
    let d = Dispatch { guild_id: 1, kind: EventKind::ChannelCreate, payload: EventPayload::ChannelCreate { channel_id: 2 } };
    let inv = h.after_lookup(d, Ok(Some("say hi".to_string()))).unwrap().unwrap();
    assert_eq!(inv.guild_id, 1);
    assert_eq!(inv.payload, EventPayload::ChannelCreate { channel_id: 2 });
    assert_eq!(inv.script, "say hi");
    assert!(matches!(h.after_lookup(d, Ok(None)), Ok(None)));
    let failed = h.after_lookup(d, Err(StoreError { detail: "down".to_string() }));
    assert!(matches!(failed, Err(RouteError::Storage)));
}

#[test]
fn only_first_matching_rule_runs() {
    let h = Handler;
    let stored = Ok(rules(&[("&hello", "first"), ("hello", "second"), ("?h.llo", "third")]));
    let mut calls: Vec<String> = Vec::new();
    for text in ["hello world", "oh hello", "nothing"] {
        if let Ok(Some(inv)) = h.route_message(&message(Some(1), text), &stored) {
            calls.push(inv.script);
        }
    }
    assert_eq!(calls, vec!["first".to_string(), "first".to_string()]);
}

#[test]
fn message_invocation_carries_match() {
    let h = Handler;
    let stored = Ok(rules(&[("!ping", "pong")]));
    let inv = h.route_message(&message(Some(1), "!ping me"), &stored).unwrap().unwrap();
    assert_eq!(inv.guild_id, 1);
    assert_eq!(inv.channel_id, 10);
    assert_eq!(inv.message_id, 11);
    assert_eq!(inv.user_id, 12);
    assert_eq!(inv.trigger, "!ping");
    assert_eq!(inv.parameter, " me");
    assert_eq!(inv.script, "pong");
}

#[test]
fn message_without_match_or_guild() {
    let h = Handler;
    let stored = Ok(rules(&[("!ping", "pong")]));
    assert!(matches!(h.route_message(&message(Some(1), "hello"), &stored), Ok(None)));
    assert!(matches!(h.route_message(&message(None, "!ping"), &stored), Err(RouteError::MissingContext)));
    let failed: Result<Vec<(String, String)>, StoreError> = Err(StoreError { detail: "x".to_string() });
    assert!(matches!(h.route_message(&message(Some(1), "!ping"), &failed), Err(RouteError::Storage)));
}
