//! Routing of platform events to stored scripts.
use vstd::prelude::*;
use crate::auth::StoreError;
use crate::events::EventKind;
use crate::triggers::{first_matching_rule, is_first_hit, rule_match, rules_view};

verus! {

/// A platform event, reduced to the ids that routing reads.
#[derive(Debug, Clone, Copy, PartialEq, Eq, Structural)]
pub enum PlatformEvent {
    ChannelCreate { guild_id: u64, channel_id: u64 },
    ChannelDelete { guild_id: u64, channel_id: u64 },
    /// `guild_id` is `None` when the channel is not a guild channel.
    ChannelUpdate { guild_id: Option<u64>, channel_id: u64 },
    MemberJoin { guild_id: u64, user_id: u64 },
    MemberLeave { guild_id: u64, user_id: u64 },
    MemberUpdate { guild_id: u64, user_id: u64 },
    RoleCreate { guild_id: u64, role_id: u64 },
    RoleUpdate { guild_id: u64, role_id: u64 },
    RoleDelete { guild_id: u64, role_id: u64 },
    GuildUpdate { guild_id: u64 },
    VoiceUpdate { guild_id: Option<u64>, channel_id: Option<u64>, user_id: u64 },
    ReactionAdd { guild_id: Option<u64>, channel_id: u64, message_id: u64, user_id: Option<u64> },
    ReactionRemove { guild_id: Option<u64>, channel_id: u64, message_id: u64, user_id: Option<u64> },
}

/// What a script learns about the event that started it.
#[derive(Debug, Clone, Copy, PartialEq, Eq, Structural)]
pub enum EventPayload {
    ChannelCreate { channel_id: u64 },
    ChannelDelete { channel_id: u64 },
    ChannelUpdate { channel_id: u64 },
    MemberJoin { user_id: u64 },
    MemberLeave { user_id: u64 },
    MemberUpdate { user_id: u64 },
    RoleCreate { role_id: u64 },
    RoleUpdate { role_id: u64 },
    RoleDelete { role_id: u64 },
    GuildUpdate,
    VoiceUpdate { channel_id: u64, user_id: u64 },
    ReactionAdd { channel_id: u64, message_id: u64, user_id: u64 },
    ReactionRemove { channel_id: u64, message_id: u64, user_id: u64 },
}

/// Why an event is dropped without running a script.
#[derive(Debug, Clone, Copy, PartialEq, Eq, Structural)]
pub enum RouteError {
    /// The event lacks the guild or another id its payload needs.
    MissingContext,
    /// Looking up the stored script failed.
    Storage,
}

/// Where a non-message event is to be looked up, and what its script receives.
#[derive(Debug, Clone, Copy, PartialEq, Eq, Structural)]
pub struct Dispatch {
    pub guild_id: u64,
    pub kind: EventKind,
    pub payload: EventPayload,
}

/// A script to run for a non-message event.
pub struct EventInvocation {
    pub guild_id: u64,
    pub payload: EventPayload,
    pub script: String,
}

/// A message as routing reads it.
pub struct MessageEvent {
    pub guild_id: Option<u64>,
    pub channel_id: u64,
    pub message_id: u64,
    pub author_id: u64,
    pub content: String,
}

/// A script to run for a message, with the matched text and the rest of the message.
pub struct MessageInvocation {
    pub guild_id: u64,
    pub channel_id: u64,
    pub message_id: u64,
    pub user_id: u64,
    pub trigger: String,
    pub parameter: String,
    pub script: String,
}

impl PlatformEvent {
    /// The kind of the event.
    pub open spec fn spec_kind(self) -> EventKind {
        match self {
            PlatformEvent::ChannelCreate { .. } => EventKind::ChannelCreate,
            PlatformEvent::ChannelDelete { .. } => EventKind::ChannelDelete,
            PlatformEvent::ChannelUpdate { .. } => EventKind::ChannelUpdate,
            PlatformEvent::MemberJoin { .. } => EventKind::MemberJoin,
            PlatformEvent::MemberLeave { .. } => EventKind::MemberLeave,
            PlatformEvent::MemberUpdate { .. } => EventKind::MemberUpdate,
            PlatformEvent::RoleCreate { .. } => EventKind::RoleCreate,
            PlatformEvent::RoleUpdate { .. } => EventKind::RoleUpdate,
            PlatformEvent::RoleDelete { .. } => EventKind::RoleDelete,
            PlatformEvent::GuildUpdate { .. } => EventKind::GuildUpdate,
            PlatformEvent::VoiceUpdate { .. } => EventKind::VoiceUpdate,
            PlatformEvent::ReactionAdd { .. } => EventKind::ReactionAdd,
            PlatformEvent::ReactionRemove { .. } => EventKind::ReactionRemove,
        }
    }

    /// The guild the event belongs to, when it names one.
    pub open spec fn spec_guild(self) -> Option<u64> {
        match self {
            PlatformEvent::ChannelCreate { guild_id, .. } => Some(guild_id),
            PlatformEvent::ChannelDelete { guild_id, .. } => Some(guild_id),
            PlatformEvent::ChannelUpdate { guild_id, .. } => guild_id,
            PlatformEvent::MemberJoin { guild_id, .. } => Some(guild_id),
            PlatformEvent::MemberLeave { guild_id, .. } => Some(guild_id),
            PlatformEvent::MemberUpdate { guild_id, .. } => Some(guild_id),
            PlatformEvent::RoleCreate { guild_id, .. } => Some(guild_id),
            PlatformEvent::RoleUpdate { guild_id, .. } => Some(guild_id),
            PlatformEvent::RoleDelete { guild_id, .. } => Some(guild_id),
            PlatformEvent::GuildUpdate { guild_id } => Some(guild_id),
            PlatformEvent::VoiceUpdate { guild_id, .. } => guild_id,
            PlatformEvent::ReactionAdd { guild_id, .. } => guild_id,
            PlatformEvent::ReactionRemove { guild_id, .. } => guild_id,
        }
    }

    /// The payload handed to the script, when the event carries every id it needs.
    pub open spec fn spec_payload(self) -> Option<EventPayload> {
        match self {
            PlatformEvent::ChannelCreate { channel_id, .. } => Some(
                EventPayload::ChannelCreate { channel_id },
            ),
            PlatformEvent::ChannelDelete { channel_id, .. } => Some(
                EventPayload::ChannelDelete { channel_id },
            ),
            PlatformEvent::ChannelUpdate { channel_id, .. } => Some(
                EventPayload::ChannelUpdate { channel_id },
            ),
            PlatformEvent::MemberJoin { user_id, .. } => Some(EventPayload::MemberJoin { user_id }),
            PlatformEvent::MemberLeave { user_id, .. } => Some(EventPayload::MemberLeave { user_id }),
            PlatformEvent::MemberUpdate { user_id, .. } => Some(
                EventPayload::MemberUpdate { user_id },
            ),
            PlatformEvent::RoleCreate { role_id, .. } => Some(EventPayload::RoleCreate { role_id }),
            PlatformEvent::RoleUpdate { role_id, .. } => Some(EventPayload::RoleUpdate { role_id }),
            PlatformEvent::RoleDelete { role_id, .. } => Some(EventPayload::RoleDelete { role_id }),
            PlatformEvent::GuildUpdate { .. } => Some(EventPayload::GuildUpdate),
            PlatformEvent::VoiceUpdate { channel_id, user_id, .. } => match channel_id {
                Some(c) => Some(EventPayload::VoiceUpdate { channel_id: c, user_id }),
                None => None,
            },
            PlatformEvent::ReactionAdd { channel_id, message_id, user_id, .. } => match user_id {
                Some(u) => Some(EventPayload::ReactionAdd { channel_id, message_id, user_id: u }),
                None => None,
            },
            PlatformEvent::ReactionRemove { channel_id, message_id, user_id, .. } => match user_id {
                Some(u) => Some(EventPayload::ReactionRemove { channel_id, message_id, user_id: u }),
                None => None,
            },
        }
    }
}

/// Routes platform events to the scripts stored for them.
pub struct Handler;

impl Handler {
    /// Resolves the guild, the kind to look up and the payload of an event;
    /// `MissingContext` when the guild or an id the payload needs is absent.
    pub fn route_event(&self, event: &PlatformEvent) -> (r: Result<Dispatch, RouteError>)
        ensures
            match r {
                Ok(d) => {
                    &&& event.spec_guild() == Some(d.guild_id)
                    &&& event.spec_payload() == Some(d.payload)
                    &&& d.kind == event.spec_kind()
                },
                Err(e) => e == RouteError::MissingContext && (event.spec_guild() is None
                    || event.spec_payload() is None),
            },
    {
        let (guild, kind, payload) = match *event {
            PlatformEvent::ChannelCreate { guild_id, channel_id } => (
                Some(guild_id),
                EventKind::ChannelCreate,
                Some(EventPayload::ChannelCreate { channel_id }),
            ),
            PlatformEvent::ChannelDelete { guild_id, channel_id } => (
                Some(guild_id),
                EventKind::ChannelDelete,
                Some(EventPayload::ChannelDelete { channel_id }),
            ),
            PlatformEvent::ChannelUpdate { guild_id, channel_id } => (
                guild_id,
                EventKind::ChannelUpdate,
                Some(EventPayload::ChannelUpdate { channel_id }),
            ),
            PlatformEvent::MemberJoin { guild_id, user_id } => (
                Some(guild_id),
                EventKind::MemberJoin,
                Some(EventPayload::MemberJoin { user_id }),
            ),
            PlatformEvent::MemberLeave { guild_id, user_id } => (
                Some(guild_id),
                EventKind::MemberLeave,
                Some(EventPayload::MemberLeave { user_id }),
            ),
            PlatformEvent::MemberUpdate { guild_id, user_id } => (
                Some(guild_id),
                EventKind::MemberUpdate,
                Some(EventPayload::MemberUpdate { user_id }),
            ),
            PlatformEvent::RoleCreate { guild_id, role_id } => (
                Some(guild_id),
                EventKind::RoleCreate,
                Some(EventPayload::RoleCreate { role_id }),
            ),
            PlatformEvent::RoleUpdate { guild_id, role_id } => (
                Some(guild_id),
                EventKind::RoleUpdate,
                Some(EventPayload::RoleUpdate { role_id }),
            ),
            PlatformEvent::RoleDelete { guild_id, role_id } => (
                Some(guild_id),
                EventKind::RoleDelete,
                Some(EventPayload::RoleDelete { role_id }),
            ),
            PlatformEvent::GuildUpdate { guild_id } => (
                Some(guild_id),
                EventKind::GuildUpdate,
                Some(EventPayload::GuildUpdate),
            ),
            PlatformEvent::VoiceUpdate { guild_id, channel_id, user_id } => (
                guild_id,
                EventKind::VoiceUpdate,
                match channel_id {
                    Some(c) => Some(EventPayload::VoiceUpdate { channel_id: c, user_id }),
                    None => None,
                },
            ),
            PlatformEvent::ReactionAdd { guild_id, channel_id, message_id, user_id } => (
                guild_id,
                EventKind::ReactionAdd,
                match user_id {
                    Some(u) => Some(
                        EventPayload::ReactionAdd { channel_id, message_id, user_id: u },
                    ),
                    None => None,
                },
            ),
            PlatformEvent::ReactionRemove { guild_id, channel_id, message_id, user_id } => (
                guild_id,
                EventKind::ReactionRemove,
                match user_id {
                    Some(u) => Some(
                        EventPayload::ReactionRemove { channel_id, message_id, user_id: u },
                    ),
                    None => None,
                },
            ),
        };
        match (guild, payload) {
            (Some(guild_id), Some(payload)) => Ok(Dispatch { guild_id, kind, payload }),
            _ => Err(RouteError::MissingContext),
        }
    }

    /// Decides on an event once its stored script has been looked up: run it,
    /// do nothing when none is stored, or drop the event when the lookup failed.
    pub fn after_lookup(&self, dispatch: Dispatch, lookup: Result<Option<String>, StoreError>) -> (r:
        Result<Option<EventInvocation>, RouteError>)
        ensures
            match lookup {
                Ok(Some(s)) => r matches Ok(Some(inv)) && inv.guild_id == dispatch.guild_id
                    && inv.payload == dispatch.payload && inv.script@ == s@,
                Ok(None) => r matches Ok(None),
                Err(_) => r == Err::<Option<EventInvocation>, RouteError>(RouteError::Storage),
            },
    {
        match lookup {
            Ok(Some(script)) => Ok(
                Some(EventInvocation { guild_id: dispatch.guild_id, payload: dispatch.payload, script }),
            ),
            Ok(None) => Ok(None),
            Err(_) => Err(RouteError::Storage),
        }
    }

    /// Decides on a message given the guild's rules in storage order: the
    /// first rule whose pattern matches runs, with the matched text and the
    /// rest of the message; later rules are never evaluated.
    pub fn route_message(
        &self,
        message: &MessageEvent,
        rules: &Result<Vec<(String, String)>, StoreError>,
    ) -> (r: Result<Option<MessageInvocation>, RouteError>)
        ensures
            message.guild_id is None ==> r == Err::<Option<MessageInvocation>, RouteError>(
                RouteError::MissingContext,
            ),
            message.guild_id is Some && rules is Err ==> r == Err::<
                Option<MessageInvocation>,
                RouteError,
            >(RouteError::Storage),
            message.guild_id is Some && rules is Ok ==> match r {
                Ok(Some(inv)) => exists|i: int|
                    {
                        &&& is_first_hit(rules_view(rules->Ok_0@), message.content@, i)
                        &&& inv.script@ == rules_view(rules->Ok_0@)[i].1
                        &&& rule_match(rules_view(rules->Ok_0@)[i].0, message.content@)->0.matched
                            == inv.trigger@
                        &&& rule_match(rules_view(rules->Ok_0@)[i].0, message.content@)->0.rest
                            == inv.parameter@
                        &&& inv.guild_id == message.guild_id->0
                        &&& inv.channel_id == message.channel_id
                        &&& inv.message_id == message.message_id
                        &&& inv.user_id == message.author_id
                    },
                Ok(None) => forall|j: int|
                    0 <= j < rules->Ok_0@.len() ==> (#[trigger] rule_match(
                        rules_view(rules->Ok_0@)[j].0,
                        message.content@,
                    )) is None,
                Err(_) => false,
            },
    {
        let guild_id = match message.guild_id {
            Some(g) => g,
            None => {
                return Err(RouteError::MissingContext);
            },
        };
        let rules = match rules {
            Ok(rules) => rules,
            Err(_) => {
                return Err(RouteError::Storage);
            },
        };
        match first_matching_rule(rules, message.content.as_str()) {
            Some(hit) => {
                let inv = MessageInvocation {
                    guild_id,
                    channel_id: message.channel_id,
                    message_id: message.message_id,
                    user_id: message.author_id,
                    trigger: hit.result.matched,
                    parameter: hit.result.rest,
                    script: hit.script,
                };
                assert(is_first_hit(rules_view(rules@), message.content@, hit.index as int));
                Ok(Some(inv))
            },
            None => Ok(None),
        }
    }
}

} // verus!
