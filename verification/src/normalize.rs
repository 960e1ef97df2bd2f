//! From the payloads of Slack to the common schema.

use crate::clock::{nameable, nearest_second, Timestamp};
use crate::event::{
    ActorView, ContextView, EntityView, EventView, NormalizedEvent, PayloadView, Severity,
    SlackActor, SlackContext, SlackEntity, SlackPayload, SourceTag,
};
use crate::json::{
    field, field_i64, field_str, has_member, has_text, lacks_member, lacks_text,
    law_numbers_are_read, opt_text, Json, JsonView,
};
use vstd::prelude::*;

verus! {

/// A text, or `default` where there is none.
pub open spec fn text_or(found: Option<Seq<char>>, default: Seq<char>) -> Seq<char> {
    match found {
        Some(s) => s,
        None => default,
    }
}

/// A number, or 0 where there is none.
pub open spec fn number_or_zero(found: Option<i64>) -> i64 {
    match found {
        Some(n) => n,
        None => 0,
    }
}

/// The string under `inner` in the member `outer`.
pub open spec fn nested_str(v: JsonView, outer: Seq<char>, inner: Seq<char>) -> Option<Seq<char>> {
    match field(v, outer) {
        Some(f) => field_str(f, inner),
        None => None,
    }
}

/// The string under the first of two keys that has one.
pub open spec fn either_str(v: JsonView, first: Seq<char>, second: Seq<char>) -> Option<Seq<char>> {
    match field_str(v, first) {
        Some(s) => Some(s),
        None => field_str(v, second),
    }
}

/// The text that was found, or `default`.
pub fn or_default(found: Option<String>, default: &str) -> (text: String)
    ensures
        text@ == text_or(opt_text(found), default@),
{
    match found {
        Some(s) => s,
        None => default.to_owned(),
    }
}

/// The number that was found, or 0.
pub fn or_zero(found: Option<i64>) -> (n: i64)
    ensures
        n == number_or_zero(found),
{
    match found {
        Some(n) => n,
        None => 0,
    }
}

pub fn get_nested_str(v: &Json, outer: &str, inner: &str) -> (found: Option<String>)
    ensures
        opt_text(found) == nested_str(v@, outer@, inner@),
{
    match v.get(outer) {
        Some(f) => f.get_str(inner),
        None => None,
    }
}

pub fn get_either_str(v: &Json, first: &str, second: &str) -> (found: Option<String>)
    ensures
        opt_text(found) == either_str(v@, first@, second@),
{
    match v.get_str(first) {
        Some(s) => Some(s),
        None => v.get_str(second),
    }
}

// ---------------------------------------------------------------------------
// Audit Logs
// ---------------------------------------------------------------------------

pub open spec fn audit_actor(v: JsonView) -> ActorView {
    ActorView {
        actor_type: text_or(field_str(v, "type"@), "unknown"@),
        id: nested_str(v, "user"@, "id"@),
        name: nested_str(v, "user"@, "name"@),
        email: nested_str(v, "user"@, "email"@),
    }
}

/// An entity keeps its id and its name under the name of its type.
pub open spec fn audit_entity(v: JsonView) -> EntityView {
    let entity_type = text_or(field_str(v, "type"@), "unknown"@);
    EntityView {
        entity_type,
        id: nested_str(v, entity_type, "id"@),
        name: nested_str(v, entity_type, "name"@),
    }
}

pub open spec fn audit_context(v: JsonView) -> ContextView {
    ContextView {
        ip: field_str(v, "ip_address"@),
        ua: field_str(v, "ua"@),
        location: field(v, "location"@),
    }
}

/// The event of an Audit Logs entry with the id `id`. The time is that of the
/// entry, never that of the machine.
pub open spec fn audit_event(raw: JsonView, id: Seq<char>) -> EventView {
    EventView {
        timestamp: nearest_second(number_or_zero(field_i64(raw, "date_create"@))),
        slack: PayloadView {
            source: SourceTag::Audit,
            action: text_or(field_str(raw, "action"@), "unknown"@),
            event_id: id,
            actor: match field(raw, "actor"@) {
                Some(v) => Some(audit_actor(v)),
                None => None,
            },
            entity: match field(raw, "entity"@) {
                Some(v) => Some(audit_entity(v)),
                None => None,
            },
            context: match field(raw, "context"@) {
                Some(v) => Some(audit_context(v)),
                None => None,
            },
        },
        severity: Severity::Info,
        raw,
    }
}

/// Why a payload has no event.
#[derive(Debug, Clone, Copy, PartialEq, Eq, Structural)]
pub enum NormalizeError {
    /// An Audit Logs entry without an id.
    MissingId,
}

impl NormalizeError {
    /// The message for the operator.
    pub fn message(&self) -> (text: &'static str)
        ensures
            text@ == "audit payload missing id"@,
    {
        "audit payload missing id"
    }
}

fn normalize_audit_actor(v: &Json) -> (actor: SlackActor)
    ensures
        actor@ == audit_actor(v@),
{
    SlackActor {
        actor_type: or_default(v.get_str("type"), "unknown"),
        id: get_nested_str(v, "user", "id"),
        name: get_nested_str(v, "user", "name"),
        email: get_nested_str(v, "user", "email"),
    }
}

fn normalize_audit_entity(v: &Json) -> (entity: SlackEntity)
    ensures
        entity@ == audit_entity(v@),
{
    let entity_type: String = or_default(v.get_str("type"), "unknown");
    let id: Option<String> = get_nested_str(v, entity_type.as_str(), "id");
    let name: Option<String> = get_nested_str(v, entity_type.as_str(), "name");
    SlackEntity { entity_type, id, name }
}

fn normalize_audit_context(v: &Json) -> (context: SlackContext)
    ensures
        context@ == audit_context(v@),
{
    SlackContext {
        ip: v.get_str("ip_address"),
        ua: v.get_str("ua"),
        location: v.get_copy("location"),
    }
}

/// The event of an Audit Logs entry.
pub fn normalize_audit_payload(raw: Json) -> (event: Result<NormalizedEvent, NormalizeError>)
    ensures
        (match event {
            Ok(e) => field_str(raw@, "id"@) is Some && e@ == audit_event(
                raw@,
                field_str(raw@, "id"@)->0,
            ),
            Err(NormalizeError::MissingId) => field_str(raw@, "id"@) is None,
        }),
{
    let id: String = match raw.get_str("id") {
        Some(id) => id,
        None => {
            return Err(NormalizeError::MissingId);
        },
    };
    let actor: Option<SlackActor> = match raw.get("actor") {
        Some(v) => Some(normalize_audit_actor(v)),
        None => None,
    };
    let entity: Option<SlackEntity> = match raw.get("entity") {
        Some(v) => Some(normalize_audit_entity(v)),
        None => None,
    };
    let context: Option<SlackContext> = match raw.get("context") {
        Some(v) => Some(normalize_audit_context(v)),
        None => None,
    };
    Ok(
        NormalizedEvent {
            timestamp: Timestamp::nearest(or_zero(raw.get_i64("date_create"))),
            slack: SlackPayload {
                source: SourceTag::Audit,
                action: or_default(raw.get_str("action"), "unknown"),
                event_id: id,
                actor,
                entity,
                context,
            },
            severity: Severity::Info,
            raw,
        },
    )
}

// ---------------------------------------------------------------------------
// Events API
// ---------------------------------------------------------------------------

/// The inner event of a callback; `null` where there is none.
pub open spec fn inner_event(raw: JsonView) -> JsonView {
    match field(raw, "event"@) {
        Some(e) => e,
        None => JsonView::Null,
    }
}

pub open spec fn push_actor(event: JsonView) -> Option<ActorView> {
    match either_str(event, "user"@, "user_id"@) {
        Some(id) => Some(
            ActorView { actor_type: "user"@, id: Some(id), name: None, email: None },
        ),
        None => None,
    }
}

/// The channel of the event, or else its file.
pub open spec fn push_entity(event: JsonView) -> Option<EntityView> {
    match either_str(event, "channel"@, "channel_id"@) {
        Some(id) => Some(EntityView { entity_type: "channel"@, id: Some(id), name: None }),
        None => match field_str(event, "file_id"@) {
            Some(id) => Some(EntityView { entity_type: "file"@, id: Some(id), name: None }),
            None => None,
        },
    }
}

/// The event of an Events API callback. The time is that of the callback,
/// never that of the machine.
pub open spec fn push_event(raw: JsonView) -> EventView {
    EventView {
        timestamp: nearest_second(number_or_zero(field_i64(raw, "event_time"@))),
        slack: PayloadView {
            source: SourceTag::Events,
            action: text_or(field_str(inner_event(raw), "type"@), "unknown"@),
            event_id: text_or(field_str(raw, "event_id"@), "unknown"@),
            actor: push_actor(inner_event(raw)),
            entity: push_entity(inner_event(raw)),
            context: None,
        },
        severity: Severity::Info,
        raw,
    }
}

fn normalize_push_entity(event: &Json) -> (entity: Option<SlackEntity>)
    ensures
        (match entity {
            Some(e) => push_entity(event@) == Some(e@),
            None => push_entity(event@) is None,
        }),
{
    match get_either_str(event, "channel", "channel_id") {
        Some(id) => Some(
            SlackEntity { entity_type: "channel".to_owned(), id: Some(id), name: None },
        ),
        None => match event.get_str("file_id") {
            Some(id) => Some(
                SlackEntity { entity_type: "file".to_owned(), id: Some(id), name: None },
            ),
            None => None,
        },
    }
}

/// The event of an Events API callback.
pub fn normalize_events_payload(raw: Json) -> (event: Result<NormalizedEvent, NormalizeError>)
    ensures
        event matches Ok(e) && e@ == push_event(raw@),
{
    let event: Json = match raw.get_copy("event") {
        Some(e) => e,
        None => Json::Null,
    };
    let actor: Option<SlackActor> = match get_either_str(&event, "user", "user_id") {
        Some(id) => Some(
            SlackActor { actor_type: "user".to_owned(), id: Some(id), name: None, email: None },
        ),
        None => None,
    };
    Ok(
        NormalizedEvent {
            timestamp: Timestamp::nearest(or_zero(raw.get_i64("event_time"))),
            slack: SlackPayload {
                source: SourceTag::Events,
                action: or_default(event.get_str("type"), "unknown"),
                event_id: or_default(raw.get_str("event_id"), "unknown"),
                actor,
                entity: normalize_push_entity(&event),
                context: None,
            },
            severity: Severity::Info,
            raw,
        },
    )
}

// ---------------------------------------------------------------------------
// Laws
// ---------------------------------------------------------------------------

/// Nothing is lost: the event of an entry holds the entry as it came.
pub proof fn law_raw_is_kept(raw: JsonView, id: Seq<char>)
    ensures
        audit_event(raw, id).raw == raw,
        push_event(raw).raw == raw,
{
}

/// The time of an event is the payload's, to the second, wherever the clock can
/// name that second; beyond its ends it is the end that lies nearer.
pub proof fn law_time_is_the_payloads(raw: JsonView, id: Seq<char>)
    ensures
        ({
            let date = number_or_zero(field_i64(raw, "date_create"@)) as int;
            let at = audit_event(raw, id).timestamp;
            &&& nameable(at.secs) && at.nanos == 0
            &&& nameable(date) ==> at.secs == date
            &&& forall|other: int| #[trigger]
                nameable(other) ==> distance(at.secs, date) <= distance(other, date)
        }),
        ({
            let time = number_or_zero(field_i64(raw, "event_time"@)) as int;
            let at = push_event(raw).timestamp;
            &&& nameable(at.secs) && at.nanos == 0
            &&& nameable(time) ==> at.secs == time
            &&& forall|other: int| #[trigger]
                nameable(other) ==> distance(at.secs, time) <= distance(other, time)
        }),
{
}

/// How far two seconds lie apart.
pub open spec fn distance(a: int, b: int) -> int {
    if a <= b {
        b - a
    } else {
        a - b
    }
}

/// The value has an object under `outer` that has the string `s` under `inner`.
pub open spec fn has_nested_text(
    v: JsonView,
    outer: Seq<char>,
    inner: Seq<char>,
    s: Seq<char>,
) -> bool {
    &&& v matches JsonView::Obj(m)
    &&& m.contains_key(outer)
    &&& m[outer] matches JsonView::Obj(n)
    &&& n.contains_key(inner)
    &&& n[inner] == JsonView::Str(s)
}

/// What an Audit Logs entry says of itself is what its event says: its id, its
/// action, or `unknown` where it names none, and the entry itself. Every event
/// begins with the severity `info`.
pub proof fn law_audit_entry_is_named(raw: JsonView, id: Seq<char>, action: Seq<char>)
    ensures
        ({
            let e = audit_event(raw, id);
            &&& e.slack.source == SourceTag::Audit
            &&& e.slack.event_id == id
            &&& e.severity == Severity::Info
            &&& e.raw == raw
            &&& has_text(raw, "action"@, action) ==> e.slack.action == action
            &&& lacks_text(raw, "action"@) ==> e.slack.action == "unknown"@
        }),
{
}

/// The time of an entry is its `date_create`, and that of a callback its
/// `event_time`, to the second, where that is an integer that the clock can name;
/// where there is no such integer the time is the epoch.
pub proof fn law_times_are_read(raw: JsonView, id: Seq<char>, n: i64)
    requires
        nameable(n as int),
    ensures
        ({
            let at = audit_event(raw, id).timestamp;
            &&& has_member(raw, "date_create"@, JsonView::Int(n as int)) ==> at.secs == n
            &&& (forall|k: i64|
                !#[trigger] has_member(raw, "date_create"@, JsonView::Int(k as int))) ==> at.secs
                == 0
            &&& at.nanos == 0
        }),
        ({
            let at = push_event(raw).timestamp;
            &&& has_member(raw, "event_time"@, JsonView::Int(n as int)) ==> at.secs == n
            &&& (forall|k: i64|
                !#[trigger] has_member(raw, "event_time"@, JsonView::Int(k as int))) ==> at.secs
                == 0
            &&& at.nanos == 0
        }),
{
    law_numbers_are_read(raw, "date_create"@, n, 0);
    law_numbers_are_read(raw, "event_time"@, n, 0);
}

/// Who acted is who the entry names as its actor: the type as given, or
/// `unknown`, and the id, the name and the address of its user, each exactly where
/// that is a string. An entry without an actor has an event without one.
pub proof fn law_audit_actor_is_read(
    raw: JsonView,
    id: Seq<char>,
    actor: JsonView,
    text: Seq<char>,
)
    ensures
        lacks_member(raw, "actor"@) <==> audit_event(raw, id).slack.actor is None,
        has_member(raw, "actor"@, actor) ==> {
            &&& audit_event(raw, id).slack.actor matches Some(a)
            &&& has_text(actor, "type"@, text) ==> a.actor_type == text
            &&& lacks_text(actor, "type"@) ==> a.actor_type == "unknown"@
            &&& a.id == Some(text) <==> has_nested_text(actor, "user"@, "id"@, text)
            &&& a.name == Some(text) <==> has_nested_text(actor, "user"@, "name"@, text)
            &&& a.email == Some(text) <==> has_nested_text(actor, "user"@, "email"@, text)
        },
{
}

/// What was acted upon is what the entry names as its entity: the type as given,
/// or `unknown`, and the id and the name that stand under that type, whichever it
/// is, each exactly where it is a string. An entry without an entity has an event
/// without one.
pub proof fn law_audit_entity_is_read(
    raw: JsonView,
    id: Seq<char>,
    entity: JsonView,
    kind: Seq<char>,
    text: Seq<char>,
)
    ensures
        lacks_member(raw, "entity"@) <==> audit_event(raw, id).slack.entity is None,
        has_member(raw, "entity"@, entity) && (has_text(entity, "type"@, kind) || (lacks_text(
            entity,
            "type"@,
        ) && kind == "unknown"@)) ==> {
            &&& audit_event(raw, id).slack.entity matches Some(x)
            &&& x.entity_type == kind
            &&& x.id == Some(text) <==> has_nested_text(entity, kind, "id"@, text)
            &&& x.name == Some(text) <==> has_nested_text(entity, kind, "name"@, text)
        },
{
}

/// From where it was done is what the entry gives as its context: the address and
/// the agent exactly where they are strings, and the location as it stands. An
/// entry without a context has an event without one.
pub proof fn law_audit_context_is_read(
    raw: JsonView,
    id: Seq<char>,
    context: JsonView,
    text: Seq<char>,
    place: JsonView,
)
    ensures
        lacks_member(raw, "context"@) <==> audit_event(raw, id).slack.context is None,
        has_member(raw, "context"@, context) ==> {
            &&& audit_event(raw, id).slack.context matches Some(c)
            &&& c.ip == Some(text) <==> has_text(context, "ip_address"@, text)
            &&& c.ua == Some(text) <==> has_text(context, "ua"@, text)
            &&& c.location == Some(place) <==> has_member(context, "location"@, place)
        },
{
}

/// What a callback says of itself is what its event says: its id, or `unknown`,
/// and the type of its inner event as the action, or `unknown`.
pub proof fn law_callback_is_named(raw: JsonView, text: Seq<char>)
    ensures
        ({
            let e = push_event(raw);
            &&& e.slack.source == SourceTag::Events
            &&& e.severity == Severity::Info
            &&& e.raw == raw
            &&& e.slack.context is None
            &&& has_text(raw, "event_id"@, text) ==> e.slack.event_id == text
            &&& lacks_text(raw, "event_id"@) ==> e.slack.event_id == "unknown"@
            &&& has_nested_text(raw, "event"@, "type"@, text) ==> e.slack.action == text
            &&& (forall|t: Seq<char>| !#[trigger] has_nested_text(raw, "event"@, "type"@, t))
                ==> e.slack.action == "unknown"@
        }),
{
    if let Some(t) = field_str(inner_event(raw), "type"@) {
        assert(has_nested_text(raw, "event"@, "type"@, t));
    }
}

/// Who acted in a callback is the user of its inner event, by `user` or else by
/// `user_id`; without either there is no actor.
pub proof fn law_callback_actor_is_read(raw: JsonView, event: JsonView, id: Seq<char>)
    ensures
        ({
            let actor = push_event(raw).slack.actor;
            let user = Some(ActorView { actor_type: "user"@, id: Some(id), name: None, email: None });
            &&& lacks_member(raw, "event"@) ==> actor is None
            &&& has_member(raw, "event"@, event) ==> {
                &&& has_text(event, "user"@, id) ==> actor == user
                &&& lacks_text(event, "user"@) && has_text(event, "user_id"@, id) ==> actor == user
                &&& lacks_text(event, "user"@) && lacks_text(event, "user_id"@) ==> actor is None
            }
        }),
{
}

/// What was acted upon in a callback is the channel of its inner event, by
/// `channel` or else by `channel_id`, or else its file; without any of them there
/// is no entity.
pub proof fn law_callback_entity_is_read(raw: JsonView, event: JsonView, id: Seq<char>)
    ensures
        ({
            let entity = push_event(raw).slack.entity;
            let channel = Some(EntityView { entity_type: "channel"@, id: Some(id), name: None });
            let file = Some(EntityView { entity_type: "file"@, id: Some(id), name: None });
            let no_channel = lacks_text(event, "channel"@) && lacks_text(event, "channel_id"@);
            &&& lacks_member(raw, "event"@) ==> entity is None
            &&& has_member(raw, "event"@, event) ==> {
                &&& has_text(event, "channel"@, id) ==> entity == channel
                &&& lacks_text(event, "channel"@) && has_text(event, "channel_id"@, id) ==> entity
                    == channel
                &&& no_channel && has_text(event, "file_id"@, id) ==> entity == file
                &&& no_channel && lacks_text(event, "file_id"@) ==> entity is None
            }
        }),
{
}

}
