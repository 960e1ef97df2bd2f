//! The normalized event: the one schema that every source converges on.

use crate::clock::{instant_text, InstantView, Timestamp};
use crate::document::{
    braced, doc_json, doc_text, fields_json, fields_view, law_document_text_holds_every_field,
    lemma_field_at, lemma_fields_add, lemma_no_field, lemma_one_field, printable, Doc, DocView,
    Field,
};
use crate::json::{
    at_path, field, json_text, law_paths_compose, law_plain_path_is_a_key, lookup_dotted, opt_json,
    opt_text, Json, JsonView,
};
use vstd::prelude::*;

verus! {

/// Where an event comes from.
#[derive(Debug, Clone, Copy, PartialEq, Eq, Structural, Hash)]
pub enum SourceTag {
    Audit,
    Events,
    AccessLogs,
    WebInventory,
}

/// How serious an event is.
#[derive(Debug, Clone, Copy, PartialEq, Eq, Structural, Hash)]
pub enum Severity {
    Info,
    Low,
    Medium,
    High,
    Critical,
}

impl Default for Severity {
    fn default() -> (severity: Self)
        ensures
            severity == Severity::Info,
    {
        Severity::Info
    }
}

/// The `location` under which Wazuh sees a source.
pub open spec fn location(source: SourceTag) -> Seq<char> {
    match source {
        SourceTag::Audit => "slack-audit"@,
        SourceTag::Events => "slack-events"@,
        SourceTag::AccessLogs => "slack-access"@,
        SourceTag::WebInventory => "slack-inventory"@,
    }
}

/// The name of a source in events, filters and metrics.
pub open spec fn source_label(source: SourceTag) -> Seq<char> {
    match source {
        SourceTag::Audit => "audit"@,
        SourceTag::Events => "events"@,
        SourceTag::AccessLogs => "accesslogs"@,
        SourceTag::WebInventory => "webinventory"@,
    }
}

/// The name of a severity in events.
pub open spec fn severity_label(severity: Severity) -> Seq<char> {
    match severity {
        Severity::Info => "info"@,
        Severity::Low => "low"@,
        Severity::Medium => "medium"@,
        Severity::High => "high"@,
        Severity::Critical => "critical"@,
    }
}

impl SourceTag {
    /// The `location` under which Wazuh sees the source.
    pub fn location_tag(&self) -> (tag: &'static str)
        ensures
            tag@ == location(*self),
    {
        match self {
            SourceTag::Audit => "slack-audit",
            SourceTag::Events => "slack-events",
            SourceTag::AccessLogs => "slack-access",
            SourceTag::WebInventory => "slack-inventory",
        }
    }

    /// The name of the source in events, filters and metrics.
    pub fn label(&self) -> (label: &'static str)
        ensures
            label@ == source_label(*self),
    {
        match self {
            SourceTag::Audit => "audit",
            SourceTag::Events => "events",
            SourceTag::AccessLogs => "accesslogs",
            SourceTag::WebInventory => "webinventory",
        }
    }
}

impl Severity {
    /// The name of the severity in events.
    pub fn label(&self) -> (label: &'static str)
        ensures
            label@ == severity_label(*self),
    {
        match self {
            Severity::Info => "info",
            Severity::Low => "low",
            Severity::Medium => "medium",
            Severity::High => "high",
            Severity::Critical => "critical",
        }
    }
}

// ---------------------------------------------------------------------------
// The schema
// ---------------------------------------------------------------------------

/// Who acted.
#[derive(Debug, Clone)]
pub struct SlackActor {
    pub actor_type: String,
    pub id: Option<String>,
    pub name: Option<String>,
    pub email: Option<String>,
}

/// What was acted upon.
#[derive(Debug, Clone)]
pub struct SlackEntity {
    pub entity_type: String,
    pub id: Option<String>,
    pub name: Option<String>,
}

/// From where it was done.
#[derive(Debug, Clone)]
pub struct SlackContext {
    pub ip: Option<String>,
    pub ua: Option<String>,
    pub location: Option<Json>,
}

/// The fields that every source fills, under `slack` in the event.
#[derive(Debug, Clone)]
pub struct SlackPayload {
    pub source: SourceTag,
    pub action: String,
    pub event_id: String,
    pub actor: Option<SlackActor>,
    pub entity: Option<SlackEntity>,
    pub context: Option<SlackContext>,
}

/// An event in the common schema, with the payload that it was made from.
#[derive(Debug, Clone)]
pub struct NormalizedEvent {
    pub timestamp: Timestamp,
    pub slack: SlackPayload,
    pub severity: Severity,
    pub raw: Json,
}

pub struct ActorView {
    pub actor_type: Seq<char>,
    pub id: Option<Seq<char>>,
    pub name: Option<Seq<char>>,
    pub email: Option<Seq<char>>,
}

pub struct EntityView {
    pub entity_type: Seq<char>,
    pub id: Option<Seq<char>>,
    pub name: Option<Seq<char>>,
}

pub struct ContextView {
    pub ip: Option<Seq<char>>,
    pub ua: Option<Seq<char>>,
    pub location: Option<JsonView>,
}

pub struct PayloadView {
    pub source: SourceTag,
    pub action: Seq<char>,
    pub event_id: Seq<char>,
    pub actor: Option<ActorView>,
    pub entity: Option<EntityView>,
    pub context: Option<ContextView>,
}

pub struct EventView {
    pub timestamp: InstantView,
    pub slack: PayloadView,
    pub severity: Severity,
    pub raw: JsonView,
}

impl View for SlackActor {
    type V = ActorView;

    open spec fn view(&self) -> ActorView {
        ActorView {
            actor_type: self.actor_type@,
            id: opt_text(self.id),
            name: opt_text(self.name),
            email: opt_text(self.email),
        }
    }
}

impl View for SlackEntity {
    type V = EntityView;

    open spec fn view(&self) -> EntityView {
        EntityView {
            entity_type: self.entity_type@,
            id: opt_text(self.id),
            name: opt_text(self.name),
        }
    }
}

impl View for SlackContext {
    type V = ContextView;

    open spec fn view(&self) -> ContextView {
        ContextView {
            ip: opt_text(self.ip),
            ua: opt_text(self.ua),
            location: opt_json(self.location),
        }
    }
}

impl View for SlackPayload {
    type V = PayloadView;

    open spec fn view(&self) -> PayloadView {
        PayloadView {
            source: self.source,
            action: self.action@,
            event_id: self.event_id@,
            actor: match self.actor {
                Some(a) => Some(a@),
                None => None,
            },
            entity: match self.entity {
                Some(e) => Some(e@),
                None => None,
            },
            context: match self.context {
                Some(c) => Some(c@),
                None => None,
            },
        }
    }
}

impl View for NormalizedEvent {
    type V = EventView;

    open spec fn view(&self) -> EventView {
        EventView {
            timestamp: self.timestamp@,
            slack: self.slack@,
            severity: self.severity,
            raw: self.raw@,
        }
    }
}

// ---------------------------------------------------------------------------
// The layout
// ---------------------------------------------------------------------------

pub open spec fn text_leaf(s: Seq<char>) -> DocView {
    DocView::Leaf(JsonView::Str(s))
}

/// A field that is left out where it has no value.
pub open spec fn opt_field(key: Seq<char>, value: Option<DocView>) -> Seq<(Seq<char>, DocView)> {
    match value {
        Some(v) => seq![(key, v)],
        None => seq![],
    }
}

pub open spec fn opt_leaf(value: Option<Seq<char>>) -> Option<DocView> {
    match value {
        Some(s) => Some(text_leaf(s)),
        None => None,
    }
}

pub open spec fn actor_doc(a: ActorView) -> DocView {
    DocView::Fields(
        seq![("type"@, text_leaf(a.actor_type))] + opt_field("id"@, opt_leaf(a.id)) + opt_field(
            "name"@,
            opt_leaf(a.name),
        ) + opt_field("email"@, opt_leaf(a.email)),
    )
}

pub open spec fn entity_doc(e: EntityView) -> DocView {
    DocView::Fields(
        seq![("type"@, text_leaf(e.entity_type))] + opt_field("id"@, opt_leaf(e.id)) + opt_field(
            "name"@,
            opt_leaf(e.name),
        ),
    )
}

pub open spec fn context_doc(c: ContextView) -> DocView {
    DocView::Fields(
        opt_field("ip"@, opt_leaf(c.ip)) + opt_field("ua"@, opt_leaf(c.ua)) + opt_field(
            "location"@,
            match c.location {
                Some(v) => Some(DocView::Leaf(v)),
                None => None,
            },
        ),
    )
}

pub open spec fn payload_doc(p: PayloadView) -> DocView {
    DocView::Fields(
        seq![
            ("source"@, text_leaf(source_label(p.source))),
            ("action"@, text_leaf(p.action)),
            ("event_id"@, text_leaf(p.event_id)),
        ] + opt_field(
            "actor"@,
            match p.actor {
                Some(a) => Some(actor_doc(a)),
                None => None,
            },
        ) + opt_field(
            "entity"@,
            match p.entity {
                Some(e) => Some(entity_doc(e)),
                None => None,
            },
        ) + opt_field(
            "context"@,
            match p.context {
                Some(c) => Some(context_doc(c)),
                None => None,
            },
        ),
    )
}

/// The event as it is written: `@timestamp`, `slack`, `severity`, `raw`.
pub open spec fn event_doc(e: EventView) -> DocView {
    DocView::Fields(
        seq![
            ("@timestamp"@, text_leaf(instant_text(e.timestamp))),
            ("slack"@, payload_doc(e.slack)),
            ("severity"@, text_leaf(severity_label(e.severity))),
            ("raw"@, DocView::Leaf(e.raw)),
        ],
    )
}

/// The tree of an event, in which filters look up fields.
pub open spec fn event_json(e: EventView) -> JsonView {
    doc_json(event_doc(e))
}

/// The JSON text of an event.
pub open spec fn event_text(e: EventView) -> Seq<char> {
    doc_text(event_doc(e))
}

fn push_doc(fields: &mut Vec<Field>, key: &str, doc: Doc)
    ensures
        fields_view(final(fields)@) == fields_view(old(fields)@).push((key@, doc@)),
{
    fields.push(Field { key: key.to_owned(), doc });
    assert(fields_view(fields@) =~= fields_view(old(fields)@).push((key@, doc@)));
}

fn push_text(fields: &mut Vec<Field>, key: &str, value: &str)
    ensures
        fields_view(final(fields)@) == fields_view(old(fields)@).push((key@, text_leaf(value@))),
{
    push_doc(fields, key, Doc::Leaf(Json::Str(value.to_owned())));
}

fn push_opt_text(fields: &mut Vec<Field>, key: &str, value: &Option<String>)
    ensures
        fields_view(final(fields)@) == fields_view(old(fields)@) + opt_field(
            key@,
            opt_leaf(opt_text(*value)),
        ),
{
    match value {
        Some(s) => {
            push_text(fields, key, s.as_str());
            assert(fields_view(fields@) =~= fields_view(old(fields)@) + opt_field(
                key@,
                opt_leaf(opt_text(*value)),
            ));
        },
        None => {
            assert(fields_view(fields@) =~= fields_view(old(fields)@) + Seq::<
                (Seq<char>, DocView),
            >::empty());
        },
    }
}

impl SlackActor {
    fn document(&self) -> (doc: Doc)
        ensures
            doc@ == actor_doc(self@),
    {
        let mut fields: Vec<Field> = Vec::new();
        push_text(&mut fields, "type", self.actor_type.as_str());
        assert(fields_view(fields@) =~= seq![("type"@, text_leaf(self.actor_type@))]);
        push_opt_text(&mut fields, "id", &self.id);
        push_opt_text(&mut fields, "name", &self.name);
        push_opt_text(&mut fields, "email", &self.email);
        Doc::Fields(fields)
    }
}

impl SlackEntity {
    fn document(&self) -> (doc: Doc)
        ensures
            doc@ == entity_doc(self@),
    {
        let mut fields: Vec<Field> = Vec::new();
        push_text(&mut fields, "type", self.entity_type.as_str());
        assert(fields_view(fields@) =~= seq![("type"@, text_leaf(self.entity_type@))]);
        push_opt_text(&mut fields, "id", &self.id);
        push_opt_text(&mut fields, "name", &self.name);
        Doc::Fields(fields)
    }
}

impl SlackContext {
    fn document(&self) -> (doc: Doc)
        ensures
            doc@ == context_doc(self@),
    {
        let mut fields: Vec<Field> = Vec::new();
        push_opt_text(&mut fields, "ip", &self.ip);
        assert(fields_view(fields@) =~= opt_field("ip"@, opt_leaf(opt_text(self.ip))));
        push_opt_text(&mut fields, "ua", &self.ua);
        let ghost so_far = fields_view(fields@);
        match &self.location {
            Some(v) => {
                push_doc(&mut fields, "location", Doc::Leaf(v.clone()));
                assert(fields_view(fields@) =~= so_far + seq![("location"@, DocView::Leaf(v@))]);
            },
            None => {
                assert(fields_view(fields@) =~= so_far + Seq::<(Seq<char>, DocView)>::empty());
            },
        }
        Doc::Fields(fields)
    }
}

impl SlackPayload {
    fn document(&self) -> (doc: Doc)
        ensures
            doc@ == payload_doc(self@),
    {
        let mut fields: Vec<Field> = Vec::new();
        push_text(&mut fields, "source", self.source.label());
        push_text(&mut fields, "action", self.action.as_str());
        push_text(&mut fields, "event_id", self.event_id.as_str());
        let ghost none = Seq::<(Seq<char>, DocView)>::empty();
        let ghost f0 = fields_view(fields@);
        assert(f0 =~= seq![
            ("source"@, text_leaf(source_label(self.source))),
            ("action"@, text_leaf(self.action@)),
            ("event_id"@, text_leaf(self.event_id@)),
        ]);
        if let Some(a) = &self.actor {
            push_doc(&mut fields, "actor", a.document());
            assert(fields_view(fields@) =~= f0 + seq![("actor"@, actor_doc(a@))]);
        } else {
            assert(fields_view(fields@) =~= f0 + none);
        }
        let ghost f1 = fields_view(fields@);
        if let Some(e) = &self.entity {
            push_doc(&mut fields, "entity", e.document());
            assert(fields_view(fields@) =~= f1 + seq![("entity"@, entity_doc(e@))]);
        } else {
            assert(fields_view(fields@) =~= f1 + none);
        }
        let ghost f2 = fields_view(fields@);
        if let Some(c) = &self.context {
            push_doc(&mut fields, "context", c.document());
            assert(fields_view(fields@) =~= f2 + seq![("context"@, context_doc(c@))]);
        } else {
            assert(fields_view(fields@) =~= f2 + none);
        }
        Doc::Fields(fields)
    }
}

impl NormalizedEvent {
    fn document(&self) -> (doc: Doc)
        ensures
            doc@ == event_doc(self@),
    {
        let mut fields: Vec<Field> = Vec::new();
        let at: String = self.timestamp.to_rfc3339();
        push_text(&mut fields, "@timestamp", at.as_str());
        push_doc(&mut fields, "slack", self.slack.document());
        push_text(&mut fields, "severity", self.severity.label());
        push_doc(&mut fields, "raw", Doc::Leaf(self.raw.clone()));
        assert(fields_view(fields@) =~= seq![
            ("@timestamp"@, text_leaf(instant_text(self.timestamp@))),
            ("slack"@, payload_doc(self.slack@)),
            ("severity"@, text_leaf(severity_label(self.severity))),
            ("raw"@, DocView::Leaf(self.raw@)),
        ]);
        Doc::Fields(fields)
    }

    /// The event as a tree.
    pub fn to_json(&self) -> (json: Json)
        ensures
            json@ == event_json(self@),
    {
        self.document().to_json()
    }

    /// The event as JSON text, on one line.
    pub fn to_text(&self) -> (text: String)
        ensures
            text@ == event_text(self@),
            printable(text@),
    {
        self.document().to_text()
    }

    /// The field at a dotted path, such as `slack.action`, `slack.actor.email`,
    /// `severity` or a path below `raw`.
    pub fn lookup(&self, path: &str) -> (found: Option<Json>)
        ensures
            opt_json(found) == at_path(event_json(self@), path@),
    {
        let tree: Json = self.to_json();
        match lookup_dotted(&tree, path) {
            Some(v) => Some(v.clone()),
            None => None,
        }
    }
}

// ---------------------------------------------------------------------------
// Laws
// ---------------------------------------------------------------------------

/// The four sources have four locations and four names.
pub proof fn law_sources_are_told_apart(a: SourceTag, b: SourceTag)
    ensures
        location(a) == location(b) ==> a == b,
        source_label(a) == source_label(b) ==> a == b,
{
    reveal_strlit("slack-audit");
    reveal_strlit("slack-events");
    reveal_strlit("slack-access");
    reveal_strlit("slack-inventory");
    reveal_strlit("audit");
    reveal_strlit("events");
    reveal_strlit("accesslogs");
    reveal_strlit("webinventory");
    assert("slack-audit"@[6] == 'a' && "slack-events"@[6] == 'e' && "slack-access"@[6] == 'a');
    assert("slack-audit"@.len() == 11 && "slack-access"@.len() == 12);
    assert("audit"@.len() == 5 && "events"@.len() == 6);
    assert("accesslogs"@.len() == 10 && "webinventory"@.len() == 12);
}

proof fn lemma_top_fields(e: EventView)
    ensures
        field(event_json(e), "slack"@) == Some(doc_json(payload_doc(e.slack))),
        field(event_json(e), "severity"@) == Some(JsonView::Str(severity_label(e.severity))),
        field(event_json(e), "raw"@) == Some(e.raw),
        field(event_json(e), "@timestamp"@) == Some(JsonView::Str(instant_text(e.timestamp))),
        !"slack"@.contains('.'),
        !"severity"@.contains('.'),
        !"raw"@.contains('.'),
        !"@timestamp"@.contains('.'),
{
    reveal_strlit("@timestamp");
    reveal_strlit("slack");
    reveal_strlit("severity");
    reveal_strlit("raw");
    assert("@timestamp"@.len() == 10 && "slack"@.len() == 5 && "severity"@.len() == 8
        && "raw"@.len() == 3);
    let fields = event_doc(e)->Fields_0;
    assert(fields.len() == 4);
    lemma_field_at(fields, 0);
    lemma_field_at(fields, 1);
    lemma_field_at(fields, 2);
    lemma_field_at(fields, 3);
}

/// A path below `raw` leads into the payload as it came.
pub proof fn law_raw_paths(e: EventView, path: Seq<char>)
    ensures
        at_path(event_json(e), "raw"@) == Some(e.raw),
        at_path(event_json(e), "raw"@.push('.') + path) == at_path(e.raw, path),
{
    lemma_top_fields(e);
    law_plain_path_is_a_key(event_json(e), "raw"@);
    law_paths_compose(event_json(e), "raw"@, path);
}

/// The fields that every event has are found under their paths.
pub proof fn law_event_paths(e: EventView)
    ensures
        at_path(event_json(e), "severity"@) == Some(JsonView::Str(severity_label(e.severity))),
        at_path(event_json(e), "slack.source"@) == Some(
            JsonView::Str(source_label(e.slack.source)),
        ),
        at_path(event_json(e), "slack.action"@) == Some(JsonView::Str(e.slack.action)),
        at_path(event_json(e), "slack.event_id"@) == Some(JsonView::Str(e.slack.event_id)),
{
    lemma_top_fields(e);
    law_plain_path_is_a_key(event_json(e), "severity"@);
    law_plain_path_is_a_key(event_json(e), "slack"@);
    reveal_strlit("source");
    reveal_strlit("action");
    reveal_strlit("event_id");
    assert("source"@[0] == 's' && "action"@[0] == 'a' && "event_id"@[0] == 'e');
    let slack = doc_json(payload_doc(e.slack));
    let fields = payload_doc(e.slack)->Fields_0;
    assert(fields[0].0 == "source"@ && fields[1].0 == "action"@ && fields[2].0 == "event_id"@);
    lemma_field_at(fields, 0);
    lemma_field_at(fields, 1);
    lemma_field_at(fields, 2);
    law_plain_path_is_a_key(slack, "source"@);
    law_plain_path_is_a_key(slack, "action"@);
    law_plain_path_is_a_key(slack, "event_id"@);
    law_paths_compose(event_json(e), "slack"@, "source"@);
    law_paths_compose(event_json(e), "slack"@, "action"@);
    law_paths_compose(event_json(e), "slack"@, "event_id"@);
    reveal_strlit("slack");
    reveal_strlit("slack.source");
    reveal_strlit("slack.action");
    reveal_strlit("slack.event_id");
    assert("slack"@.push('.') + "source"@ =~= "slack.source"@);
    assert("slack"@.push('.') + "action"@ =~= "slack.action"@);
    assert("slack"@.push('.') + "event_id"@ =~= "slack.event_id"@);
}

/// The address of the actor is found under its path; without an actor, or with
/// one who has no address, nothing is found there.
pub proof fn law_actor_email_path(e: EventView)
    ensures
        at_path(event_json(e), "slack.actor.email"@) == (match e.slack.actor {
            Some(actor) => match actor.email {
                Some(email) => Some(JsonView::Str(email)),
                None => None,
            },
            None => None,
        }),
{
    lemma_top_fields(e);
    reveal_strlit("source");
    reveal_strlit("action");
    reveal_strlit("event_id");
    reveal_strlit("actor");
    reveal_strlit("entity");
    reveal_strlit("context");
    reveal_strlit("type");
    reveal_strlit("id");
    reveal_strlit("name");
    reveal_strlit("email");
    assert("source"@.len() == 6 && "action"@.len() == 6 && "event_id"@.len() == 8 && "actor"@.len()
        == 5 && "entity"@.len() == 6 && "context"@.len() == 7);
    assert("type"@.len() == 4 && "id"@.len() == 2 && "name"@.len() == 4 && "email"@.len() == 5);
    let slack = doc_json(payload_doc(e.slack));
    let fields = payload_doc(e.slack)->Fields_0;
    assert(fields[0].0 == "source"@ && fields[1].0 == "action"@ && fields[2].0 == "event_id"@);
    match e.slack.actor {
        Some(actor) => {
            assert(fields[3] == ("actor"@, actor_doc(actor)));
            lemma_field_at(fields, 3);
            let who = actor_doc(actor)->Fields_0;
            match actor.email {
                Some(email) => {
                    let at = who.len() - 1;
                    assert(who[at] == ("email"@, text_leaf(email)));
                    assert forall|k: int| 0 <= k < at implies (#[trigger] who[k]).0 != "email"@ by {
                        assert(who[k].0 == "type"@ || who[k].0 == "id"@ || who[k].0 == "name"@);
                    }
                    lemma_field_at(who, at);
                },
                None => {
                    assert forall|k: int| 0 <= k < who.len() implies (#[trigger] who[k]).0
                        != "email"@ by {
                        assert(who[k].0 == "type"@ || who[k].0 == "id"@ || who[k].0 == "name"@);
                    }
                    lemma_no_field(who, "email"@);
                },
            }
            law_plain_path_is_a_key(doc_json(actor_doc(actor)), "email"@);
        },
        None => {
            assert forall|k: int| 0 <= k < fields.len() implies (#[trigger] fields[k]).0
                != "actor"@ by {
                assert(k < 3 || fields[k].0 == "entity"@ || fields[k].0 == "context"@);
            }
            lemma_no_field(fields, "actor"@);
        },
    }
    law_plain_path_is_a_key(event_json(e), "slack"@);
    law_plain_path_is_a_key(slack, "actor"@);
    law_paths_compose(slack, "actor"@, "email"@);
    law_paths_compose(event_json(e), "slack"@, "actor"@.push('.') + "email"@);
    reveal_strlit("slack");
    reveal_strlit("slack.actor.email");
    assert("slack"@.push('.') + ("actor"@.push('.') + "email"@) =~= "slack.actor.email"@);
}

/// A text as a value, where there is one.
pub open spec fn text_value(text: Option<Seq<char>>) -> Option<JsonView> {
    match text {
        Some(s) => Some(JsonView::Str(s)),
        None => None,
    }
}

proof fn lemma_keys_differ()
    ensures
        "source"@ != "action"@,
        "source"@ != "event_id"@,
        "action"@ != "event_id"@,
        "actor"@ != "source"@,
        "actor"@ != "action"@,
        "actor"@ != "event_id"@,
        "entity"@ != "source"@,
        "entity"@ != "action"@,
        "entity"@ != "event_id"@,
        "entity"@ != "actor"@,
        "context"@ != "source"@,
        "context"@ != "action"@,
        "context"@ != "event_id"@,
        "context"@ != "actor"@,
        "context"@ != "entity"@,
        "type"@ != "id"@,
        "type"@ != "name"@,
        "type"@ != "email"@,
        "id"@ != "name"@,
        "id"@ != "email"@,
        "name"@ != "email"@,
        "ip"@ != "ua"@,
        "ip"@ != "location"@,
        "ua"@ != "location"@,
        !"actor"@.contains('.'),
        !"entity"@.contains('.'),
        !"context"@.contains('.'),
        !"type"@.contains('.'),
        !"id"@.contains('.'),
        !"name"@.contains('.'),
        !"email"@.contains('.'),
        !"ip"@.contains('.'),
        !"ua"@.contains('.'),
        !"location"@.contains('.'),
{
    reveal_strlit("source");
    reveal_strlit("action");
    reveal_strlit("event_id");
    reveal_strlit("actor");
    reveal_strlit("entity");
    reveal_strlit("context");
    reveal_strlit("type");
    reveal_strlit("id");
    reveal_strlit("name");
    reveal_strlit("email");
    reveal_strlit("ip");
    reveal_strlit("ua");
    reveal_strlit("location");
    assert("source"@.len() == 6 && "source"@[0] == 's');
    assert("action"@.len() == 6 && "action"@[0] == 'a');
    assert("entity"@.len() == 6 && "entity"@[0] == 'e');
    assert("event_id"@.len() == 8 && "actor"@.len() == 5 && "context"@.len() == 7);
    assert("type"@.len() == 4 && "type"@[0] == 't' && "name"@.len() == 4 && "name"@[0] == 'n');
    assert("id"@.len() == 2 && "email"@.len() == 5);
    assert("ip"@.len() == 2 && "ip"@[0] == 'i' && "ua"@.len() == 2 && "ua"@[0] == 'u');
    assert("location"@.len() == 8);
}

spec fn doc_value(doc: Option<DocView>) -> Option<JsonView> {
    match doc {
        Some(d) => Some(doc_json(d)),
        None => None,
    }
}

spec fn field_of(fields: Seq<(Seq<char>, DocView)>, key: Seq<char>) -> Option<JsonView> {
    field(JsonView::Obj(fields_json(fields)), key)
}

proof fn lemma_opt_field(key: Seq<char>, value: Option<DocView>, other: Seq<char>)
    ensures
        field_of(opt_field(key, value), other) == (if other == key {
            doc_value(value)
        } else {
            None
        }),
{
    match value {
        Some(v) => lemma_one_field(key, v, other),
        None => lemma_one_field(key, DocView::Leaf(JsonView::Null), other),
    }
}

/// Fields of which the last three may be left out are found under their keys.
proof fn lemma_layout(
    base: Seq<(Seq<char>, DocView)>,
    k1: Seq<char>,
    v1: Option<DocView>,
    k2: Seq<char>,
    v2: Option<DocView>,
    k3: Seq<char>,
    v3: Option<DocView>,
    key: Seq<char>,
)
    requires
        k1 != k2,
        k1 != k3,
        k2 != k3,
        field_of(base, key) is None || (key != k1 && key != k2 && key != k3),
    ensures
        field_of(base + opt_field(k1, v1) + opt_field(k2, v2) + opt_field(k3, v3), key) == (if key
            == k1 {
            doc_value(v1)
        } else if key == k2 {
            doc_value(v2)
        } else if key == k3 {
            doc_value(v3)
        } else {
            field_of(base, key)
        }),
{
    let a = opt_field(k1, v1);
    let b = opt_field(k2, v2);
    let c = opt_field(k3, v3);
    lemma_fields_add(base, a, key);
    lemma_fields_add(base + a, b, key);
    lemma_fields_add(base + a + b, c, key);
    lemma_opt_field(k1, v1, key);
    lemma_opt_field(k2, v2, key);
    lemma_opt_field(k3, v3, key);
}

proof fn lemma_parts(e: EventView, key: Seq<char>)
    requires
        key == "actor"@ || key == "entity"@ || key == "context"@,
    ensures
        field(event_json(e), "slack"@) == Some(doc_json(payload_doc(e.slack))),
        field(doc_json(payload_doc(e.slack)), key) == (if key == "actor"@ {
            match e.slack.actor {
                Some(a) => Some(doc_json(actor_doc(a))),
                None => None,
            }
        } else if key == "entity"@ {
            match e.slack.entity {
                Some(x) => Some(doc_json(entity_doc(x))),
                None => None,
            }
        } else {
            match e.slack.context {
                Some(c) => Some(doc_json(context_doc(c))),
                None => None,
            }
        }),
{
    lemma_top_fields(e);
    lemma_keys_differ();
    let p = e.slack;
    let base = seq![
        ("source"@, text_leaf(source_label(p.source))),
        ("action"@, text_leaf(p.action)),
        ("event_id"@, text_leaf(p.event_id)),
    ];
    assert forall|k: int| 0 <= k < base.len() implies (#[trigger] base[k]).0 != key by {
        assert(base[k] == base[0] || base[k] == base[1] || base[k] == base[2]);
    }
    lemma_no_field(base, key);
    let actor = match p.actor {
        Some(a) => Some(actor_doc(a)),
        None => None,
    };
    let entity = match p.entity {
        Some(x) => Some(entity_doc(x)),
        None => None,
    };
    let context = match p.context {
        Some(c) => Some(context_doc(c)),
        None => None,
    };
    lemma_layout(base, "actor"@, actor, "entity"@, entity, "context"@, context, key);
}

/// A path of three keys leads from the event through `slack`.
proof fn lemma_slack_path(e: EventView, part: Seq<char>, key: Seq<char>, path: Seq<char>)
    requires
        path == "slack"@.push('.') + (part.push('.') + key),
        !part.contains('.'),
        !key.contains('.'),
    ensures
        at_path(event_json(e), path) == (match field(doc_json(payload_doc(e.slack)), part) {
            Some(d) => field(d, key),
            None => None,
        }),
{
    lemma_top_fields(e);
    let slack = doc_json(payload_doc(e.slack));
    law_plain_path_is_a_key(event_json(e), "slack"@);
    law_plain_path_is_a_key(slack, part);
    if let Some(d) = field(slack, part) {
        law_plain_path_is_a_key(d, key);
    }
    law_paths_compose(slack, part, key);
    law_paths_compose(event_json(e), "slack"@, part.push('.') + key);
}

/// What an event says of who acted is found under its paths, each field exactly
/// where it has a value; without an actor none of them is found.
pub proof fn law_actor_paths(e: EventView)
    ensures
        ({
            let kind = at_path(event_json(e), "slack.actor.type"@);
            let id = at_path(event_json(e), "slack.actor.id"@);
            let name = at_path(event_json(e), "slack.actor.name"@);
            let email = at_path(event_json(e), "slack.actor.email"@);
            match e.slack.actor {
                Some(a) => {
                    &&& kind == Some(JsonView::Str(a.actor_type))
                    &&& id == text_value(a.id)
                    &&& name == text_value(a.name)
                    &&& email == text_value(a.email)
                },
                None => kind is None && id is None && name is None && email is None,
            }
        }),
{
    lemma_keys_differ();
    lemma_parts(e, "actor"@);
    law_actor_email_path(e);
    reveal_strlit("slack");
    reveal_strlit("actor");
    reveal_strlit("type");
    reveal_strlit("id");
    reveal_strlit("name");
    reveal_strlit("slack.actor.type");
    reveal_strlit("slack.actor.id");
    reveal_strlit("slack.actor.name");
    assert("slack"@.push('.') + ("actor"@.push('.') + "type"@) =~= "slack.actor.type"@);
    assert("slack"@.push('.') + ("actor"@.push('.') + "id"@) =~= "slack.actor.id"@);
    assert("slack"@.push('.') + ("actor"@.push('.') + "name"@) =~= "slack.actor.name"@);
    lemma_slack_path(e, "actor"@, "type"@, "slack.actor.type"@);
    lemma_slack_path(e, "actor"@, "id"@, "slack.actor.id"@);
    lemma_slack_path(e, "actor"@, "name"@, "slack.actor.name"@);
    if let Some(a) = e.slack.actor {
        let base = seq![("type"@, text_leaf(a.actor_type))];
        lemma_one_field("type"@, text_leaf(a.actor_type), "type"@);
        lemma_one_field("type"@, text_leaf(a.actor_type), "id"@);
        lemma_one_field("type"@, text_leaf(a.actor_type), "name"@);
        let (i, n, m) = (opt_leaf(a.id), opt_leaf(a.name), opt_leaf(a.email));
        lemma_layout(base, "id"@, i, "name"@, n, "email"@, m, "type"@);
        lemma_layout(base, "id"@, i, "name"@, n, "email"@, m, "id"@);
        lemma_layout(base, "id"@, i, "name"@, n, "email"@, m, "name"@);
    }
}

/// What an event says of what was acted upon is found under its paths, each field
/// exactly where it has a value; without an entity none of them is found.
pub proof fn law_entity_paths(e: EventView)
    ensures
        ({
            let kind = at_path(event_json(e), "slack.entity.type"@);
            let id = at_path(event_json(e), "slack.entity.id"@);
            let name = at_path(event_json(e), "slack.entity.name"@);
            match e.slack.entity {
                Some(x) => {
                    &&& kind == Some(JsonView::Str(x.entity_type))
                    &&& id == text_value(x.id)
                    &&& name == text_value(x.name)
                },
                None => kind is None && id is None && name is None,
            }
        }),
{
    lemma_keys_differ();
    lemma_parts(e, "entity"@);
    reveal_strlit("slack");
    reveal_strlit("entity");
    reveal_strlit("type");
    reveal_strlit("id");
    reveal_strlit("name");
    reveal_strlit("slack.entity.type");
    reveal_strlit("slack.entity.id");
    reveal_strlit("slack.entity.name");
    assert("slack"@.push('.') + ("entity"@.push('.') + "type"@) =~= "slack.entity.type"@);
    assert("slack"@.push('.') + ("entity"@.push('.') + "id"@) =~= "slack.entity.id"@);
    assert("slack"@.push('.') + ("entity"@.push('.') + "name"@) =~= "slack.entity.name"@);
    lemma_slack_path(e, "entity"@, "type"@, "slack.entity.type"@);
    lemma_slack_path(e, "entity"@, "id"@, "slack.entity.id"@);
    lemma_slack_path(e, "entity"@, "name"@, "slack.entity.name"@);
    if let Some(x) = e.slack.entity {
        let base = seq![("type"@, text_leaf(x.entity_type))];
        let none: Option<DocView> = None;
        lemma_one_field("type"@, text_leaf(x.entity_type), "type"@);
        lemma_one_field("type"@, text_leaf(x.entity_type), "id"@);
        lemma_one_field("type"@, text_leaf(x.entity_type), "name"@);
        let (i, n) = (opt_leaf(x.id), opt_leaf(x.name));
        let fields = base + opt_field("id"@, i) + opt_field("name"@, n);
        assert(fields + opt_field("email"@, none) =~= fields);
        lemma_layout(base, "id"@, i, "name"@, n, "email"@, none, "type"@);
        lemma_layout(base, "id"@, i, "name"@, n, "email"@, none, "id"@);
        lemma_layout(base, "id"@, i, "name"@, n, "email"@, none, "name"@);
    }
}

/// What an event says of where it was done from is found under its paths, each
/// field exactly where it has a value; without a context none of them is found.
pub proof fn law_context_paths(e: EventView)
    ensures
        ({
            let ip = at_path(event_json(e), "slack.context.ip"@);
            let ua = at_path(event_json(e), "slack.context.ua"@);
            let place = at_path(event_json(e), "slack.context.location"@);
            match e.slack.context {
                Some(c) => {
                    &&& ip == text_value(c.ip)
                    &&& ua == text_value(c.ua)
                    &&& place == c.location
                },
                None => ip is None && ua is None && place is None,
            }
        }),
{
    lemma_keys_differ();
    lemma_parts(e, "context"@);
    reveal_strlit("slack");
    reveal_strlit("context");
    reveal_strlit("ip");
    reveal_strlit("ua");
    reveal_strlit("location");
    reveal_strlit("slack.context.ip");
    reveal_strlit("slack.context.ua");
    reveal_strlit("slack.context.location");
    assert("slack"@.push('.') + ("context"@.push('.') + "ip"@) =~= "slack.context.ip"@);
    assert("slack"@.push('.') + ("context"@.push('.') + "ua"@) =~= "slack.context.ua"@);
    assert("slack"@.push('.') + ("context"@.push('.') + "location"@)
        =~= "slack.context.location"@);
    lemma_slack_path(e, "context"@, "ip"@, "slack.context.ip"@);
    lemma_slack_path(e, "context"@, "ua"@, "slack.context.ua"@);
    lemma_slack_path(e, "context"@, "location"@, "slack.context.location"@);
    if let Some(c) = e.slack.context {
        let base = Seq::<(Seq<char>, DocView)>::empty();
        let (i, u) = (opt_leaf(c.ip), opt_leaf(c.ua));
        let l = match c.location {
            Some(v) => Some(DocView::Leaf(v)),
            None => None,
        };
        assert(base + opt_field("ip"@, i) =~= opt_field("ip"@, i));
        lemma_one_field("ip"@, DocView::Leaf(JsonView::Null), "ip"@);
        lemma_one_field("ip"@, DocView::Leaf(JsonView::Null), "ua"@);
        lemma_one_field("ip"@, DocView::Leaf(JsonView::Null), "location"@);
        lemma_layout(base, "ip"@, i, "ua"@, u, "location"@, l, "ip"@);
        lemma_layout(base, "ip"@, i, "ua"@, u, "location"@, l, "ua"@);
        lemma_layout(base, "ip"@, i, "ua"@, u, "location"@, l, "location"@);
    }
}

/// The time of an event is found under `@timestamp`, and at its top an event has
/// four fields and no more.
pub proof fn law_top_of_an_event(e: EventView)
    ensures
        at_path(event_json(e), "@timestamp"@) == Some(JsonView::Str(instant_text(e.timestamp))),
        event_json(e) matches JsonView::Obj(m) && forall|key: Seq<char>| #[trigger]
            m.contains_key(key) <==> key == "@timestamp"@ || key == "slack"@ || key == "severity"@
                || key == "raw"@,
{
    lemma_top_fields(e);
    law_plain_path_is_a_key(event_json(e), "@timestamp"@);
    let fields = event_doc(e)->Fields_0;
    assert(event_json(e) == JsonView::Obj(fields_json(fields)));
    assert(fields.len() == 4);
    assert forall|key: Seq<char>| #[trigger] fields_json(fields).contains_key(key) implies key
        == "@timestamp"@ || key == "slack"@ || key == "severity"@ || key == "raw"@ by {
        if key != "@timestamp"@ && key != "slack"@ && key != "severity"@ && key != "raw"@ {
            assert forall|k: int| 0 <= k < fields.len() implies (#[trigger] fields[k]).0 != key by {
                assert(fields[k] == fields[0] || fields[k] == fields[1] || fields[k] == fields[2]
                    || fields[k] == fields[3]);
            }
            lemma_no_field(fields, key);
        }
    }
}

/// A member that is left out where it has no value.
pub open spec fn opt_member(key: Seq<char>, text: Option<Seq<char>>) -> Seq<
    (Seq<char>, Seq<char>),
> {
    match text {
        Some(t) => seq![(key, t)],
        None => seq![],
    }
}

/// The JSON text of a string.
pub open spec fn quoted(s: Seq<char>) -> Seq<char> {
    json_text(JsonView::Str(s))
}

/// The JSON text of a string, where there is one.
pub open spec fn opt_quoted(s: Option<Seq<char>>) -> Option<Seq<char>> {
    match s {
        Some(t) => Some(quoted(t)),
        None => None,
    }
}

/// An actor, written: its type and what else is known, in this order.
pub open spec fn actor_written(a: ActorView) -> Seq<char> {
    braced(
        seq![("type"@, quoted(a.actor_type))] + opt_member("id"@, opt_quoted(a.id)) + opt_member(
            "name"@,
            opt_quoted(a.name),
        ) + opt_member("email"@, opt_quoted(a.email)),
    )
}

/// An entity, written: its type and what else is known, in this order.
pub open spec fn entity_written(x: EntityView) -> Seq<char> {
    braced(
        seq![("type"@, quoted(x.entity_type))] + opt_member("id"@, opt_quoted(x.id)) + opt_member(
            "name"@,
            opt_quoted(x.name),
        ),
    )
}

/// A context, written: what is known, in this order.
pub open spec fn context_written(c: ContextView) -> Seq<char> {
    braced(
        opt_member("ip"@, opt_quoted(c.ip)) + opt_member("ua"@, opt_quoted(c.ua)) + opt_member(
            "location"@,
            match c.location {
                Some(v) => Some(json_text(v)),
                None => None,
            },
        ),
    )
}

/// What stands under `slack`, written: the name of the source, the action and the
/// id, and then the actor, the entity and the context where there are any.
pub open spec fn slack_written(p: PayloadView) -> Seq<char> {
    braced(
        seq![
            ("source"@, quoted(source_label(p.source))),
            ("action"@, quoted(p.action)),
            ("event_id"@, quoted(p.event_id)),
        ] + opt_member(
            "actor"@,
            match p.actor {
                Some(a) => Some(actor_written(a)),
                None => None,
            },
        ) + opt_member(
            "entity"@,
            match p.entity {
                Some(x) => Some(entity_written(x)),
                None => None,
            },
        ) + opt_member(
            "context"@,
            match p.context {
                Some(c) => Some(context_written(c)),
                None => None,
            },
        ),
    )
}

proof fn lemma_actor_text(a: ActorView)
    ensures
        doc_text(actor_doc(a)) == actor_written(a),
{
    let members = seq![("type"@, quoted(a.actor_type))] + opt_member("id"@, opt_quoted(a.id))
        + opt_member("name"@, opt_quoted(a.name)) + opt_member("email"@, opt_quoted(a.email));
    let fields = actor_doc(a)->Fields_0;
    assert forall|i: int| 0 <= i < fields.len() implies (#[trigger] members[i]).0 == fields[i].0
        && members[i].1 == doc_text(fields[i].1) by {}
    law_document_text_holds_every_field(fields, members, JsonView::Null);
}

proof fn lemma_entity_text(x: EntityView)
    ensures
        doc_text(entity_doc(x)) == entity_written(x),
{
    let members = seq![("type"@, quoted(x.entity_type))] + opt_member("id"@, opt_quoted(x.id))
        + opt_member("name"@, opt_quoted(x.name));
    let fields = entity_doc(x)->Fields_0;
    assert forall|i: int| 0 <= i < fields.len() implies (#[trigger] members[i]).0 == fields[i].0
        && members[i].1 == doc_text(fields[i].1) by {}
    law_document_text_holds_every_field(fields, members, JsonView::Null);
}

proof fn lemma_context_text(c: ContextView)
    ensures
        doc_text(context_doc(c)) == context_written(c),
{
    let members = opt_member("ip"@, opt_quoted(c.ip)) + opt_member("ua"@, opt_quoted(c.ua))
        + opt_member(
        "location"@,
        match c.location {
            Some(v) => Some(json_text(v)),
            None => None,
        },
    );
    let fields = context_doc(c)->Fields_0;
    assert forall|i: int| 0 <= i < fields.len() implies (#[trigger] members[i]).0 == fields[i].0
        && members[i].1 == doc_text(fields[i].1) by {}
    law_document_text_holds_every_field(fields, members, JsonView::Null);
}

proof fn lemma_slack_text(p: PayloadView)
    ensures
        doc_text(payload_doc(p)) == slack_written(p),
{
    if let Some(a) = p.actor {
        lemma_actor_text(a);
    }
    if let Some(x) = p.entity {
        lemma_entity_text(x);
    }
    if let Some(c) = p.context {
        lemma_context_text(c);
    }
    let base = seq![
        ("source"@, quoted(source_label(p.source))),
        ("action"@, quoted(p.action)),
        ("event_id"@, quoted(p.event_id)),
    ];
    let members = base + opt_member(
        "actor"@,
        match p.actor {
            Some(a) => Some(actor_written(a)),
            None => None,
        },
    ) + opt_member(
        "entity"@,
        match p.entity {
            Some(x) => Some(entity_written(x)),
            None => None,
        },
    ) + opt_member(
        "context"@,
        match p.context {
            Some(c) => Some(context_written(c)),
            None => None,
        },
    );
    let fields = payload_doc(p)->Fields_0;
    assert forall|i: int| 0 <= i < fields.len() implies (#[trigger] members[i]).0 == fields[i].0
        && members[i].1 == doc_text(fields[i].1) by {
        if i < 3 {
            assert(members[i] == base[i]);
            assert(i == 0 || i == 1 || i == 2);
        }
    }
    law_document_text_holds_every_field(fields, members, JsonView::Null);
}

/// An event is written as an object of its time, what the schema has under
/// `slack`, its severity and the payload, in this order.
pub proof fn law_event_text(e: EventView)
    ensures
        event_text(e) == braced(
            seq![
                ("@timestamp"@, quoted(instant_text(e.timestamp))),
                ("slack"@, slack_written(e.slack)),
                ("severity"@, quoted(severity_label(e.severity))),
                ("raw"@, json_text(e.raw)),
            ],
        ),
{
    lemma_slack_text(e.slack);
    let fields = event_doc(e)->Fields_0;
    let members = seq![
        ("@timestamp"@, quoted(instant_text(e.timestamp))),
        ("slack"@, slack_written(e.slack)),
        ("severity"@, quoted(severity_label(e.severity))),
        ("raw"@, json_text(e.raw)),
    ];
    assert forall|i: int| 0 <= i < fields.len() implies (#[trigger] members[i]).0 == fields[i].0
        && members[i].1 == doc_text(fields[i].1) by {
        assert(i == 0 || i == 1 || i == 2 || i == 3);
    }
    law_document_text_holds_every_field(fields, members, JsonView::Null);
}

/// The names that Wazuh and the filters know the sources and severities by.
pub proof fn law_names_of_the_schema(source: SourceTag, severity: Severity)
    ensures
        source == SourceTag::Audit ==> location(source) == "slack-audit"@ && source_label(source)
            == "audit"@,
        source == SourceTag::Events ==> location(source) == "slack-events"@ && source_label(source)
            == "events"@,
        source == SourceTag::AccessLogs ==> location(source) == "slack-access"@ && source_label(
            source,
        ) == "accesslogs"@,
        source == SourceTag::WebInventory ==> location(source) == "slack-inventory"@
            && source_label(source) == "webinventory"@,
        severity == Severity::Info ==> severity_label(severity) == "info"@,
        severity == Severity::Low ==> severity_label(severity) == "low"@,
        severity == Severity::Medium ==> severity_label(severity) == "medium"@,
        severity == Severity::High ==> severity_label(severity) == "high"@,
        severity == Severity::Critical ==> severity_label(severity) == "critical"@,
{
}

/// An event is seen with everything that it holds.
pub proof fn law_event_is_seen_whole(e: NormalizedEvent)
    ensures
        e@.timestamp == e.timestamp@,
        e@.severity == e.severity,
        e@.raw == e.raw@,
        e@.slack.source == e.slack.source,
        e@.slack.action == e.slack.action@,
        e@.slack.event_id == e.slack.event_id@,
        e@.slack.actor is Some <==> e.slack.actor is Some,
        e@.slack.entity is Some <==> e.slack.entity is Some,
        e@.slack.context is Some <==> e.slack.context is Some,
        e.slack.actor matches Some(a) ==> {
            let seen = e@.slack.actor->0;
            &&& seen.actor_type == a.actor_type@
            &&& a.id is Some == seen.id is Some && (a.id matches Some(s) ==> seen.id->0 == s@)
            &&& a.name is Some == seen.name is Some && (a.name matches Some(s) ==> seen.name->0
                == s@)
            &&& a.email is Some == seen.email is Some && (a.email matches Some(s) ==> seen.email->0
                == s@)
        },
        e.slack.entity matches Some(x) ==> {
            let seen = e@.slack.entity->0;
            &&& seen.entity_type == x.entity_type@
            &&& x.id is Some == seen.id is Some && (x.id matches Some(s) ==> seen.id->0 == s@)
            &&& x.name is Some == seen.name is Some && (x.name matches Some(s) ==> seen.name->0
                == s@)
        },
        e.slack.context matches Some(c) ==> {
            let seen = e@.slack.context->0;
            &&& c.ip is Some == seen.ip is Some && (c.ip matches Some(s) ==> seen.ip->0 == s@)
            &&& c.ua is Some == seen.ua is Some && (c.ua matches Some(s) ==> seen.ua->0 == s@)
            &&& c.location is Some == seen.location is Some && (c.location matches Some(v)
                ==> seen.location->0 == v@)
        },
{
}

}
