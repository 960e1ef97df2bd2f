//! Filtering: severity by action, rules that drop, and rules that allow.

use crate::event::{event_json, source_label, EventView, NormalizedEvent, Severity};
use crate::json::{
    at_path, copy_items, items_view, json_text, law_equality_goes_both_ways, opt_json, render,
    same, Json, JsonView,
};
use crate::string_map::StringMap;
use vstd::prelude::*;

verus! {

/// What a rule asks of the field that it names.
#[derive(Debug)]
pub enum MatchOp {
    /// The field equals the value.
    Eq(Json),
    /// The field equals one of the values.
    In(Vec<Json>),
    /// The field, or its text where it is no string, matches the pattern.
    RegexMatch(String),
    /// The field is there, or is not there.
    Exists(bool),
}

/// A condition on the field at a dotted path of an event.
#[derive(Debug)]
pub struct FilterRule {
    pub field: String,
    pub op: MatchOp,
}

pub enum OpView {
    Eq(JsonView),
    In(Seq<JsonView>),
    RegexMatch(Seq<char>),
    Exists(bool),
}

pub struct RuleView {
    pub field: Seq<char>,
    pub op: OpView,
}

impl View for MatchOp {
    type V = OpView;

    open spec fn view(&self) -> OpView {
        match self {
            MatchOp::Eq(v) => OpView::Eq(v@),
            MatchOp::In(set) => OpView::In(items_view(set@)),
            MatchOp::RegexMatch(re) => OpView::RegexMatch(re@),
            MatchOp::Exists(there) => OpView::Exists(*there),
        }
    }
}

impl View for FilterRule {
    type V = RuleView;

    open spec fn view(&self) -> RuleView {
        RuleView { field: self.field@, op: self.op@ }
    }
}

pub open spec fn rules_view(rules: Seq<FilterRule>) -> Seq<RuleView> {
    rules.map_values(|r: FilterRule| r@)
}

impl Clone for MatchOp {
    fn clone(&self) -> (copy: Self)
        ensures
            copy@ == self@,
    {
        match self {
            MatchOp::Eq(v) => MatchOp::Eq(v.clone()),
            MatchOp::In(set) => MatchOp::In(copy_items(set)),
            MatchOp::RegexMatch(re) => MatchOp::RegexMatch(re.clone()),
            MatchOp::Exists(there) => MatchOp::Exists(*there),
        }
    }
}

impl Clone for FilterRule {
    fn clone(&self) -> (copy: Self)
        ensures
            copy@ == self@,
    {
        FilterRule { field: self.field.clone(), op: self.op.clone() }
    }
}

/// A copy of a list of rules.
pub fn copy_rules(rules: &Vec<FilterRule>) -> (copy: Vec<FilterRule>)
    ensures
        rules_view(copy@) == rules_view(rules@),
        copy@.len() == rules@.len(),
{
    let mut copy: Vec<FilterRule> = Vec::new();
    let mut i: usize = 0;
    while i < rules.len()
        invariant
            i <= rules@.len(),
            copy@.len() == i,
            forall|k: int| 0 <= k < i ==> (#[trigger] copy@[k])@ == rules@[k]@,
        decreases rules@.len() - i,
    {
        copy.push(rules[i].clone());
        i = i + 1;
    }
    assert(rules_view(copy@) =~= rules_view(rules@));
    copy
}

// ---------------------------------------------------------------------------
// Regular expressions
// ---------------------------------------------------------------------------

/// Whether the `regex` crate finds a match of a pattern in a text; nothing
/// where the pattern is no regular expression.
pub uninterp spec fn regex_search(pattern: Seq<char>, text: Seq<char>) -> Option<bool>;

/// `regex::Regex::new` and `regex::Regex::is_match`: whether the pattern
/// compiles, and whether it matches somewhere in the text, depend on the
/// pattern and the text alone.
#[verifier::external_body]
fn search(pattern: &str, text: &str) -> (found: Option<bool>)
    ensures
        found == regex_search(pattern@, text@),
{
    match regex::Regex::new(pattern) {
        Ok(re) => Some(re.is_match(text)),
        Err(_) => None,
    }
}

// ---------------------------------------------------------------------------
// Rules
// ---------------------------------------------------------------------------

/// The text that a pattern is held against: a string itself, or the JSON text
/// of any other value.
pub open spec fn subject(v: JsonView) -> Seq<char> {
    match v {
        JsonView::Str(s) => s,
        other => json_text(other),
    }
}

/// Whether `v` equals one of the values.
pub open spec fn is_among(v: JsonView, set: Seq<JsonView>) -> bool {
    exists|i: int| 0 <= i < set.len() && same(#[trigger] set[i], v)
}

/// Whether the field `found` meets `op`. For a pattern, `searched` is what the
/// search in the field's text yielded; a pattern that is no regular expression
/// meets nothing.
pub open spec fn op_holds(op: OpView, found: Option<JsonView>, searched: Option<bool>) -> bool {
    match found {
        None => op == OpView::Exists(false),
        Some(actual) => match op {
            OpView::Exists(there) => there,
            OpView::Eq(expected) => same(actual, expected),
            OpView::In(set) => is_among(actual, set),
            OpView::RegexMatch(_) => searched == Some(true),
        },
    }
}

/// What a pattern search in the field yields, for the rules that search.
pub open spec fn op_search(op: OpView, found: Option<JsonView>) -> Option<bool> {
    match (op, found) {
        (OpView::RegexMatch(re), Some(actual)) => regex_search(re, subject(actual)),
        _ => None,
    }
}

/// Whether an event meets a rule.
pub open spec fn rule_matches(r: RuleView, e: EventView) -> bool {
    let found = at_path(event_json(e), r.field);
    op_holds(r.op, found, op_search(r.op, found))
}

/// Whether an event meets one of the rules.
pub open spec fn any_matches(rules: Seq<RuleView>, e: EventView) -> bool {
    exists|i: int| 0 <= i < rules.len() && rule_matches(#[trigger] rules[i], e)
}

fn is_one_of(actual: &Json, set: &Vec<Json>) -> (is: bool)
    ensures
        is == is_among(actual@, items_view(set@)),
{
    let ghost values = items_view(set@);
    let mut i: usize = 0;
    while i < set.len()
        invariant
            i <= set@.len(),
            values == items_view(set@),
            forall|k: int| 0 <= k < i ==> !same(#[trigger] values[k], actual@),
        decreases set@.len() - i,
    {
        if set[i].equals(actual) {
            assert(same(values[i as int], actual@));
            return true;
        }
        i = i + 1;
    }
    false
}

impl MatchOp {
    /// Whether the field `found` meets the condition, where `searched` is what
    /// a search for the pattern yielded.
    pub fn holds(&self, found: &Option<Json>, searched: Option<bool>) -> (is: bool)
        ensures
            is == op_holds(self@, opt_json(*found), searched),
    {
        match found {
            Some(actual) => match self {
                MatchOp::Exists(there) => *there,
                MatchOp::Eq(expected) => actual.equals(expected),
                MatchOp::In(set) => is_one_of(actual, set),
                MatchOp::RegexMatch(_) => match searched {
                    Some(matched) => matched,
                    None => false,
                },
            },
            None => match self {
                MatchOp::Exists(there) => !*there,
                _ => false,
            },
        }
    }
}

impl FilterRule {
    /// Whether `event` meets the rule.
    pub fn matches(&self, event: &NormalizedEvent) -> (is: bool)
        ensures
            is == rule_matches(self@, event@),
    {
        let found: Option<Json> = event.lookup(self.field.as_str());
        let searched: Option<bool> = match (&self.op, &found) {
            (MatchOp::RegexMatch(re), Some(Json::Str(s))) => search(re.as_str(), s.as_str()),
            (MatchOp::RegexMatch(re), Some(other)) => search(re.as_str(), render(other).as_str()),
            _ => None,
        };
        self.op.holds(&found, searched)
    }
}

/// Whether `event` meets one of `rules`.
pub fn matches_any(rules: &Vec<FilterRule>, event: &NormalizedEvent) -> (is: bool)
    ensures
        is == any_matches(rules_view(rules@), event@),
{
    let ghost all = rules_view(rules@);
    let mut i: usize = 0;
    while i < rules.len()
        invariant
            i <= rules@.len(),
            all == rules_view(rules@),
            forall|k: int| 0 <= k < i ==> !rule_matches(#[trigger] all[k], event@),
        decreases rules@.len() - i,
    {
        if rules[i].matches(event) {
            assert(rule_matches(all[i as int], event@));
            return true;
        }
        i = i + 1;
    }
    false
}

// ---------------------------------------------------------------------------
// The engine
// ---------------------------------------------------------------------------

/// The rules that every event goes through.
#[derive(Debug)]
pub struct FilterEngine {
    /// An event that meets one of these is dropped.
    pub global_drop: Vec<FilterRule>,
    /// For a source with rules here, an event passes only where it meets one.
    pub per_source_allow: StringMap<Vec<FilterRule>>,
    /// The severity of an action, in place of the one that the source gave.
    pub severity_map: StringMap<Severity>,
}

pub struct EngineView {
    pub drop: Seq<RuleView>,
    pub allow: Map<Seq<char>, Seq<RuleView>>,
    pub severity: Map<Seq<char>, Severity>,
}

impl View for FilterEngine {
    type V = EngineView;

    open spec fn view(&self) -> EngineView {
        EngineView {
            drop: rules_view(self.global_drop@),
            allow: self.per_source_allow@.map_values(|rules: Vec<FilterRule>| rules_view(rules@)),
            severity: self.severity_map@,
        }
    }
}

/// The event with the severity that the map gives its action.
pub open spec fn with_severity(e: EventView, severity: Map<Seq<char>, Severity>) -> EventView {
    if severity.contains_key(e.slack.action) {
        EventView { severity: severity[e.slack.action], ..e }
    } else {
        e
    }
}

/// Whether the allow-list of the event's source lets it pass: there is none, it
/// is empty, or one of its rules matches.
pub open spec fn allowed(e: EventView, allow: Map<Seq<char>, Seq<RuleView>>) -> bool {
    let key = source_label(e.slack.source);
    allow.contains_key(key) && allow[key].len() > 0 ==> any_matches(allow[key], e)
}

/// What becomes of an event: first its severity, then the rules that drop, then
/// the allow-list of its source.
pub open spec fn verdict(engine: EngineView, e: EventView) -> Option<EventView> {
    let rated = with_severity(e, engine.severity);
    if any_matches(engine.drop, rated) || !allowed(rated, engine.allow) {
        None
    } else {
        Some(rated)
    }
}

impl Default for FilterEngine {
    fn default() -> (engine: Self)
        ensures
            engine@.drop.len() == 0,
            engine@.allow == Map::<Seq<char>, Seq<RuleView>>::empty(),
            engine@.severity == Map::<Seq<char>, Severity>::empty(),
    {
        let engine: FilterEngine = FilterEngine {
            global_drop: Vec::new(),
            per_source_allow: StringMap::new(),
            severity_map: StringMap::new(),
        };
        assert(engine@.allow =~= Map::<Seq<char>, Seq<RuleView>>::empty());
        engine
    }
}

impl FilterEngine {
    /// The event with its severity where it passes, nothing where it is dropped.
    pub fn evaluate(&self, event: NormalizedEvent) -> (passed: Option<NormalizedEvent>)
        ensures
            (match passed {
                Some(e) => verdict(self@, event@) == Some(e@),
                None => verdict(self@, event@) is None,
            }),
    {
        let mut event: NormalizedEvent = event;
        if let Some(severity) = self.severity_map.get(event.slack.action.as_str()) {
            event.severity = *severity;
        }
        if matches_any(&self.global_drop, &event) {
            return None;
        }
        if let Some(allow) = self.per_source_allow.get(event.slack.source.label()) {
            if allow.len() > 0 && !matches_any(allow, &event) {
                return None;
            }
        }
        Some(event)
    }
}

// ---------------------------------------------------------------------------
// Laws
// ---------------------------------------------------------------------------

/// An event that passes is the event that came, but for its severity: that is
/// the one of the map where the map has its action, and else its own.
pub proof fn law_only_severity_changes(engine: EngineView, e: EventView)
    ensures
        verdict(engine, e) matches Some(out) ==> {
            &&& out.timestamp == e.timestamp
            &&& out.slack == e.slack
            &&& out.raw == e.raw
            &&& out.severity == (if engine.severity.contains_key(e.slack.action) {
                engine.severity[e.slack.action]
            } else {
                e.severity
            })
        },
{
}

/// A rule that drops outweighs every rule that allows. It sees the severity of
/// the map.
pub proof fn law_drop_outweighs_allow(engine: EngineView, e: EventView, i: int)
    requires
        0 <= i < engine.drop.len(),
        rule_matches(engine.drop[i], with_severity(e, engine.severity)),
    ensures
        verdict(engine, e) is None,
{
}

/// A source without an allow-list, or with an empty one, is not held back; an
/// allow-list lets only what it names pass.
pub proof fn law_allow_list_is_a_whitelist(engine: EngineView, e: EventView)
    requires
        !any_matches(engine.drop, with_severity(e, engine.severity)),
    ensures
        ({
            let key = source_label(e.slack.source);
            let held = engine.allow.contains_key(key) && engine.allow[key].len() > 0;
            let rated = with_severity(e, engine.severity);
            &&& !held ==> verdict(engine, e) == Some(rated)
            &&& held ==> (verdict(engine, e) is Some <==> any_matches(engine.allow[key], rated))
        }),
{
}

/// Without rules everything passes as it came.
pub proof fn law_no_rules_no_change(e: EventView)
    ensures
        verdict(
            EngineView { drop: seq![], allow: Map::empty(), severity: Map::empty() },
            e,
        ) == Some(e),
{
}

/// A field is there or it is not: of the two rules that ask for it, exactly one
/// matches.
pub proof fn law_exists_is_exclusive(path: Seq<char>, e: EventView)
    ensures
        rule_matches(RuleView { field: path, op: OpView::Exists(true) }, e) <==> !rule_matches(
            RuleView { field: path, op: OpView::Exists(false) },
            e,
        ),
        rule_matches(RuleView { field: path, op: OpView::Exists(true) }, e) <==> at_path(
            event_json(e),
            path,
        ) is Some,
{
}

/// A rule on a field that is not there matches only where it asks for that.
pub proof fn law_missing_field_matches_nothing(r: RuleView, e: EventView)
    requires
        at_path(event_json(e), r.field) is None,
    ensures
        rule_matches(r, e) <==> r.op == OpView::Exists(false),
{
}

/// A rule that asks for a value matches exactly where the field is there and equals
/// the value.
pub proof fn law_eq_compares_the_field(path: Seq<char>, expected: JsonView, e: EventView)
    ensures
        rule_matches(RuleView { field: path, op: OpView::Eq(expected) }, e) <==> exists|v: JsonView|
            at_path(event_json(e), path) == Some(v) && #[trigger] same(v, expected),
{
    if let Some(v) = at_path(event_json(e), path) {
        let found = same(v, expected);
    }
}

/// A rule that asks for one of several values matches exactly where a rule that
/// asks for one of them alone does, wherever in the list it stands.
pub proof fn law_in_is_some_eq(path: Seq<char>, set: Seq<JsonView>, e: EventView)
    ensures
        rule_matches(RuleView { field: path, op: OpView::In(set) }, e) <==> exists|i: int|
            0 <= i < set.len() && rule_matches(
                RuleView { field: path, op: OpView::Eq(#[trigger] set[i]) },
                e,
            ),
{
    if let Some(v) = at_path(event_json(e), path) {
        assert forall|i: int| 0 <= i < set.len() implies (same(#[trigger] set[i], v) <==> same(
            v,
            set[i],
        )) by {
            law_equality_goes_both_ways(set[i], v);
        }
        if is_among(v, set) {
            let i = choose|i: int| 0 <= i < set.len() && same(#[trigger] set[i], v);
            assert(rule_matches(RuleView { field: path, op: OpView::Eq(set[i]) }, e));
        }
    }
}

/// A rule with a pattern matches exactly where the field is there and the pattern
/// is found in it: in a string as it stands, and in any other value as it is
/// written. A pattern that is no regular expression matches nothing.
pub proof fn law_pattern_is_searched_in_the_field(path: Seq<char>, pattern: Seq<char>, e: EventView)
    ensures
        ({
            let met = rule_matches(RuleView { field: path, op: OpView::RegexMatch(pattern) }, e);
            match at_path(event_json(e), path) {
                Some(JsonView::Str(s)) => met <==> regex_search(pattern, s) == Some(true),
                Some(v) => met <==> regex_search(pattern, json_text(v)) == Some(true),
                None => !met,
            }
        }),
{
}

/// One rule of a list is enough, whichever it is, and without one the list does not
/// match.
pub proof fn law_one_rule_is_enough(rules: Seq<RuleView>, e: EventView)
    ensures
        any_matches(rules, e) <==> exists|i: int|
            0 <= i < rules.len() && rule_matches(#[trigger] rules[i], e),
{
}

/// An event passes exactly where no rule drops it and its source either has no
/// allow-list, or an empty one, or one with a rule that it meets. The rules see
/// the severity of the map.
pub proof fn law_what_passes(engine: EngineView, e: EventView)
    ensures
        ({
            let rated = EventView {
                severity: if engine.severity.contains_key(e.slack.action) {
                    engine.severity[e.slack.action]
                } else {
                    e.severity
                },
                ..e
            };
            let key = source_label(e.slack.source);
            let dropped = exists|i: int|
                0 <= i < engine.drop.len() && rule_matches(#[trigger] engine.drop[i], rated);
            let named = exists|i: int|
                0 <= i < engine.allow[key].len() && rule_matches(
                    #[trigger] engine.allow[key][i],
                    rated,
                );
            let open = !engine.allow.contains_key(key) || engine.allow[key].len() == 0;
            verdict(engine, e) == (if !dropped && (open || named) {
                Some(rated)
            } else {
                None
            })
        }),
{
}

/// The event that the rules see is the one that came with the severity of the map.
pub proof fn law_map_sets_the_severity(e: EventView, severity: Map<Seq<char>, Severity>)
    ensures
        ({
            let rated = with_severity(e, severity);
            &&& rated.timestamp == e.timestamp && rated.slack == e.slack && rated.raw == e.raw
            &&& severity.contains_key(e.slack.action) ==> rated.severity
                == severity[e.slack.action]
            &&& !severity.contains_key(e.slack.action) ==> rated.severity == e.severity
        }),
{
}

/// A rule is seen with everything that it holds.
pub proof fn law_rule_is_seen_whole(rule: FilterRule)
    ensures
        rule@.field == rule.field@,
        rule.op matches MatchOp::Eq(v) ==> rule@.op == OpView::Eq(v@),
        rule.op matches MatchOp::RegexMatch(re) ==> rule@.op == OpView::RegexMatch(re@),
        rule.op matches MatchOp::Exists(there) ==> rule@.op == OpView::Exists(there),
        rule.op matches MatchOp::In(set) ==> (rule@.op matches OpView::In(seen) && {
            &&& seen.len() == set@.len()
            &&& forall|i: int| 0 <= i < set@.len() ==> #[trigger] seen[i] == set@[i]@
        }),
{
}

/// The rules of an engine are seen all of them and in their order.
pub proof fn law_engine_is_seen_whole(engine: FilterEngine, key: Seq<char>)
    ensures
        engine@.severity == engine.severity_map@,
        engine@.drop.len() == engine.global_drop@.len(),
        forall|i: int|
            0 <= i < engine.global_drop@.len() ==> #[trigger] engine@.drop[i]
                == engine.global_drop@[i]@,
        engine@.allow.contains_key(key) <==> engine.per_source_allow@.contains_key(key),
        engine.per_source_allow@.contains_key(key) ==> {
            let rules = engine.per_source_allow@[key];
            &&& engine@.allow[key].len() == rules@.len()
            &&& forall|i: int|
                0 <= i < rules@.len() ==> #[trigger] engine@.allow[key][i] == rules@[i]@
        },
{
}

}
