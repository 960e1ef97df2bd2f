//! The tier probe: what the workspace and the tokens give access to.

use crate::json::{
    copy_text, field_str, has_member, has_text, json_parse, json_text, lacks_text, opt_json,
    opt_text, parse_document, render, Json, JsonView,
};
use crate::normalize::text_or;
use crate::slack_api::{is_ok, reply_ok};
use crate::text::same_text;
use vstd::prelude::*;

verus! {

pub const AUTH_TEST_URL: &'static str = "https://slack.com/api/auth.test";

pub const AUDIT_SCHEMAS_URL: &'static str = "https://api.slack.com/audit/v1/schemas";

/// The tier of a workspace.
#[derive(Debug, Clone, Copy, PartialEq, Eq, Structural)]
pub enum Tier {
    Free,
    /// Pro or Business+.
    Paid,
    /// Enterprise Grid.
    Enterprise,
    Unknown,
}

pub open spec fn tier_label(tier: Tier) -> Seq<char> {
    match tier {
        Tier::Free => "Free"@,
        Tier::Paid => "Paid"@,
        Tier::Enterprise => "Enterprise"@,
        Tier::Unknown => "Unknown"@,
    }
}

impl Tier {
    /// The name of the tier.
    pub fn label(&self) -> (label: &'static str)
        ensures
            label@ == tier_label(*self),
    {
        match self {
            Tier::Free => "Free",
            Tier::Paid => "Paid",
            Tier::Enterprise => "Enterprise",
            Tier::Unknown => "Unknown",
        }
    }
}

/// What a probe found.
#[derive(Debug, Clone)]
pub struct TierProbe {
    pub tier: Tier,
    pub team_id: Option<String>,
    pub enterprise_id: Option<String>,
    pub user_id: Option<String>,
    pub access_logs_available: bool,
    pub audit_logs_available: bool,
}

pub struct ProbeView {
    pub tier: Tier,
    pub team_id: Option<Seq<char>>,
    pub enterprise_id: Option<Seq<char>>,
    pub user_id: Option<Seq<char>>,
    pub access_logs_available: bool,
    pub audit_logs_available: bool,
}

impl View for TierProbe {
    type V = ProbeView;

    open spec fn view(&self) -> ProbeView {
        ProbeView {
            tier: self.tier,
            team_id: opt_text(self.team_id),
            enterprise_id: opt_text(self.enterprise_id),
            user_id: opt_text(self.user_id),
            access_logs_available: self.access_logs_available,
            audit_logs_available: self.audit_logs_available,
        }
    }
}

/// A probe as it is logged.
#[derive(Debug)]
pub struct ProbeSummary {
    pub tier: &'static str,
    pub team_id: String,
    pub enterprise_id: String,
    pub access_logs: bool,
    pub audit_logs: bool,
}

impl TierProbe {
    /// What to log of the probe: `?` stands for an unknown team, `-` for no
    /// enterprise.
    pub fn log_summary(&self) -> (summary: ProbeSummary)
        ensures
            summary.tier@ == tier_label(self.tier),
            summary.team_id@ == text_or(opt_text(self.team_id), "?"@),
            summary.enterprise_id@ == text_or(opt_text(self.enterprise_id), "-"@),
            summary.access_logs == self.access_logs_available,
            summary.audit_logs == self.audit_logs_available,
    {
        ProbeSummary {
            tier: self.tier.label(),
            team_id: match &self.team_id {
                Some(id) => id.clone(),
                None => "?".to_owned(),
            },
            enterprise_id: match &self.enterprise_id {
                Some(id) => id.clone(),
                None => "-".to_owned(),
            },
            access_logs: self.access_logs_available,
            audit_logs: self.audit_logs_available,
        }
    }
}

// ---------------------------------------------------------------------------
// The rules
// ---------------------------------------------------------------------------

/// What `auth.test` tells: an enterprise is Enterprise Grid.
pub open spec fn after_auth(auth: JsonView) -> ProbeView {
    ProbeView {
        tier: if field_str(auth, "enterprise_id"@) is Some {
            Tier::Enterprise
        } else {
            Tier::Unknown
        },
        team_id: field_str(auth, "team_id"@),
        enterprise_id: field_str(auth, "enterprise_id"@),
        user_id: field_str(auth, "user_id"@),
        access_logs_available: false,
        audit_logs_available: false,
    }
}

/// What `team.accessLogs` tells: where it answers the workspace is paid for,
/// where it asks for payment it is free, and Enterprise Grid stays what it is.
pub open spec fn after_access(probe: ProbeView, access: JsonView) -> ProbeView {
    ProbeView {
        tier: if probe.tier != Tier::Unknown {
            probe.tier
        } else if is_ok(access) {
            Tier::Paid
        } else if field_str(access, "error"@) == Some("paid_only"@) {
            Tier::Free
        } else {
            Tier::Unknown
        },
        access_logs_available: is_ok(access),
        ..probe
    }
}

/// What the Audit Logs API tells by whether it answers with success.
pub open spec fn after_audit(probe: ProbeView, success: bool) -> ProbeView {
    ProbeView { audit_logs_available: success, ..probe }
}

// ---------------------------------------------------------------------------
// The machine
// ---------------------------------------------------------------------------

/// A call of the probe.
#[derive(Debug, Clone, Copy, PartialEq, Eq, Structural)]
pub enum ProbeCall {
    /// `auth.test`.
    AuthTest,
    /// `team.accessLogs` for one login.
    AccessLogs,
    /// The schemas of the Audit Logs API.
    AuditSchemas,
}

/// Why a probe failed.
#[derive(Debug)]
pub enum ProbeError {
    /// `auth.test` refused; the text is its reply.
    AuthFailed(String),
    /// A body is no JSON document.
    InvalidBody,
    Unreachable,
}

pub enum ProbeErrorView {
    AuthFailed(Seq<char>),
    InvalidBody,
    Unreachable,
}

/// What happened.
#[derive(Debug)]
pub enum ProbeInput {
    /// The call was answered, with success or not by its status.
    Reply { success: bool, body: String },
    Unreachable,
}

pub enum ProbeInputView {
    Reply { success: bool, body: Seq<char> },
    Unreachable,
}

/// What to do next.
#[derive(Debug)]
pub enum ProbeAction {
    /// Make the call with the token.
    Call { call: ProbeCall, token: String },
    /// The probe is complete.
    Done(TierProbe),
    Fail(ProbeError),
}

pub enum ProbeActionView {
    Call { call: ProbeCall, token: Seq<char> },
    Done(ProbeView),
    Fail(ProbeErrorView),
}

pub struct RunView {
    pub call: ProbeCall,
    pub bot_token: Seq<char>,
    pub user_token: Option<Seq<char>>,
    pub probe: ProbeView,
}

impl View for ProbeInput {
    type V = ProbeInputView;

    open spec fn view(&self) -> ProbeInputView {
        match self {
            ProbeInput::Reply { success, body } => ProbeInputView::Reply {
                success: *success,
                body: body@,
            },
            ProbeInput::Unreachable => ProbeInputView::Unreachable,
        }
    }
}

impl View for ProbeError {
    type V = ProbeErrorView;

    open spec fn view(&self) -> ProbeErrorView {
        match self {
            ProbeError::AuthFailed(reply) => ProbeErrorView::AuthFailed(reply@),
            ProbeError::InvalidBody => ProbeErrorView::InvalidBody,
            ProbeError::Unreachable => ProbeErrorView::Unreachable,
        }
    }
}

impl View for ProbeAction {
    type V = ProbeActionView;

    open spec fn view(&self) -> ProbeActionView {
        match self {
            ProbeAction::Call { call, token } => ProbeActionView::Call {
                call: *call,
                token: token@,
            },
            ProbeAction::Done(probe) => ProbeActionView::Done(probe@),
            ProbeAction::Fail(error) => ProbeActionView::Fail(error@),
        }
    }
}

/// A probe begins with `auth.test`, knowing nothing.
pub open spec fn first_probe_step(bot_token: Seq<char>, user_token: Option<Seq<char>>) -> (
    RunView,
    ProbeActionView,
) {
    (
        RunView {
            call: ProbeCall::AuthTest,
            bot_token,
            user_token,
            probe: ProbeView {
                tier: Tier::Unknown,
                team_id: None,
                enterprise_id: None,
                user_id: None,
                access_logs_available: false,
                audit_logs_available: false,
            },
        },
        ProbeActionView::Call { call: ProbeCall::AuthTest, token: bot_token },
    )
}

/// The token for `team.accessLogs`: it takes the user token, and only without
/// one is the bot token tried.
pub open spec fn access_token(run: RunView) -> Seq<char> {
    match run.user_token {
        Some(t) => t,
        None => run.bot_token,
    }
}

/// What follows the answer of `auth.test`.
pub open spec fn on_auth(run: RunView, parsed: Option<JsonView>) -> (RunView, ProbeActionView) {
    match parsed {
        Some(auth) => if is_ok(auth) {
            let next = RunView { call: ProbeCall::AccessLogs, probe: after_auth(auth), ..run };
            (
                next,
                ProbeActionView::Call { call: ProbeCall::AccessLogs, token: access_token(run) },
            )
        } else {
            (run, ProbeActionView::Fail(ProbeErrorView::AuthFailed(json_text(auth))))
        },
        None => (run, ProbeActionView::Fail(ProbeErrorView::InvalidBody)),
    }
}

/// What follows the answer of `team.accessLogs`.
pub open spec fn on_access(run: RunView, parsed: Option<JsonView>) -> (RunView, ProbeActionView) {
    match parsed {
        Some(access) => {
            let probe = after_access(run.probe, access);
            match run.user_token {
                Some(token) => (
                    RunView { call: ProbeCall::AuditSchemas, probe, ..run },
                    ProbeActionView::Call { call: ProbeCall::AuditSchemas, token },
                ),
                None => (RunView { probe, ..run }, ProbeActionView::Done(probe)),
            }
        },
        None => (run, ProbeActionView::Fail(ProbeErrorView::InvalidBody)),
    }
}

/// The probe is complete once the Audit Logs API answered or could not be
/// reached.
pub open spec fn on_audit(run: RunView, success: bool) -> (RunView, ProbeActionView) {
    let probe = after_audit(run.probe, success);
    (RunView { probe, ..run }, ProbeActionView::Done(probe))
}

/// The probe and what it does after an input.
pub open spec fn next_probe_step(run: RunView, input: ProbeInputView) -> (RunView, ProbeActionView) {
    match (run.call, input) {
        (ProbeCall::AuthTest, ProbeInputView::Reply { success, body }) => on_auth(
            run,
            json_parse(body),
        ),
        (ProbeCall::AccessLogs, ProbeInputView::Reply { success, body }) => on_access(
            run,
            json_parse(body),
        ),
        (ProbeCall::AuditSchemas, ProbeInputView::Reply { success, body }) => on_audit(
            run,
            success,
        ),
        (ProbeCall::AuditSchemas, ProbeInputView::Unreachable) => on_audit(run, false),
        (_, ProbeInputView::Unreachable) => (
            run,
            ProbeActionView::Fail(ProbeErrorView::Unreachable),
        ),
    }
}

// ---------------------------------------------------------------------------
// The code
// ---------------------------------------------------------------------------

/// One run of the probe.
#[derive(Debug)]
pub struct ProbeRun {
    call: ProbeCall,
    bot_token: String,
    user_token: Option<String>,
    probe: TierProbe,
}

impl View for ProbeRun {
    type V = RunView;

    closed spec fn view(&self) -> RunView {
        RunView {
            call: self.call,
            bot_token: self.bot_token@,
            user_token: opt_text(self.user_token),
            probe: self.probe@,
        }
    }
}

impl TierProbe {
    fn copy(&self) -> (probe: TierProbe)
        ensures
            probe@ == self@,
    {
        TierProbe {
            tier: self.tier,
            team_id: copy_text(&self.team_id),
            enterprise_id: copy_text(&self.enterprise_id),
            user_id: copy_text(&self.user_id),
            access_logs_available: self.access_logs_available,
            audit_logs_available: self.audit_logs_available,
        }
    }

    /// Begin a probe with the bot token, and with the user token where there is
    /// one.
    pub fn run(bot_token: String, user_token: Option<String>) -> (begun: (ProbeRun, ProbeAction))
        ensures
            (begun.0@, begun.1@) == first_probe_step(bot_token@, opt_text(user_token)),
    {
        let action: ProbeAction = ProbeAction::Call {
            call: ProbeCall::AuthTest,
            token: bot_token.clone(),
        };
        let probe: TierProbe = TierProbe {
            tier: Tier::Unknown,
            team_id: None,
            enterprise_id: None,
            user_id: None,
            access_logs_available: false,
            audit_logs_available: false,
        };
        (ProbeRun { call: ProbeCall::AuthTest, bot_token, user_token, probe }, action)
    }
}

impl ProbeRun {
    /// What follows the answer of `auth.test`, where `parsed` is what it says.
    pub fn on_auth(&mut self, parsed: Option<Json>) -> (action: ProbeAction)
        ensures
            (final(self)@, action@) == on_auth(old(self)@, opt_json(parsed)),
    {
        match parsed {
            Some(auth) => {
                if !reply_ok(&auth) {
                    return ProbeAction::Fail(ProbeError::AuthFailed(render(&auth)));
                }
                let enterprise_id: Option<String> = auth.get_str("enterprise_id");
                self.probe = TierProbe {
                    tier: if enterprise_id.is_some() {
                        Tier::Enterprise
                    } else {
                        Tier::Unknown
                    },
                    team_id: auth.get_str("team_id"),
                    enterprise_id,
                    user_id: auth.get_str("user_id"),
                    access_logs_available: false,
                    audit_logs_available: false,
                };
                self.call = ProbeCall::AccessLogs;
                let token: String = match &self.user_token {
                    Some(t) => t.clone(),
                    None => self.bot_token.clone(),
                };
                ProbeAction::Call { call: ProbeCall::AccessLogs, token }
            },
            None => ProbeAction::Fail(ProbeError::InvalidBody),
        }
    }

    /// What follows the answer of `team.accessLogs`, where `parsed` is what it
    /// says.
    pub fn on_access(&mut self, parsed: Option<Json>) -> (action: ProbeAction)
        ensures
            (final(self)@, action@) == on_access(old(self)@, opt_json(parsed)),
    {
        match parsed {
            Some(access) => {
                let available: bool = reply_ok(&access);
                let paid_only: bool = match access.get_str("error") {
                    Some(error) => same_text(error.as_str(), "paid_only"),
                    None => false,
                };
                self.probe.access_logs_available = available;
                if self.probe.tier == Tier::Unknown {
                    if available {
                        self.probe.tier = Tier::Paid;
                    } else if paid_only {
                        self.probe.tier = Tier::Free;
                    }
                }
                match &self.user_token {
                    Some(token) => {
                        self.call = ProbeCall::AuditSchemas;
                        ProbeAction::Call { call: ProbeCall::AuditSchemas, token: token.clone() }
                    },
                    None => ProbeAction::Done(self.probe.copy()),
                }
            },
            None => ProbeAction::Fail(ProbeError::InvalidBody),
        }
    }

    fn on_audit(&mut self, success: bool) -> (action: ProbeAction)
        ensures
            (final(self)@, action@) == on_audit(old(self)@, success),
    {
        self.probe.audit_logs_available = success;
        ProbeAction::Done(self.probe.copy())
    }

    /// Go on with the probe after `input`.
    pub fn step(&mut self, input: ProbeInput) -> (action: ProbeAction)
        ensures
            (final(self)@, action@) == next_probe_step(old(self)@, input@),
    {
        match (self.call, input) {
            (ProbeCall::AuditSchemas, ProbeInput::Reply { success, .. }) => self.on_audit(success),
            (ProbeCall::AuditSchemas, ProbeInput::Unreachable) => self.on_audit(false),
            (call, ProbeInput::Reply { body, .. }) => {
                let parsed: Option<Json> = parse_document(body.as_str());
                if call == ProbeCall::AuthTest {
                    self.on_auth(parsed)
                } else {
                    self.on_access(parsed)
                }
            },
            (_, ProbeInput::Unreachable) => ProbeAction::Fail(ProbeError::Unreachable),
        }
    }
}

// ---------------------------------------------------------------------------
// Laws
// ---------------------------------------------------------------------------

/// The tier that the answers stand for: an enterprise is Enterprise Grid
/// whatever `team.accessLogs` says; else an answer means paid, a request for
/// payment free, and anything else leaves it open.
pub proof fn law_tier_of_answers(auth: JsonView, access: JsonView, audit: bool)
    ensures
        ({
            let probe = after_audit(after_access(after_auth(auth), access), audit);
            &&& probe.tier == Tier::Enterprise <==> field_str(auth, "enterprise_id"@) is Some
            &&& probe.tier == Tier::Paid <==> probe.enterprise_id is None && is_ok(access)
            &&& probe.tier == Tier::Free <==> probe.enterprise_id is None && !is_ok(access)
                && field_str(access, "error"@) == Some("paid_only"@)
            &&& probe.access_logs_available == is_ok(access)
            &&& probe.audit_logs_available == audit
        }),
{
}

/// Without a user token the Audit Logs API is never asked and never available.
pub proof fn law_audit_needs_a_user_token(run: RunView, input: ProbeInputView)
    requires
        run.user_token is None,
        run.call != ProbeCall::AuditSchemas,
        !run.probe.audit_logs_available,
    ensures
        ({
            let (after, action) = next_probe_step(run, input);
            &&& after.user_token is None
            &&& after.call != ProbeCall::AuditSchemas
            &&& !after.probe.audit_logs_available
            &&& action matches ProbeActionView::Done(probe) ==> !probe.audit_logs_available
        }),
{
}

/// A probe asks `auth.test` with the bot token first. Where that succeeds it asks
/// `team.accessLogs`, with the user token where there is one and else with the bot
/// token; and where that answered and there is a user token, it asks for the audit
/// schemas with it. Without one the probe is complete before.
pub proof fn law_calls_of_a_probe(
    bot: Seq<char>,
    user: Option<Seq<char>>,
    auth_body: Seq<char>,
    auth: JsonView,
    access_body: Seq<char>,
    access: JsonView,
    audit_body: Seq<char>,
    success: bool,
    first: bool,
    second: bool,
)
    requires
        json_parse(auth_body) == Some(auth),
        has_member(auth, "ok"@, JsonView::Bool(true)),
        json_parse(access_body) == Some(access),
    ensures
        ({
            let (one, ask) = first_probe_step(bot, user);
            let (two, then) = next_probe_step(
                one,
                ProbeInputView::Reply { success: first, body: auth_body },
            );
            let (three, last) = next_probe_step(
                two,
                ProbeInputView::Reply { success: second, body: access_body },
            );
            let ended = next_probe_step(
                three,
                ProbeInputView::Reply { success, body: audit_body },
            ).1;
            let unheard = next_probe_step(three, ProbeInputView::Unreachable).1;
            let token = match user {
                Some(t) => t,
                None => bot,
            };
            &&& ask == (ProbeActionView::Call { call: ProbeCall::AuthTest, token: bot })
            &&& then == (ProbeActionView::Call { call: ProbeCall::AccessLogs, token })
            &&& user matches Some(t) ==> {
                &&& last == (ProbeActionView::Call { call: ProbeCall::AuditSchemas, token: t })
                &&& ended matches ProbeActionView::Done(probe) && tells(probe, auth, access, success)
                &&& unheard matches ProbeActionView::Done(probe) && tells(
                    probe,
                    auth,
                    access,
                    false,
                )
            }
            &&& user is None ==> (last matches ProbeActionView::Done(probe) && tells(
                probe,
                auth,
                access,
                false,
            ))
        }),
{
}

/// What a complete probe says of the answers: the team, the enterprise and the user
/// exactly where `auth.test` names them; that the access logs are open exactly where
/// that call succeeded; and the tier: an enterprise is Enterprise Grid, else a call
/// that succeeded means paid, one that asks for payment free, and any other leaves it
/// open.
pub open spec fn tells(probe: ProbeView, auth: JsonView, access: JsonView, audit: bool) -> bool {
    let grid = !lacks_text(auth, "enterprise_id"@);
    let open = has_member(access, "ok"@, JsonView::Bool(true));
    let unpaid = has_text(access, "error"@, "paid_only"@);
    &&& probe.audit_logs_available == audit
    &&& probe.access_logs_available == open
    &&& probe.tier == (if grid {
        Tier::Enterprise
    } else if open {
        Tier::Paid
    } else if unpaid {
        Tier::Free
    } else {
        Tier::Unknown
    })
    &&& names(probe.team_id, auth, "team_id"@)
    &&& names(probe.enterprise_id, auth, "enterprise_id"@)
    &&& names(probe.user_id, auth, "user_id"@)
}

/// `found` is the string that the reply has under `key`, where it has one.
pub open spec fn names(found: Option<Seq<char>>, reply: JsonView, key: Seq<char>) -> bool {
    match found {
        Some(s) => has_text(reply, key, s),
        None => lacks_text(reply, key),
    }
}

/// A probe fails where one of its first two calls is not answered, or answered with
/// no document, and where `auth.test` refuses; it then gives that reply.
pub proof fn law_how_a_probe_fails(run: RunView, success: bool, body: Seq<char>, auth: JsonView)
    requires
        run.call != ProbeCall::AuditSchemas,
    ensures
        ({
            let answered = next_probe_step(run, ProbeInputView::Reply { success, body }).1;
            &&& next_probe_step(run, ProbeInputView::Unreachable).1 == ProbeActionView::Fail(
                ProbeErrorView::Unreachable,
            )
            &&& json_parse(body) is None ==> answered == ProbeActionView::Fail(
                ProbeErrorView::InvalidBody,
            )
            &&& run.call == ProbeCall::AuthTest && json_parse(body) == Some(auth) && !has_member(
                auth,
                "ok"@,
                JsonView::Bool(true),
            ) ==> answered == ProbeActionView::Fail(ProbeErrorView::AuthFailed(json_text(auth)))
        }),
{
}

/// The names of the tiers.
pub proof fn law_names_of_tiers()
    ensures
        tier_label(Tier::Free) == "Free"@,
        tier_label(Tier::Paid) == "Paid"@,
        tier_label(Tier::Enterprise) == "Enterprise"@,
        tier_label(Tier::Unknown) == "Unknown"@,
{
}

/// Where the probe asks whether a token is good and whether the audit logs are open.
pub proof fn law_addresses_of_the_probe()
    ensures
        AUTH_TEST_URL@ == "https://slack.com/api/auth.test"@,
        AUDIT_SCHEMAS_URL@ == "https://api.slack.com/audit/v1/schemas"@,
{
}

/// What a probe found is seen whole.
pub proof fn law_probe_is_seen_whole(probe: TierProbe)
    ensures
        probe@.tier == probe.tier,
        probe@.access_logs_available == probe.access_logs_available,
        probe@.audit_logs_available == probe.audit_logs_available,
        probe@.team_id is Some <==> probe.team_id is Some,
        probe.team_id matches Some(id) ==> probe@.team_id == Some(id@),
        probe@.enterprise_id is Some <==> probe.enterprise_id is Some,
        probe.enterprise_id matches Some(id) ==> probe@.enterprise_id == Some(id@),
        probe@.user_id is Some <==> probe.user_id is Some,
        probe.user_id matches Some(id) ==> probe@.user_id == Some(id@),
{
}

/// What happened and what to do are seen as they are.
pub proof fn law_probe_steps_are_seen_whole(input: ProbeInput, action: ProbeAction)
    ensures
        input matches ProbeInput::Reply { success, body } ==> input@ == (ProbeInputView::Reply {
            success,
            body: body@,
        }),
        input is Unreachable <==> input@ is Unreachable,
        action matches ProbeAction::Call { call, token } ==> action@ == (ProbeActionView::Call {
            call,
            token: token@,
        }),
        action matches ProbeAction::Done(probe) ==> action@ == ProbeActionView::Done(probe@),
        action matches ProbeAction::Fail(ProbeError::AuthFailed(reply)) ==> action@
            == ProbeActionView::Fail(ProbeErrorView::AuthFailed(reply@)),
        action matches ProbeAction::Fail(ProbeError::InvalidBody) ==> action@
            == ProbeActionView::Fail(ProbeErrorView::InvalidBody),
        action matches ProbeAction::Fail(ProbeError::Unreachable) ==> action@
            == ProbeActionView::Fail(ProbeErrorView::Unreachable),
{
}

}
