//! The health endpoint: whether the connector is alive, and the replies that
//! say so.

use crate::clock::{nameable, Timestamp};
use crate::decimal::{decimal, u64_text};
use crate::text::{
    begins_with, is_word, law_words_are_parted_by_space, texts, words, words_of,
};
use vstd::prelude::*;
use vstd::utf8::{decode_utf8, encode_utf8, valid_utf8};

verus! {

/// What the endpoint reports on.
#[derive(Debug, Clone, Copy, PartialEq, Eq, Structural)]
pub struct HealthState {
    /// The sources are wired.
    pub started: bool,
    /// The number of sources; without any the connector is idle by design.
    pub active_sources: u64,
    /// The second of the last event that was delivered, or of the start.
    pub last_emit_epoch: u64,
    pub events_emitted: u64,
    /// The second of the start.
    pub start_epoch: u64,
    /// The seconds without an event after which the connector is stale; 0 for
    /// never.
    pub stale_after_s: u64,
}

/// A connector at its start.
pub open spec fn at_start(stale_after_s: u64, now: u64) -> HealthState {
    HealthState {
        started: false,
        active_sources: 0,
        last_emit_epoch: now,
        events_emitted: 0,
        start_epoch: now,
        stale_after_s,
    }
}

/// An event was delivered at `now`.
pub open spec fn after_emit(h: HealthState, now: u64) -> HealthState {
    HealthState {
        last_emit_epoch: now,
        events_emitted: if h.events_emitted < u64::MAX {
            (h.events_emitted + 1) as u64
        } else {
            0
        },
        ..h
    }
}

/// The seconds from `then` to `now`; none where `then` lies ahead.
pub open spec fn seconds_since(then: u64, now: u64) -> int {
    if now >= then {
        now - then
    } else {
        0
    }
}

/// The sources delivered nothing for longer than they should.
pub open spec fn is_stale(h: HealthState, now: u64) -> bool {
    &&& h.stale_after_s > 0
    &&& h.active_sources > 0
    &&& seconds_since(h.last_emit_epoch, now) > h.stale_after_s
}

pub open spec fn is_healthy(h: HealthState, now: u64) -> bool {
    h.started && !is_stale(h, now)
}

pub open spec fn status_text(h: HealthState, now: u64) -> Seq<char> {
    if is_healthy(h, now) {
        "ok"@
    } else if !h.started {
        "starting"@
    } else {
        "stale"@
    }
}

/// The report of the endpoint.
pub open spec fn report_text(h: HealthState, now: u64) -> Seq<char> {
    "{\"status\":\""@ + status_text(h, now) + "\",\"uptime_s\":"@ + decimal(
        seconds_since(h.start_epoch, now),
    ) + ",\"active_sources\":"@ + decimal(h.active_sources as int) + ",\"events_emitted\":"@
        + decimal(h.events_emitted as int) + ",\"last_emit_age_s\":"@ + decimal(
        seconds_since(h.last_emit_epoch, now),
    ) + "}"@
}

/// The second of the clock, or 0 before 1970.
pub open spec fn epoch_second(secs: int) -> u64 {
    if secs >= 0 {
        secs as u64
    } else {
        0
    }
}

/// The present second.
pub fn now_epoch() -> (now: u64)
    ensures
        exists|secs: int| nameable(secs) && now == #[trigger] epoch_second(secs),
{
    let secs: i64 = Timestamp::now().secs();
    let now: u64 = if secs >= 0 {
        secs as u64
    } else {
        0
    };
    assert(now == epoch_second(secs as int));
    now
}

fn since(then: u64, now: u64) -> (secs: u64)
    ensures
        secs == seconds_since(then, now),
{
    if now >= then {
        now - then
    } else {
        0
    }
}

impl HealthState {
    /// A connector that starts now.
    pub fn new(stale_after_s: u64) -> (health: Self)
        ensures
            health == at_start(stale_after_s, health.start_epoch),
            exists|secs: int|
                nameable(secs) && health.start_epoch == #[trigger] epoch_second(secs),
    {
        HealthState::new_at(stale_after_s, now_epoch())
    }

    /// A connector that starts at the second `now`.
    pub fn new_at(stale_after_s: u64, now: u64) -> (health: Self)
        ensures
            health == at_start(stale_after_s, now),
    {
        HealthState {
            started: false,
            active_sources: 0,
            last_emit_epoch: now,
            events_emitted: 0,
            start_epoch: now,
            stale_after_s,
        }
    }

    /// The sources are wired.
    pub fn mark_started(&mut self, active_sources: u64)
        ensures
            *final(self) == (HealthState { started: true, active_sources, ..*old(self) }),
    {
        self.active_sources = active_sources;
        self.started = true;
    }

    /// An event was delivered.
    pub fn record_emit(&mut self)
        ensures
            *final(self) == after_emit(*old(self), final(self).last_emit_epoch),
            exists|secs: int|
                nameable(secs) && final(self).last_emit_epoch == #[trigger] epoch_second(secs),
    {
        self.record_emit_at(now_epoch());
    }

    /// An event was delivered at the second `now`.
    pub fn record_emit_at(&mut self, now: u64)
        ensures
            *final(self) == after_emit(*old(self), now),
    {
        self.last_emit_epoch = now;
        self.events_emitted = if self.events_emitted < 0xffff_ffff_ffff_ffff {
            self.events_emitted + 1
        } else {
            0
        };
    }

    /// Whether the connector is healthy at the second `now`, and the report.
    pub fn snapshot_at(&self, now: u64) -> (report: (bool, String))
        ensures
            report.0 == is_healthy(*self, now),
            report.1@ == report_text(*self, now),
    {
        let age: u64 = since(self.last_emit_epoch, now);
        let uptime: u64 = since(self.start_epoch, now);
        let stale: bool = self.stale_after_s > 0 && self.active_sources > 0 && age
            > self.stale_after_s;
        let healthy: bool = self.started && !stale;
        let status: &'static str = if healthy {
            "ok"
        } else if !self.started {
            "starting"
        } else {
            "stale"
        };
        let mut body: String = "{\"status\":\"".to_owned();
        body.append(status);
        body.append("\",\"uptime_s\":");
        body.append(u64_text(uptime).as_str());
        body.append(",\"active_sources\":");
        body.append(u64_text(self.active_sources).as_str());
        body.append(",\"events_emitted\":");
        body.append(u64_text(self.events_emitted).as_str());
        body.append(",\"last_emit_age_s\":");
        body.append(u64_text(age).as_str());
        body.append("}");
        (healthy, body)
    }

    /// Whether the connector is healthy now, and the report.
    pub fn snapshot(&self) -> (report: (bool, String))
        ensures
            exists|secs: int|
                {
                    &&& nameable(secs)
                    &&& report.0 == is_healthy(*self, epoch_second(secs))
                    &&& report.1@ == report_text(*self, #[trigger] epoch_second(secs))
                },
    {
        let now: u64 = now_epoch();
        self.snapshot_at(now)
    }
}

// ---------------------------------------------------------------------------
// Replies
// ---------------------------------------------------------------------------

/// The path of a request: the second word of it, or `/`.
pub open spec fn request_path(request: Seq<char>) -> Seq<char> {
    if words(request).len() > 1 {
        words(request)[1]
    } else {
        "/"@
    }
}

/// A reply with a JSON body.
pub open spec fn response_text(code: int, reason: Seq<char>, body: Seq<char>) -> Seq<char> {
    "HTTP/1.1 "@ + decimal(code) + " "@ + reason
        + "\r\nContent-Type: application/json\r\nContent-Length: "@ + decimal(
        encode_utf8(body).len() as int,
    ) + "\r\nConnection: close\r\n\r\n"@ + body
}

/// The reply to a request: the report under `/healthz`, with success where the
/// connector is healthy; under any other path there is nothing.
pub open spec fn reply_text(h: HealthState, request: Seq<char>, now: u64) -> Seq<char> {
    if "/healthz"@.is_prefix_of(request_path(request)) {
        if is_healthy(h, now) {
            response_text(200, "OK"@, report_text(h, now))
        } else {
            response_text(503, "Service Unavailable"@, report_text(h, now))
        }
    } else {
        response_text(404, "Not Found"@, "{\"status\":\"not_found\"}"@)
    }
}

fn path_of(request: &str) -> (path: String)
    ensures
        path@ == request_path(request@),
{
    let list: Vec<String> = words_of(request);
    if list.len() > 1 {
        assert(texts(list@)[1] == list@[1]@);
        list[1].clone()
    } else {
        "/".to_owned()
    }
}

fn response(code: u64, reason: &str, body: &str) -> (text: String)
    ensures
        text@ == response_text(code as int, reason@, body@),
{
    let len: usize = body.as_bytes().len();
    let mut text: String = "HTTP/1.1 ".to_owned();
    text.append(u64_text(code).as_str());
    text.append(" ");
    text.append(reason);
    text.append("\r\nContent-Type: application/json\r\nContent-Length: ");
    text.append(u64_text(len as u64).as_str());
    text.append("\r\nConnection: close\r\n\r\n");
    text.append(body);
    text
}

impl HealthState {
    /// The reply to a request at the second `now`.
    pub fn reply(&self, request: &str, now: u64) -> (text: String)
        ensures
            text@ == reply_text(*self, request@, now),
    {
        let path: String = path_of(request);
        if begins_with(path.as_str(), "/healthz") {
            let (healthy, body): (bool, String) = self.snapshot_at(now);
            if healthy {
                response(200, "OK", body.as_str())
            } else {
                response(503, "Service Unavailable", body.as_str())
            }
        } else {
            response(404, "Not Found", "{\"status\":\"not_found\"}")
        }
    }

    /// The reply to the bytes of a request at the second `now`.
    pub fn serve(&self, request: &[u8], now: u64) -> (text: String)
        ensures
            text@ == reply_text(*self, lossy(request@), now),
    {
        let read: String = lossy_text(request);
        self.reply(read.as_str(), now)
    }
}

/// The text of bytes, with a replacement character for what is no UTF-8.
pub uninterp spec fn lossy(bytes: Seq<u8>) -> Seq<char>;

/// `String::from_utf8_lossy`: the text depends on the bytes alone, and where
/// they are UTF-8 it is what they encode.
#[verifier::external_body]
fn lossy_text(bytes: &[u8]) -> (text: String)
    ensures
        text@ == lossy(bytes@),
        valid_utf8(bytes@) ==> text@ == decode_utf8(bytes@),
{
    String::from_utf8_lossy(bytes).into_owned()
}

// ---------------------------------------------------------------------------
// Laws
// ---------------------------------------------------------------------------

/// Until the sources are wired the connector is starting, and not healthy.
pub proof fn law_starting_until_wired(h: HealthState, now: u64)
    requires
        !h.started,
    ensures
        !is_healthy(h, now),
        status_text(h, now) == "starting"@,
{
}

/// A connector that is only pushed to, or that has no source, never goes stale.
pub proof fn law_no_cadence_never_stale(h: HealthState, now: u64)
    requires
        h.stale_after_s == 0 || h.active_sources == 0,
    ensures
        !is_stale(h, now),
        h.started ==> status_text(h, now) == "ok"@,
{
}

/// With a window and a source, the connector is stale exactly when no event was
/// delivered for longer than the window; before the first event the time since
/// the start counts.
pub proof fn law_stale_after_the_window(
    stale_after_s: u64,
    started_at: u64,
    active_sources: u64,
    now: u64,
)
    requires
        stale_after_s > 0,
        active_sources > 0,
        now >= started_at,
    ensures
        ({
            let h = HealthState {
                started: true,
                active_sources,
                ..at_start(stale_after_s, started_at)
            };
            is_stale(h, now) <==> now - started_at > stale_after_s
        }),
{
}

/// A delivered event makes a running connector healthy for the whole window.
pub proof fn law_emit_keeps_healthy(h: HealthState, at: u64, now: u64)
    requires
        h.started,
        now <= at + h.stale_after_s,
    ensures
        is_healthy(after_emit(h, at), now),
        status_text(after_emit(h, at), now) == "ok"@,
{
}

/// A running connector is healthy unless it has sources and a window and its last
/// event lies further back than the window.
pub proof fn law_when_healthy(h: HealthState, now: u64)
    ensures
        is_healthy(h, now) <==> h.started && (h.stale_after_s == 0 || h.active_sources == 0 || now
            <= h.last_emit_epoch + h.stale_after_s),
        status_text(h, now) == "ok"@ <==> is_healthy(h, now),
        status_text(h, now) == "starting"@ <==> !h.started,
        status_text(h, now) == "stale"@ <==> h.started && !is_healthy(h, now),
{
    reveal_strlit("ok");
    reveal_strlit("starting");
    reveal_strlit("stale");
    assert("ok"@.len() == 2 && "starting"@.len() == 8 && "stale"@.len() == 5);
}

/// The report names the status, how long the connector runs, its sources, the
/// events that it delivered and how long ago the last was, in this order.
pub proof fn law_report_says_how_it_is(h: HealthState, now: u64, uptime: int, age: int)
    requires
        uptime >= 0,
        age >= 0,
        now >= h.start_epoch ==> uptime == now - h.start_epoch,
        now < h.start_epoch ==> uptime == 0,
        now >= h.last_emit_epoch ==> age == now - h.last_emit_epoch,
        now < h.last_emit_epoch ==> age == 0,
    ensures
        ({
            let status = if !h.started {
                "starting"@
            } else if h.stale_after_s > 0 && h.active_sources > 0 && age > h.stale_after_s {
                "stale"@
            } else {
                "ok"@
            };
            report_text(h, now) == "{\"status\":\""@ + status + "\",\"uptime_s\":"@ + decimal(uptime)
                + ",\"active_sources\":"@ + decimal(h.active_sources as int)
                + ",\"events_emitted\":"@ + decimal(h.events_emitted as int)
                + ",\"last_emit_age_s\":"@ + decimal(age) + "}"@
        }),
{
}

/// The report is served under `/healthz` and under every path that begins so, with
/// success exactly where the connector is healthy; any other path is not found. The
/// path is the second word of the request, whatever the first is.
pub proof fn law_report_is_served_under_its_path(
    h: HealthState,
    method: Seq<char>,
    path: Seq<char>,
    rest: Seq<char>,
    now: u64,
)
    requires
        is_word(method),
        is_word(path),
    ensures
        ({
            let reply = reply_text(h, method + seq![' '] + path + seq![' '] + rest, now);
            let found = path.len() >= 8 && path.take(8) == "/healthz"@;
            let report = report_text(h, now);
            &&& found && is_healthy(h, now) ==> reply == response_text(200, "OK"@, report)
            &&& found && !is_healthy(h, now) ==> reply == response_text(
                503,
                "Service Unavailable"@,
                report,
            )
            &&& !found ==> reply == response_text(
                404,
                "Not Found"@,
                "{\"status\":\"not_found\"}"@,
            )
        }),
{
    let request = method + seq![' '] + path + seq![' '] + rest;
    let tail = path + seq![' '] + rest;
    assert(request =~= method + seq![' '] + tail);
    law_words_are_parted_by_space(method, ' ', tail);
    law_words_are_parted_by_space(path, ' ', rest);
    assert(words(request)[1] == path);
    reveal_strlit("/healthz");
    assert("/healthz"@.len() == 8);
    if "/healthz"@.is_prefix_of(path) {
        assert(path.take(8) =~= "/healthz"@);
    }
}

/// A request without a second word asks for no path that is known.
pub proof fn law_request_without_a_path(h: HealthState, request: Seq<char>, now: u64)
    requires
        words(request).len() <= 1,
    ensures
        reply_text(h, request, now) == response_text(
            404,
            "Not Found"@,
            "{\"status\":\"not_found\"}"@,
        ),
{
    reveal_strlit("/");
    reveal_strlit("/healthz");
    assert("/"@.len() == 1 && "/healthz"@.len() == 8);
}

/// A reply has its code and reason on its first line, says that it is JSON, how
/// many bytes its body has and that the connection ends, and then has the body.
pub proof fn law_form_of_a_reply(code: int, reason: Seq<char>, body: Seq<char>)
    ensures
        ({
            let text = response_text(code, reason, body);
            let head = "HTTP/1.1 "@ + decimal(code) + " "@ + reason
                + "\r\nContent-Type: application/json\r\nContent-Length: "@ + decimal(
                encode_utf8(body).len() as int,
            ) + "\r\nConnection: close\r\n\r\n"@;
            &&& text.take(head.len() as int) == head
            &&& text.skip(head.len() as int) == body
        }),
{
    let head = "HTTP/1.1 "@ + decimal(code) + " "@ + reason
        + "\r\nContent-Type: application/json\r\nContent-Length: "@ + decimal(
        encode_utf8(body).len() as int,
    ) + "\r\nConnection: close\r\n\r\n"@;
    assert((head + body).take(head.len() as int) =~= head);
    assert((head + body).skip(head.len() as int) =~= body);
}

/// A delivered event is counted and its time kept, and nothing else changes; a
/// connector starts with no event and with the start as the last time.
pub proof fn law_events_are_counted(h: HealthState, stale_after_s: u64, now: u64)
    ensures
        ({
            let after = after_emit(h, now);
            &&& after.last_emit_epoch == now
            &&& h.events_emitted < u64::MAX ==> after.events_emitted == h.events_emitted + 1
            &&& h.events_emitted == u64::MAX ==> after.events_emitted == 0
            &&& after.started == h.started
            &&& after.active_sources == h.active_sources
            &&& after.start_epoch == h.start_epoch
            &&& after.stale_after_s == h.stale_after_s
        }),
        ({
            let first = at_start(stale_after_s, now);
            &&& !first.started
            &&& first.active_sources == 0
            &&& first.events_emitted == 0
            &&& first.start_epoch == now
            &&& first.last_emit_epoch == now
            &&& first.stale_after_s == stale_after_s
        }),
{
}

/// Seconds since 1970 are counted as they are, and none before.
pub proof fn law_epoch_seconds(secs: int)
    requires
        nameable(secs),
    ensures
        secs >= 0 ==> epoch_second(secs) == secs,
        secs < 0 ==> epoch_second(secs) == 0,
{
}

/// The path of a request is its second word, however its words are parted: two
/// requests with the same second word get the same reply.
pub proof fn law_reply_goes_by_the_second_word(
    h: HealthState,
    one: Seq<char>,
    other: Seq<char>,
    now: u64,
)
    requires
        words(one).len() > 1,
        words(other).len() > 1,
        words(one)[1] == words(other)[1],
    ensures
        reply_text(h, one, now) == reply_text(h, other, now),
        request_path(one) == words(one)[1],
{
}

}
