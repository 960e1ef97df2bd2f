//! The socket sink: the wire format of analysisd, and one delivery as a machine
//! that retries, reconnects and at last spools.

use crate::document::printable;
use crate::event::{event_text, location, EventView, NormalizedEvent, SourceTag};
use crate::text::is_line;
use vstd::prelude::*;

verus! {

/// How often a delivery is tried while the queue is full.
pub const MAX_ATTEMPTS: u32 = 5;

/// Milliseconds of the first pause.
pub const FIRST_DELAY_MS: u64 = 25;

/// Milliseconds of the longest pause.
pub const LONGEST_DELAY_MS: u64 = 1000;

// ---------------------------------------------------------------------------
// The wire format
// ---------------------------------------------------------------------------

/// `1:<location>:<event>`, where `1` is the queue of what is collected locally.
pub open spec fn wire_text(e: EventView) -> Seq<char> {
    "1:"@ + location(e.slack.source) + ":"@ + event_text(e)
}

/// The text that analysisd is sent for an event. It fits on a line of its own.
pub fn wire_format(event: &NormalizedEvent) -> (text: String)
    ensures
        text@ == wire_text(event@),
        is_line(text@),
{
    let body: String = event.to_text();
    let tag: &'static str = event.slack.source.location_tag();
    let mut text: String = "1:".to_owned();
    text.append(tag);
    text.append(":");
    text.append(body.as_str());
    proof {
        lemma_wire_is_line(event@, body@);
    }
    text
}

proof fn lemma_wire_is_line(e: EventView, body: Seq<char>)
    requires
        printable(body),
        body == event_text(e),
    ensures
        is_line(wire_text(e)),
{
    reveal_strlit("1:");
    reveal_strlit(":");
    reveal_strlit("slack-audit");
    reveal_strlit("slack-events");
    reveal_strlit("slack-access");
    reveal_strlit("slack-inventory");
    let tag = location(e.slack.source);
    let text = wire_text(e);
    let head = "1:"@ + tag + ":"@;
    assert(printable(tag));
    assert(printable(text)) by {
        assert forall|i: int| 0 <= i < text.len() implies text[i] >= ' ' by {
            if i < 2 {
                assert(text[i] == "1:"@[i]);
            } else if i < 2 + tag.len() {
                assert(text[i] == tag[i - 2]);
            } else if i < head.len() {
                assert(text[i] == ':');
            } else {
                assert(text[i] == body[i - head.len()]);
            }
        }
    }
    assert(text[0] == '1');
    assert(text.len() > 0);
    assert(text.last() != '\r');
    assert(!text.contains('\n'));
}

// ---------------------------------------------------------------------------
// Errors of the socket
// ---------------------------------------------------------------------------

/// The queue of analysisd is full: the call would block, or the system says
/// `again`, the code for it.
pub open spec fn queue_full(would_block: bool, os_code: Option<i32>, again: i32) -> bool {
    would_block || os_code == Some(again)
}

/// Whether an error says that the queue is full, on a system with the code
/// `again`.
pub fn is_queue_full_code(would_block: bool, os_code: Option<i32>, again: i32) -> (full: bool)
    ensures
        full == queue_full(would_block, os_code, again),
{
    would_block || match os_code {
        Some(code) => code == again,
        None => false,
    }
}

/// Whether an error of this system says that the queue is full.
pub fn is_queue_full(would_block: bool, os_code: Option<i32>) -> (full: bool)
    ensures
        exists|again: i32| full == #[trigger] queue_full(would_block, os_code, again),
{
    let again: i32 = eagain();
    is_queue_full_code(would_block, os_code, again)
}

/// `libc::EAGAIN`, the code of this system. Which number it is differs between
/// systems and is left unsaid.
#[verifier::external_body]
fn eagain() -> (code: i32) {
    libc::EAGAIN
}

// ---------------------------------------------------------------------------
// Delivery
// ---------------------------------------------------------------------------

/// Where a delivery stands.
#[derive(Debug, Clone, Copy, PartialEq, Eq, Structural)]
pub enum DeliveryPhase {
    /// The text is being sent.
    Sending,
    /// A new connection is being made in place of the stale one.
    Reconnecting,
    /// The text is being sent over the new connection.
    Resending,
    /// A pause, as the queue is full.
    Sleeping,
    /// The text is being spooled.
    Spooling,
    /// The delivery is over.
    Over,
}

/// What happened.
#[derive(Debug, Clone, Copy, PartialEq, Eq, Structural)]
pub enum DeliveryInput {
    /// The text was sent, the connection was made, or the text was spooled.
    Success,
    /// It failed, and the error says whether the queue is full.
    Failed { full: bool },
    /// The pause is over.
    Waited,
}

/// What to do next.
#[derive(Debug, Clone, Copy, PartialEq, Eq, Structural)]
pub enum DeliveryAction {
    Send,
    Reconnect,
    /// Pause for so many milliseconds.
    Sleep(u64),
    Spool,
    /// The text was sent or spooled.
    Done,
    /// The text could be neither sent nor spooled.
    Fail(DeliveryError),
}

/// Why an event was not delivered.
#[derive(Debug, Clone, Copy, PartialEq, Eq, Structural)]
pub enum DeliveryError {
    /// The sink is unavailable and no spool is configured.
    NoSpool,
    /// The spool did not take the text.
    SpoolFailed,
}

impl DeliveryError {
    /// The message for the operator.
    pub fn message(&self) -> (text: &'static str)
        ensures
            text@ == (match self {
                DeliveryError::NoSpool => "sink unavailable and no spool configured"@,
                DeliveryError::SpoolFailed => "spool write failed"@,
            }),
    {
        match self {
            DeliveryError::NoSpool => "sink unavailable and no spool configured",
            DeliveryError::SpoolFailed => "spool write failed",
        }
    }
}

/// One delivery.
#[derive(Debug, Clone, Copy, PartialEq, Eq, Structural)]
pub struct Delivery {
    pub phase: DeliveryPhase,
    /// The number of the attempt, from 1.
    pub attempt: u32,
    /// The milliseconds of the next pause.
    pub delay_ms: u64,
    /// Whether there is a spool.
    pub has_spool: bool,
}

/// A delivery in a state that can come up.
pub open spec fn delivery_valid(d: Delivery) -> bool {
    &&& 1 <= d.attempt <= MAX_ATTEMPTS
    &&& FIRST_DELAY_MS <= d.delay_ms <= LONGEST_DELAY_MS
}

/// The pause that follows a pause of `ms`.
pub open spec fn longer_delay(ms: int) -> int {
    if 2 * ms < LONGEST_DELAY_MS {
        2 * ms
    } else {
        LONGEST_DELAY_MS as int
    }
}

/// Spool, where there is a spool.
pub open spec fn spool(d: Delivery) -> (Delivery, DeliveryAction) {
    if d.has_spool {
        (Delivery { phase: DeliveryPhase::Spooling, ..d }, DeliveryAction::Spool)
    } else {
        (
            Delivery { phase: DeliveryPhase::Over, ..d },
            DeliveryAction::Fail(DeliveryError::NoSpool),
        )
    }
}

/// The attempt failed: where the queue is full pause, else spool.
pub open spec fn attempt_failed(d: Delivery, full: bool) -> (Delivery, DeliveryAction) {
    if full {
        (
            Delivery {
                phase: DeliveryPhase::Sleeping,
                delay_ms: longer_delay(d.delay_ms as int) as u64,
                ..d
            },
            DeliveryAction::Sleep(d.delay_ms),
        )
    } else {
        spool(d)
    }
}

pub open spec fn delivered_or_spooled(d: Delivery) -> (Delivery, DeliveryAction) {
    (Delivery { phase: DeliveryPhase::Over, ..d }, DeliveryAction::Done)
}

/// The delivery and what it does after an input. A first failure that is not a
/// full queue leads to one new connection; after the last attempt, and after a
/// failure on the new connection, the text is spooled.
pub open spec fn next_delivery(d: Delivery, input: DeliveryInput) -> (Delivery, DeliveryAction) {
    match (d.phase, input) {
        (DeliveryPhase::Sending, DeliveryInput::Success) => delivered_or_spooled(d),
        (DeliveryPhase::Sending, DeliveryInput::Failed { full }) => if full {
            attempt_failed(d, true)
        } else {
            (
                Delivery { phase: DeliveryPhase::Reconnecting, ..d },
                DeliveryAction::Reconnect,
            )
        },
        (DeliveryPhase::Reconnecting, DeliveryInput::Success) => (
            Delivery { phase: DeliveryPhase::Resending, ..d },
            DeliveryAction::Send,
        ),
        (DeliveryPhase::Reconnecting, DeliveryInput::Failed { full }) => attempt_failed(d, full),
        (DeliveryPhase::Resending, DeliveryInput::Success) => delivered_or_spooled(d),
        (DeliveryPhase::Resending, DeliveryInput::Failed { full }) => attempt_failed(d, full),
        (DeliveryPhase::Sleeping, DeliveryInput::Waited) => if d.attempt < MAX_ATTEMPTS {
            (
                Delivery {
                    phase: DeliveryPhase::Sending,
                    attempt: (d.attempt + 1) as u32,
                    ..d
                },
                DeliveryAction::Send,
            )
        } else {
            spool(d)
        },
        (DeliveryPhase::Spooling, DeliveryInput::Success) => delivered_or_spooled(d),
        _ => (
            Delivery { phase: DeliveryPhase::Over, ..d },
            DeliveryAction::Fail(DeliveryError::SpoolFailed),
        ),
    }
}

impl Delivery {
    /// Begin a delivery.
    pub fn new(has_spool: bool) -> (begun: (Delivery, DeliveryAction))
        ensures
            begun.0 == (Delivery {
                phase: DeliveryPhase::Sending,
                attempt: 1,
                delay_ms: FIRST_DELAY_MS,
                has_spool,
            }),
            begun.1 == DeliveryAction::Send,
            delivery_valid(begun.0),
    {
        (
            Delivery {
                phase: DeliveryPhase::Sending,
                attempt: 1,
                delay_ms: FIRST_DELAY_MS,
                has_spool,
            },
            DeliveryAction::Send,
        )
    }

    fn spool(&mut self) -> (action: DeliveryAction)
        ensures
            (*final(self), action) == spool(*old(self)),
    {
        if self.has_spool {
            self.phase = DeliveryPhase::Spooling;
            DeliveryAction::Spool
        } else {
            self.phase = DeliveryPhase::Over;
            DeliveryAction::Fail(DeliveryError::NoSpool)
        }
    }

    fn attempt_failed(&mut self, full: bool) -> (action: DeliveryAction)
        ensures
            (*final(self), action) == attempt_failed(*old(self), full),
    {
        if full {
            let delay: u64 = self.delay_ms;
            self.delay_ms = if delay < LONGEST_DELAY_MS / 2 {
                2 * delay
            } else {
                LONGEST_DELAY_MS
            };
            self.phase = DeliveryPhase::Sleeping;
            DeliveryAction::Sleep(delay)
        } else {
            self.spool()
        }
    }

    /// Go on after `input`.
    pub fn step(&mut self, input: DeliveryInput) -> (action: DeliveryAction)
        ensures
            (*final(self), action) == next_delivery(*old(self), input),
    {
        match (self.phase, input) {
            (DeliveryPhase::Sending, DeliveryInput::Success) => {
                self.phase = DeliveryPhase::Over;
                DeliveryAction::Done
            },
            (DeliveryPhase::Sending, DeliveryInput::Failed { full }) => {
                if full {
                    self.attempt_failed(true)
                } else {
                    self.phase = DeliveryPhase::Reconnecting;
                    DeliveryAction::Reconnect
                }
            },
            (DeliveryPhase::Reconnecting, DeliveryInput::Success) => {
                self.phase = DeliveryPhase::Resending;
                DeliveryAction::Send
            },
            (DeliveryPhase::Reconnecting, DeliveryInput::Failed { full }) => self.attempt_failed(
                full,
            ),
            (DeliveryPhase::Resending, DeliveryInput::Success) => {
                self.phase = DeliveryPhase::Over;
                DeliveryAction::Done
            },
            (DeliveryPhase::Resending, DeliveryInput::Failed { full }) => self.attempt_failed(full),
            (DeliveryPhase::Sleeping, DeliveryInput::Waited) => {
                if self.attempt < MAX_ATTEMPTS {
                    self.attempt = self.attempt + 1;
                    self.phase = DeliveryPhase::Sending;
                    DeliveryAction::Send
                } else {
                    self.spool()
                }
            },
            (DeliveryPhase::Spooling, DeliveryInput::Success) => {
                self.phase = DeliveryPhase::Over;
                DeliveryAction::Done
            },
            _ => {
                self.phase = DeliveryPhase::Over;
                DeliveryAction::Fail(DeliveryError::SpoolFailed)
            },
        }
    }
}

// ---------------------------------------------------------------------------
// Laws
// ---------------------------------------------------------------------------

/// A delivery is done only where the text was sent or spooled, and with a spool
/// a failure to send always leads to the spool: nothing is dropped in silence.
pub proof fn law_sent_or_spooled(d: Delivery, input: DeliveryInput)
    ensures
        ({
            let (after, action) = next_delivery(d, input);
            &&& action == DeliveryAction::Done <==> input == DeliveryInput::Success && (d.phase
                == DeliveryPhase::Sending || d.phase == DeliveryPhase::Resending || d.phase
                == DeliveryPhase::Spooling)
            &&& action == DeliveryAction::Fail(DeliveryError::NoSpool) ==> !d.has_spool
            &&& after.has_spool == d.has_spool
            &&& d.has_spool && d.phase == DeliveryPhase::Resending && input == (
            DeliveryInput::Failed { full: false }) ==> action == DeliveryAction::Spool
            &&& d.has_spool && d.phase == DeliveryPhase::Reconnecting && input == (
            DeliveryInput::Failed { full: false }) ==> action == DeliveryAction::Spool
            &&& d.has_spool && d.phase == DeliveryPhase::Sleeping && input == DeliveryInput::Waited
                && d.attempt == MAX_ATTEMPTS ==> action == DeliveryAction::Spool
        }),
{
}

/// A delivery stays within its attempts and its pauses.
pub proof fn law_attempts_are_bounded(d: Delivery, input: DeliveryInput)
    requires
        delivery_valid(d),
    ensures
        ({
            let (after, action) = next_delivery(d, input);
            &&& delivery_valid(after)
            &&& d.attempt <= after.attempt
            &&& action matches DeliveryAction::Sleep(ms) ==> FIRST_DELAY_MS <= ms
                <= LONGEST_DELAY_MS
            &&& action == DeliveryAction::Send && after.phase == DeliveryPhase::Sending
                ==> after.attempt == d.attempt + 1
        }),
{
}

/// The number of inputs that a delivery can still take before it is over.
pub open spec fn inputs_left(d: Delivery) -> int {
    let rounds = 4 * (MAX_ATTEMPTS - d.attempt);
    match d.phase {
        DeliveryPhase::Sending => rounds + 5,
        DeliveryPhase::Reconnecting => rounds + 4,
        DeliveryPhase::Resending => rounds + 3,
        DeliveryPhase::Sleeping => rounds + 2,
        DeliveryPhase::Spooling => 1,
        DeliveryPhase::Over => 0,
    }
}

/// Every delivery comes to an end: each input brings it nearer.
pub proof fn law_delivery_ends(d: Delivery, input: DeliveryInput)
    requires
        delivery_valid(d),
        d.phase != DeliveryPhase::Over,
    ensures
        ({
            let (after, action) = next_delivery(d, input);
            &&& 0 <= inputs_left(after) < inputs_left(d)
            &&& after.phase == DeliveryPhase::Over <==> action == DeliveryAction::Done
                || action is Fail
        }),
{
}

/// While the queue stays full, the pauses are 25, 50, 100, 200 and 400
/// milliseconds, and then the text is spooled.
pub proof fn law_pauses_of_a_full_queue(d: Delivery)
    requires
        d.phase == DeliveryPhase::Sending,
        1 <= d.attempt <= MAX_ATTEMPTS,
        d.delay_ms == full_queue_delay(d.attempt as nat),
    ensures
        ({
            let (asleep, action) = next_delivery(d, DeliveryInput::Failed { full: true });
            let (after, next) = next_delivery(asleep, DeliveryInput::Waited);
            &&& action == DeliveryAction::Sleep(full_queue_delay(d.attempt as nat) as u64)
            &&& d.attempt < MAX_ATTEMPTS ==> {
                &&& next == DeliveryAction::Send
                &&& after.phase == DeliveryPhase::Sending
                &&& after.attempt == d.attempt + 1
                &&& after.delay_ms == full_queue_delay(after.attempt as nat)
            }
            &&& d.attempt == MAX_ATTEMPTS && d.has_spool ==> next == DeliveryAction::Spool
        }),
{
    reveal_with_fuel(full_queue_delay, 7);
}

/// The pause after the attempt with the number `attempt`.
pub open spec fn full_queue_delay(attempt: nat) -> int
    decreases attempt,
{
    if attempt <= 1 {
        FIRST_DELAY_MS as int
    } else {
        2 * full_queue_delay((attempt - 1) as nat)
    }
}

/// What analysisd is sent begins with its local queue and the name of the source,
/// and ends with the event as it is written.
pub proof fn law_wire_names_the_source(e: EventView)
    ensures
        e.slack.source == SourceTag::Audit ==> wire_text(e) == "1:slack-audit:"@ + event_text(e),
        e.slack.source == SourceTag::Events ==> wire_text(e) == "1:slack-events:"@ + event_text(e),
        e.slack.source == SourceTag::AccessLogs ==> wire_text(e) == "1:slack-access:"@ + event_text(
            e,
        ),
        e.slack.source == SourceTag::WebInventory ==> wire_text(e) == "1:slack-inventory:"@
            + event_text(e),
{
    reveal_strlit("1:");
    reveal_strlit(":");
    reveal_strlit("slack-audit");
    reveal_strlit("slack-events");
    reveal_strlit("slack-access");
    reveal_strlit("slack-inventory");
    reveal_strlit("1:slack-audit:");
    reveal_strlit("1:slack-events:");
    reveal_strlit("1:slack-access:");
    reveal_strlit("1:slack-inventory:");
    let text = event_text(e);
    assert("1:"@ + "slack-audit"@ + ":"@ =~= "1:slack-audit:"@);
    assert("1:"@ + "slack-events"@ + ":"@ =~= "1:slack-events:"@);
    assert("1:"@ + "slack-access"@ + ":"@ =~= "1:slack-access:"@);
    assert("1:"@ + "slack-inventory"@ + ":"@ =~= "1:slack-inventory:"@);
}

/// The queue is full exactly where the call would block or the system gives the
/// code for it.
pub proof fn law_full_queue_is_told(would_block: bool, code: i32, again: i32)
    ensures
        queue_full(true, Some(code), again),
        queue_full(true, None, again),
        queue_full(would_block, Some(again), again),
        !queue_full(false, None, again),
        code != again ==> !queue_full(false, Some(code), again),
{
}

/// A broken connection is replaced once, and the text sent again over the new one;
/// only where that fails too is the text spooled.
pub proof fn law_one_new_connection(d: Delivery)
    requires
        d.phase == DeliveryPhase::Sending,
    ensures
        ({
            let (broken, action) = next_delivery(d, DeliveryInput::Failed { full: false });
            let (again, then) = next_delivery(broken, DeliveryInput::Success);
            let given_up = if d.has_spool {
                DeliveryAction::Spool
            } else {
                DeliveryAction::Fail(DeliveryError::NoSpool)
            };
            &&& action == DeliveryAction::Reconnect
            &&& then == DeliveryAction::Send
            &&& next_delivery(again, DeliveryInput::Success).1 == DeliveryAction::Done
            &&& next_delivery(broken, DeliveryInput::Failed { full: false }).1 == given_up
            &&& next_delivery(again, DeliveryInput::Failed { full: false }).1 == given_up
            &&& again.attempt == d.attempt
            &&& again.delay_ms == d.delay_ms
            &&& again.has_spool == d.has_spool
        }),
{
}

/// A full queue is waited out at whichever point it shows: as long as is due, twice
/// as long the next time, a second at most. After the pause the text is sent anew,
/// five times in all, and then spooled.
pub proof fn law_full_queue_is_waited_out(d: Delivery)
    requires
        1 <= d.attempt <= 5,
        1 <= d.delay_ms <= 1000,
        d.phase == DeliveryPhase::Sending || d.phase == DeliveryPhase::Reconnecting || d.phase
            == DeliveryPhase::Resending,
    ensures
        ({
            let (asleep, action) = next_delivery(d, DeliveryInput::Failed { full: true });
            let (after, next) = next_delivery(asleep, DeliveryInput::Waited);
            &&& action == DeliveryAction::Sleep(d.delay_ms)
            &&& asleep.delay_ms == (if d.delay_ms <= 500 {
                2 * d.delay_ms
            } else {
                1000
            })
            &&& after.delay_ms == asleep.delay_ms
            &&& after.has_spool == d.has_spool
            &&& d.attempt < 5 ==> {
                &&& next == DeliveryAction::Send
                &&& after.phase == DeliveryPhase::Sending
                &&& after.attempt == d.attempt + 1
            }
            &&& d.attempt == 5 ==> next == (if d.has_spool {
                DeliveryAction::Spool
            } else {
                DeliveryAction::Fail(DeliveryError::NoSpool)
            })
        }),
{
}

/// A delivery that spools is done where the spool took the text, and fails where it
/// did not.
pub proof fn law_spool_decides(d: Delivery, full: bool)
    requires
        d.phase == DeliveryPhase::Spooling,
    ensures
        next_delivery(d, DeliveryInput::Success).1 == DeliveryAction::Done,
        next_delivery(d, DeliveryInput::Failed { full }).1 == DeliveryAction::Fail(
            DeliveryError::SpoolFailed,
        ),
{
}

/// The pauses of a full queue by their attempts.
pub proof fn law_delays_of_a_full_queue()
    ensures
        full_queue_delay(1) == 25,
        full_queue_delay(2) == 50,
        full_queue_delay(3) == 100,
        full_queue_delay(4) == 200,
        full_queue_delay(5) == 400,
        FIRST_DELAY_MS == 25,
        LONGEST_DELAY_MS == 1000,
        MAX_ATTEMPTS == 5,
{
    reveal_with_fuel(full_queue_delay, 6);
}

}
