//! The spool: segments of an hour each, filled while analysisd cannot be
//! reached, and one replay of them as a machine.

use crate::clock::{in_earlier_hour, stamp_text, InstantView, StampForm, Timestamp};
use crate::json_file::{bytes_of_mb, megabytes};
use crate::order::{before, sort, sorted};
use crate::text::{
    full_lines, full_lines_of, is_line, law_lines_read_back, lemma_unlines_push, same_text, texts,
    unlines, unlines_from,
};
use vstd::prelude::*;

verus! {

/// Seconds between two replays.
pub const REPLAY_SECONDS: u64 = 30;

// ---------------------------------------------------------------------------
// Segments
// ---------------------------------------------------------------------------

/// The name of the segment of an hour.
pub open spec fn segment_text(t: InstantView) -> Seq<char> {
    stamp_text(t, StampForm::Hour) + ".ndjson"@
}

proof fn lemma_before_goes_on(a: Seq<char>, b: Seq<char>, tail: Seq<char>)
    requires
        before(a, b),
        a.len() == b.len(),
    ensures
        before(a + tail, b + tail),
    decreases a.len(),
{
    assert((a + tail)[0] == a[0] && (b + tail)[0] == b[0]);
    if a[0] == b[0] {
        lemma_before_goes_on(a.skip(1), b.skip(1), tail);
        assert((a + tail).skip(1) =~= a.skip(1) + tail);
        assert((b + tail).skip(1) =~= b.skip(1) + tail);
    }
}

/// The name of the segment that an event at `now` goes to. The segments of
/// earlier hours come before it.
pub fn segment_name(now: Timestamp) -> (name: String)
    ensures
        name@ == segment_text(now@),
        forall|earlier: InstantView|
            in_earlier_hour(earlier, now@) ==> before(#[trigger] segment_text(earlier), name@),
{
    let stamp: String = now.stamp(StampForm::Hour);
    let mut name: String = stamp.clone();
    name.append(".ndjson");
    proof {
        assert forall|earlier: InstantView| in_earlier_hour(earlier, now@) implies before(
            #[trigger] segment_text(earlier),
            name@,
        ) by {
            let early = stamp_text(earlier, StampForm::Hour);
            assert(before(early, stamp@));
            lemma_before_goes_on(early, stamp@, ".ndjson"@);
        }
    }
    name
}

/// What is added to a segment for a text: the text and a line feed.
pub fn spool_line(payload: &str) -> (line: String)
    ensures
        line@ == payload@.push('\n'),
{
    let mut line: String = payload.to_owned();
    line.push('\n');
    line
}

/// Whether a segment of `len` bytes is larger than `max_mb` megabytes.
pub fn over_cap(len: u64, max_mb: u64) -> (over: bool)
    ensures
        over == (len > megabytes(max_mb as int)),
{
    len > bytes_of_mb(max_mb)
}

/// A file name with the extension `ndjson`: something, a dot and the extension.
pub open spec fn is_segment(name: Seq<char>) -> bool {
    name.len() > 7 && name.skip(name.len() - 7) == ".ndjson"@
}

/// Whether a file is a segment.
pub fn has_segment_name(name: &str) -> (is: bool)
    ensures
        is == is_segment(name@),
{
    let len: usize = name.unicode_len();
    if len <= 7 {
        return false;
    }
    let tail: &str = name.substring_char(len - 7, len);
    assert(tail@ == name@.skip(len - 7));
    same_text(tail, ".ndjson")
}

/// The segments among the files of the spool, the oldest first.
pub fn segments_in_order(names: Vec<String>) -> (segments: Vec<String>)
    ensures
        sorted(texts(segments@)),
        texts(segments@).to_multiset() == texts(names@).filter(
            |n: Seq<char>| is_segment(n),
        ).to_multiset(),
{
    let mut kept: Vec<String> = Vec::new();
    let ghost all = texts(names@);
    let ghost keep = |n: Seq<char>| is_segment(n);
    let mut i: usize = 0;
    assert(texts(kept@) =~= all.take(0).filter(keep)) by {
        reveal_with_fuel(Seq::filter, 1);
    }
    while i < names.len()
        invariant
            i <= names@.len(),
            all == texts(names@),
            keep == (|n: Seq<char>| is_segment(n)),
            texts(kept@) == all.take(i as int).filter(keep),
        decreases names@.len() - i,
    {
        let ghost so_far = kept@;
        proof {
            let next = all.take(i + 1);
            assert(next.drop_last() =~= all.take(i as int));
            assert(next.last() == names@[i as int]@);
            reveal_with_fuel(Seq::filter, 2);
        }
        if has_segment_name(names[i].as_str()) {
            kept.push(names[i].clone());
            assert(texts(kept@) =~= texts(so_far).push(names@[i as int]@));
        }
        i = i + 1;
    }
    assert(all.take(i as int) =~= all);
    sort(kept)
}

// ---------------------------------------------------------------------------
// The machine
// ---------------------------------------------------------------------------

/// Where a replay stands.
#[derive(Debug, Clone, Copy, PartialEq, Eq, Structural)]
pub enum ReplayPhase {
    /// A segment is being read.
    Reading,
    /// The first line that is left is being sent.
    Sending,
    /// A new connection is being made in place of the stale one.
    Reconnecting,
    /// The line is being sent over the new connection.
    Resending,
    /// What is left of the segment is being written back.
    WritingBack,
    /// The segment is being removed.
    Removing,
    /// The replay is over.
    Over,
}

pub struct ReplayView {
    pub phase: ReplayPhase,
    /// The segments that are left, the one at work first.
    pub segments: Seq<Seq<char>>,
    /// The lines of the segment at work that are left.
    pub lines: Seq<Seq<char>>,
}

/// What happened.
#[derive(Debug)]
pub enum ReplayInput {
    /// The segment holds this.
    Content(String),
    /// The line was sent, the connection was made, or the file was changed.
    Success,
    /// It failed; for the socket the error says whether the queue is full.
    Failed { full: bool },
}

pub enum ReplayInputView {
    Content(Seq<char>),
    Success,
    Failed { full: bool },
}

/// What to do next.
#[derive(Debug)]
pub enum ReplayAction {
    /// Read the segment.
    Read(String),
    /// Send the line.
    Send(String),
    Reconnect,
    /// Write the text to the segment in place of what it holds.
    WriteBack { name: String, text: String },
    /// Remove the segment.
    Remove(String),
    /// Every segment was replayed.
    Finish,
    Fail(ReplayError),
}

pub enum ReplayActionView {
    Read(Seq<char>),
    Send(Seq<char>),
    Reconnect,
    WriteBack { name: Seq<char>, text: Seq<char> },
    Remove(Seq<char>),
    Finish,
    Fail(ReplayError),
}

/// Why a replay came to a halt.
#[derive(Debug, Clone, Copy, PartialEq, Eq, Structural)]
pub enum ReplayError {
    /// A line could not be sent; what is left is in the segment.
    Interrupted,
    /// A segment could not be read, written or removed.
    File,
}

impl View for ReplayInput {
    type V = ReplayInputView;

    open spec fn view(&self) -> ReplayInputView {
        match self {
            ReplayInput::Content(text) => ReplayInputView::Content(text@),
            ReplayInput::Success => ReplayInputView::Success,
            ReplayInput::Failed { full } => ReplayInputView::Failed { full: *full },
        }
    }
}

impl View for ReplayAction {
    type V = ReplayActionView;

    open spec fn view(&self) -> ReplayActionView {
        match self {
            ReplayAction::Read(name) => ReplayActionView::Read(name@),
            ReplayAction::Send(line) => ReplayActionView::Send(line@),
            ReplayAction::Reconnect => ReplayActionView::Reconnect,
            ReplayAction::WriteBack { name, text } => ReplayActionView::WriteBack {
                name: name@,
                text: text@,
            },
            ReplayAction::Remove(name) => ReplayActionView::Remove(name@),
            ReplayAction::Finish => ReplayActionView::Finish,
            ReplayAction::Fail(error) => ReplayActionView::Fail(*error),
        }
    }
}

pub open spec fn halt(s: ReplayView, error: ReplayError) -> (ReplayView, ReplayActionView) {
    (ReplayView { phase: ReplayPhase::Over, ..s }, ReplayActionView::Fail(error))
}

/// Read the next segment, where there is one.
pub open spec fn next_segment(s: ReplayView) -> (ReplayView, ReplayActionView) {
    if s.segments.len() > 0 {
        (
            ReplayView { phase: ReplayPhase::Reading, lines: seq![], ..s },
            ReplayActionView::Read(s.segments[0]),
        )
    } else {
        (ReplayView { phase: ReplayPhase::Over, ..s }, ReplayActionView::Finish)
    }
}

/// Send the next line, or remove the segment behind its last.
pub open spec fn next_line(s: ReplayView) -> (ReplayView, ReplayActionView) {
    if s.segments.len() == 0 {
        halt(s, ReplayError::File)
    } else if s.lines.len() > 0 {
        (
            ReplayView { phase: ReplayPhase::Sending, ..s },
            ReplayActionView::Send(s.lines[0]),
        )
    } else {
        (
            ReplayView { phase: ReplayPhase::Removing, ..s },
            ReplayActionView::Remove(s.segments[0]),
        )
    }
}

/// The first line that is left was sent.
pub open spec fn line_sent(s: ReplayView) -> (ReplayView, ReplayActionView) {
    if s.lines.len() > 0 {
        next_line(ReplayView { lines: s.lines.skip(1), ..s })
    } else {
        halt(s, ReplayError::File)
    }
}

/// The line could not be sent: write back what is left, that line first.
pub open spec fn interrupt(s: ReplayView) -> (ReplayView, ReplayActionView) {
    if s.segments.len() == 0 {
        halt(s, ReplayError::File)
    } else {
        (
            ReplayView { phase: ReplayPhase::WritingBack, ..s },
            ReplayActionView::WriteBack { name: s.segments[0], text: unlines(s.lines) },
        )
    }
}

/// The replay and what it does after an input.
pub open spec fn next_replay_step(s: ReplayView, input: ReplayInputView) -> (
    ReplayView,
    ReplayActionView,
) {
    match (s.phase, input) {
        (ReplayPhase::Reading, ReplayInputView::Content(text)) => next_line(
            ReplayView { lines: full_lines(text), ..s },
        ),
        (ReplayPhase::Sending, ReplayInputView::Success) => line_sent(s),
        (ReplayPhase::Sending, ReplayInputView::Failed { full }) => if full {
            interrupt(s)
        } else {
            (
                ReplayView { phase: ReplayPhase::Reconnecting, ..s },
                ReplayActionView::Reconnect,
            )
        },
        (ReplayPhase::Reconnecting, ReplayInputView::Success) => if s.lines.len() > 0 {
            (
                ReplayView { phase: ReplayPhase::Resending, ..s },
                ReplayActionView::Send(s.lines[0]),
            )
        } else {
            halt(s, ReplayError::File)
        },
        (ReplayPhase::Reconnecting, ReplayInputView::Failed { full }) => interrupt(s),
        (ReplayPhase::Resending, ReplayInputView::Success) => line_sent(s),
        (ReplayPhase::Resending, ReplayInputView::Failed { full }) => interrupt(s),
        (ReplayPhase::WritingBack, ReplayInputView::Success) => halt(
            s,
            ReplayError::Interrupted,
        ),
        (ReplayPhase::Removing, ReplayInputView::Success) => if s.segments.len() > 0 {
            next_segment(ReplayView { segments: s.segments.skip(1), ..s })
        } else {
            halt(s, ReplayError::File)
        },
        _ => halt(s, ReplayError::File),
    }
}

// ---------------------------------------------------------------------------
// The code
// ---------------------------------------------------------------------------

/// One replay of the spool.
#[derive(Debug)]
pub struct Replay {
    phase: ReplayPhase,
    segments: Vec<String>,
    segment: usize,
    lines: Vec<String>,
    line: usize,
}

/// The texts of a list from an index on.
pub open spec fn texts_from(list: Seq<String>, at: int) -> Seq<Seq<char>> {
    if 0 <= at <= list.len() {
        texts(list).skip(at)
    } else {
        seq![]
    }
}

impl View for Replay {
    type V = ReplayView;

    closed spec fn view(&self) -> ReplayView {
        ReplayView {
            phase: self.phase,
            segments: texts_from(self.segments@, self.segment as int),
            lines: texts_from(self.lines@, self.line as int),
        }
    }
}

impl Replay {
    /// Begin a replay of the segments among `names`, the oldest first.
    pub fn begin(names: Vec<String>) -> (begun: (Replay, ReplayAction))
        ensures
            exists|segments: Seq<Seq<char>>|
                {
                    &&& sorted(segments)
                    &&& segments.to_multiset() == texts(names@).filter(
                        |n: Seq<char>| is_segment(n),
                    ).to_multiset()
                    &&& (begun.0@, begun.1@) == #[trigger] next_segment(
                        ReplayView { phase: ReplayPhase::Over, segments, lines: seq![] },
                    )
                },
    {
        let segments: Vec<String> = segments_in_order(names);
        let ghost order = texts(segments@);
        let mut replay: Replay = Replay {
            phase: ReplayPhase::Over,
            segments,
            segment: 0,
            lines: Vec::new(),
            line: 0,
        };
        assert(replay@.segments =~= order);
        assert(replay@.lines =~= Seq::<Seq<char>>::empty());
        let action: ReplayAction = replay.next_segment();
        assert((replay@, action@) == next_segment(
            ReplayView { phase: ReplayPhase::Over, segments: order, lines: seq![] },
        ));
        (replay, action)
    }

    fn halt(&mut self, error: ReplayError) -> (action: ReplayAction)
        ensures
            (final(self)@, action@) == halt(old(self)@, error),
    {
        self.phase = ReplayPhase::Over;
        ReplayAction::Fail(error)
    }

    fn next_segment(&mut self) -> (action: ReplayAction)
        ensures
            (final(self)@, action@) == next_segment(old(self)@),
    {
        if self.segment < self.segments.len() {
            self.phase = ReplayPhase::Reading;
            self.lines = Vec::new();
            self.line = 0;
            assert(self@.lines =~= Seq::<Seq<char>>::empty());
            ReplayAction::Read(self.segments[self.segment].clone())
        } else {
            self.phase = ReplayPhase::Over;
            ReplayAction::Finish
        }
    }

    fn next_line(&mut self) -> (action: ReplayAction)
        ensures
            (final(self)@, action@) == next_line(old(self)@),
    {
        if self.segment >= self.segments.len() {
            return self.halt(ReplayError::File);
        }
        if self.line < self.lines.len() {
            self.phase = ReplayPhase::Sending;
            ReplayAction::Send(self.lines[self.line].clone())
        } else {
            self.phase = ReplayPhase::Removing;
            ReplayAction::Remove(self.segments[self.segment].clone())
        }
    }

    fn line_sent(&mut self) -> (action: ReplayAction)
        ensures
            (final(self)@, action@) == line_sent(old(self)@),
    {
        if self.line < self.lines.len() {
            assert(self@.lines.skip(1) =~= texts_from(self.lines@, self.line + 1));
            self.line = self.line + 1;
            self.next_line()
        } else {
            self.halt(ReplayError::File)
        }
    }

    fn interrupt(&mut self) -> (action: ReplayAction)
        ensures
            (final(self)@, action@) == interrupt(old(self)@),
    {
        if self.segment >= self.segments.len() {
            return self.halt(ReplayError::File);
        }
        self.phase = ReplayPhase::WritingBack;
        let text: String = if self.line <= self.lines.len() {
            unlines_from(&self.lines, self.line)
        } else {
            String::new()
        };
        ReplayAction::WriteBack { name: self.segments[self.segment].clone(), text }
    }

    /// Go on after `input`.
    pub fn step(&mut self, input: ReplayInput) -> (action: ReplayAction)
        ensures
            (final(self)@, action@) == next_replay_step(old(self)@, input@),
    {
        match (self.phase, input) {
            (ReplayPhase::Reading, ReplayInput::Content(text)) => {
                self.lines = full_lines_of(text.as_str());
                self.line = 0;
                assert(self@.lines =~= full_lines(text@));
                self.next_line()
            },
            (ReplayPhase::Sending, ReplayInput::Success) => self.line_sent(),
            (ReplayPhase::Sending, ReplayInput::Failed { full }) => {
                if full {
                    self.interrupt()
                } else {
                    self.phase = ReplayPhase::Reconnecting;
                    ReplayAction::Reconnect
                }
            },
            (ReplayPhase::Reconnecting, ReplayInput::Success) => {
                if self.line < self.lines.len() {
                    self.phase = ReplayPhase::Resending;
                    ReplayAction::Send(self.lines[self.line].clone())
                } else {
                    self.halt(ReplayError::File)
                }
            },
            (ReplayPhase::Reconnecting, ReplayInput::Failed { .. }) => self.interrupt(),
            (ReplayPhase::Resending, ReplayInput::Success) => self.line_sent(),
            (ReplayPhase::Resending, ReplayInput::Failed { .. }) => self.interrupt(),
            (ReplayPhase::WritingBack, ReplayInput::Success) => self.halt(
                ReplayError::Interrupted,
            ),
            (ReplayPhase::Removing, ReplayInput::Success) => {
                if self.segment < self.segments.len() {
                    assert(self@.segments.skip(1) =~= texts_from(
                        self.segments@,
                        self.segment + 1,
                    ));
                    self.segment = self.segment + 1;
                    self.next_segment()
                } else {
                    self.halt(ReplayError::File)
                }
            },
            _ => self.halt(ReplayError::File),
        }
    }
}

// ---------------------------------------------------------------------------
// Laws
// ---------------------------------------------------------------------------

/// Every text that is spooled is read back for the replay, in order, as it was
/// sent: appending texts one by one makes a segment whose lines are the texts.
pub proof fn law_spooled_is_replayed(s: ReplayView, payloads: Seq<Seq<char>>)
    requires
        s.phase == ReplayPhase::Reading,
        forall|i: int| 0 <= i < payloads.len() ==> is_line(#[trigger] payloads[i]),
    ensures
        next_replay_step(s, ReplayInputView::Content(segment_content(payloads))) == next_line(
            ReplayView { lines: payloads, ..s },
        ),
{
    lemma_segment_content(payloads);
    law_lines_read_back(payloads);
}

/// A segment after texts were added to it one by one.
pub open spec fn segment_content(payloads: Seq<Seq<char>>) -> Seq<char>
    decreases payloads.len(),
{
    if payloads.len() == 0 {
        seq![]
    } else {
        segment_content(payloads.drop_last()) + payloads.last().push('\n')
    }
}

proof fn lemma_segment_content(payloads: Seq<Seq<char>>)
    ensures
        segment_content(payloads) == unlines(payloads),
    decreases payloads.len(),
{
    if payloads.len() > 0 {
        let rest = payloads.drop_last();
        let last = payloads.last();
        lemma_segment_content(rest);
        lemma_unlines_push(rest, last);
        assert(payloads =~= rest.push(last));
        assert(unlines(rest) + last.push('\n') =~= unlines(rest) + last + seq!['\n']);
    }
}

/// The replay after `k` lines in a row were sent.
pub open spec fn after_lines(s: ReplayView, k: nat) -> (ReplayView, ReplayActionView)
    decreases k,
{
    if k == 0 {
        next_line(s)
    } else {
        next_replay_step(after_lines(s, (k - 1) as nat).0, ReplayInputView::Success)
    }
}

/// The lines of a segment are sent one by one in order, and the segment is
/// removed only once the last was sent.
pub proof fn law_lines_are_sent_in_order(s: ReplayView, k: nat)
    requires
        s.segments.len() > 0,
        k <= s.lines.len(),
    ensures
        after_lines(s, k) == next_line(ReplayView { lines: s.lines.skip(k as int), ..s }),
        k < s.lines.len() ==> after_lines(s, k).1 == ReplayActionView::Send(s.lines[k as int]),
        k == s.lines.len() ==> after_lines(s, k).1 == ReplayActionView::Remove(s.segments[0]),
    decreases k,
{
    if k == 0 {
        assert(s.lines.skip(0) =~= s.lines);
    } else {
        law_lines_are_sent_in_order(s, (k - 1) as nat);
        let on = after_lines(s, (k - 1) as nat).0;
        assert(on.lines == s.lines.skip(k - 1));
        assert(on.lines.skip(1) =~= s.lines.skip(k as int));
        assert(ReplayView { lines: on.lines.skip(1), ..on }.segments == s.segments);
        assert(next_line(ReplayView { lines: on.lines.skip(1), ..on }) == next_line(
            ReplayView { lines: s.lines.skip(k as int), ..s },
        ));
    }
}

/// Nothing is lost and nothing is sent twice: where sending fails behind the
/// first `k` lines, the segment is left with the other lines, in order, and the
/// next replay reads exactly those.
pub proof fn law_interrupted_replay_keeps_the_rest(s: ReplayView, k: nat, full: bool)
    requires
        s.segments.len() > 0,
        k < s.lines.len(),
        forall|i: int| 0 <= i < s.lines.len() ==> is_line(#[trigger] s.lines[i]),
    ensures
        ({
            let on = after_lines(s, k).0;
            let failed = next_replay_step(on, ReplayInputView::Failed { full });
            let again = next_replay_step(
                next_replay_step(failed.0, ReplayInputView::Success).0,
                ReplayInputView::Failed { full },
            );
            let kept = unlines(s.lines.skip(k as int));
            let written = ReplayActionView::WriteBack { name: s.segments[0], text: kept };
            &&& full ==> failed.1 == written
            &&& !full ==> {
                &&& failed.1 == ReplayActionView::Reconnect
                &&& next_replay_step(failed.0, ReplayInputView::Failed { full }).1 == written
                &&& again.1 == written
            }
            &&& full_lines(kept) == s.lines.skip(k as int)
        }),
{
    law_lines_are_sent_in_order(s, k);
    let rest = s.lines.skip(k as int);
    assert forall|i: int| 0 <= i < rest.len() implies is_line(#[trigger] rest[i]) by {
        assert(rest[i] == s.lines[i + k]);
    }
    law_lines_read_back(rest);
}

/// The spool as the files that it holds, and the lines that analysisd took.
pub struct SpoolView {
    pub files: Map<Seq<char>, Seq<char>>,
    pub sent: Seq<Seq<char>>,
}

/// How far a replay has to go in a phase.
pub open spec fn phase_rank(phase: ReplayPhase) -> int {
    match phase {
        ReplayPhase::Reading => 5,
        ReplayPhase::Sending => 4,
        ReplayPhase::Reconnecting => 3,
        ReplayPhase::Resending => 2,
        ReplayPhase::WritingBack | ReplayPhase::Removing => 1,
        ReplayPhase::Over => 0,
    }
}

/// What analysisd answers: the first of `answers`, or where none is left that its
/// queue is full.
pub open spec fn socket_answer(answers: Seq<ReplayInputView>) -> ReplayInputView {
    if answers.len() > 0 {
        answers[0]
    } else {
        ReplayInputView::Failed { full: true }
    }
}

/// What comes of an action: the input for the replay, the spool, and the answers
/// of analysisd that are left. The files do what they are asked to.
pub open spec fn performed(
    action: ReplayActionView,
    spool: SpoolView,
    answers: Seq<ReplayInputView>,
) -> (ReplayInputView, SpoolView, Seq<ReplayInputView>) {
    let later = if answers.len() > 0 {
        answers.skip(1)
    } else {
        answers
    };
    match action {
        ReplayActionView::Read(name) => (
            ReplayInputView::Content(spool.files[name]),
            spool,
            answers,
        ),
        ReplayActionView::Send(line) => {
            let answer = socket_answer(answers);
            let sent = if answer is Success {
                spool.sent.push(line)
            } else {
                spool.sent
            };
            (answer, SpoolView { sent, ..spool }, later)
        },
        ReplayActionView::Reconnect => (socket_answer(answers), spool, later),
        ReplayActionView::WriteBack { name, text } => (
            ReplayInputView::Success,
            SpoolView { files: spool.files.insert(name, text), ..spool },
            answers,
        ),
        ReplayActionView::Remove(name) => (
            ReplayInputView::Success,
            SpoolView { files: spool.files.remove(name), ..spool },
            answers,
        ),
        _ => (ReplayInputView::Success, spool, answers),
    }
}

/// A replay to its end: the spool then, and the last action.
pub open spec fn replayed(
    s: ReplayView,
    action: ReplayActionView,
    spool: SpoolView,
    answers: Seq<ReplayInputView>,
) -> (SpoolView, ReplayActionView)
    decreases
            s.segments.len(),
            if s.phase == ReplayPhase::Reading {
                1int
            } else {
                0int
            },
            s.lines.len(),
            phase_rank(s.phase),
{
    if s.phase == ReplayPhase::Over {
        (spool, action)
    } else {
        let (input, now, later) = performed(action, spool, answers);
        let (next, then) = next_replay_step(s, input);
        replayed(next, then, now, later)
    }
}

/// The lines that the segments hold, one segment after the other; a segment that
/// is gone holds none.
pub open spec fn spooled_lines(
    segments: Seq<Seq<char>>,
    files: Map<Seq<char>, Seq<char>>,
) -> Seq<Seq<char>>
    decreases segments.len(),
{
    if segments.len() == 0 {
        seq![]
    } else if files.dom().contains(segments[0]) {
        full_lines(files[segments[0]]) + spooled_lines(segments.skip(1), files)
    } else {
        spooled_lines(segments.skip(1), files)
    }
}

/// Each segment is there, no segment comes twice, and each holds lines that are
/// read back as they were written.
pub open spec fn is_spooled(segments: Seq<Seq<char>>, files: Map<Seq<char>, Seq<char>>) -> bool {
    &&& segments.no_duplicates()
    &&& forall|i: int|
        0 <= i < segments.len() ==> {
            &&& files.dom().contains(#[trigger] segments[i])
            &&& all_lines(full_lines(files[segments[i]]))
        }
}

pub open spec fn all_lines(lines: Seq<Seq<char>>) -> bool {
    forall|i: int| 0 <= i < lines.len() ==> is_line(#[trigger] lines[i])
}

/// The action is the one that the replay is in the midst of.
pub open spec fn at_work(s: ReplayView, action: ReplayActionView) -> bool {
    match s.phase {
        ReplayPhase::Reading => s.segments.len() > 0 && action == ReplayActionView::Read(
            s.segments[0],
        ),
        ReplayPhase::Sending | ReplayPhase::Resending => {
            &&& s.segments.len() > 0
            &&& s.lines.len() > 0
            &&& action == ReplayActionView::Send(s.lines[0])
        },
        ReplayPhase::Reconnecting => {
            &&& s.segments.len() > 0
            &&& s.lines.len() > 0
            &&& action == ReplayActionView::Reconnect
        },
        ReplayPhase::WritingBack => {
            &&& s.segments.len() > 0
            &&& s.lines.len() > 0
            &&& action == (ReplayActionView::WriteBack {
                name: s.segments[0],
                text: unlines(s.lines),
            })
        },
        ReplayPhase::Removing => {
            &&& s.segments.len() > 0
            &&& s.lines.len() == 0
            &&& action == ReplayActionView::Remove(s.segments[0])
        },
        ReplayPhase::Over => s.segments.len() == 0 && action == ReplayActionView::Finish,
    }
}

/// The lines that are still to be sent.
pub open spec fn pending(s: ReplayView, files: Map<Seq<char>, Seq<char>>) -> Seq<Seq<char>> {
    if s.phase == ReplayPhase::Reading || s.segments.len() == 0 {
        spooled_lines(s.segments, files)
    } else {
        s.lines + spooled_lines(s.segments.skip(1), files)
    }
}

/// Files that are none of the segments do not matter to what the segments hold.
proof fn lemma_other_files(
    segments: Seq<Seq<char>>,
    a: Map<Seq<char>, Seq<char>>,
    b: Map<Seq<char>, Seq<char>>,
)
    requires
        forall|i: int|
            0 <= i < segments.len() ==> {
                &&& a.dom().contains(#[trigger] segments[i]) == b.dom().contains(segments[i])
                &&& a.dom().contains(segments[i]) ==> a[segments[i]] == b[segments[i]]
            },
    ensures
        spooled_lines(segments, a) == spooled_lines(segments, b),
    decreases segments.len(),
{
    if segments.len() > 0 {
        let rest = segments.skip(1);
        assert forall|i: int| 0 <= i < rest.len() implies {
            &&& a.dom().contains(#[trigger] rest[i]) == b.dom().contains(rest[i])
            &&& a.dom().contains(rest[i]) ==> a[rest[i]] == b[rest[i]]
        } by {
            assert(rest[i] == segments[i + 1]);
        }
        lemma_other_files(rest, a, b);
    }
}

proof fn lemma_rest_is_spooled(segments: Seq<Seq<char>>, files: Map<Seq<char>, Seq<char>>)
    requires
        segments.len() > 0,
        is_spooled(segments, files),
    ensures
        is_spooled(segments.skip(1), files),
        !segments.skip(1).contains(segments[0]),
{
    let rest = segments.skip(1);
    assert forall|i: int| 0 <= i < rest.len() implies {
        &&& files.dom().contains(#[trigger] rest[i])
        &&& all_lines(full_lines(files[rest[i]]))
    } by {
        assert(rest[i] == segments[i + 1]);
    }
    assert forall|i: int, j: int| 0 <= i < rest.len() && 0 <= j < rest.len() && i != j implies rest[i]
        != rest[j] by {
        assert(rest[i] == segments[i + 1] && rest[j] == segments[j + 1]);
    }
    if rest.contains(segments[0]) {
        let i = rest.index_of(segments[0]);
        assert(segments[i + 1] == segments[0]);
    }
}

/// The two hold the same in every file that is none of the segments.
pub open spec fn same_beside(
    segments: Seq<Seq<char>>,
    a: Map<Seq<char>, Seq<char>>,
    b: Map<Seq<char>, Seq<char>>,
) -> bool {
    forall|name: Seq<char>|
        !(#[trigger] segments.contains(name)) ==> {
            &&& a.dom().contains(name) == b.dom().contains(name)
            &&& a.dom().contains(name) ==> a[name] == b[name]
        }
}

/// What a replay that stands at `s` comes to: what is sent from there on, with
/// what the segments hold at the end behind it, is what was still to be sent; no
/// other file is touched; and where nothing is left it is complete and the
/// segments are gone.
pub open spec fn comes_out(
    s: ReplayView,
    spool: SpoolView,
    end: SpoolView,
    last: ReplayActionView,
) -> bool {
    let left = spooled_lines(s.segments, end.files);
    &&& end.sent + left == spool.sent + pending(s, spool.files)
    &&& spool.sent.len() <= end.sent.len()
    &&& same_beside(s.segments, spool.files, end.files)
    &&& last == (if left.len() == 0 {
        ReplayActionView::Finish
    } else {
        ReplayActionView::Fail(ReplayError::Interrupted)
    })
    &&& left.len() == 0 ==> all_gone(s.segments, end.files)
}

/// None of the segments is there.
pub open spec fn all_gone(segments: Seq<Seq<char>>, files: Map<Seq<char>, Seq<char>>) -> bool {
    forall|i: int| 0 <= i < segments.len() ==> !files.dom().contains(#[trigger] segments[i])
}

proof fn lemma_replay_keeps_every_line(
    s: ReplayView,
    action: ReplayActionView,
    spool: SpoolView,
    answers: Seq<ReplayInputView>,
)
    requires
        at_work(s, action),
        is_spooled(s.segments, spool.files),
        all_lines(s.lines),
        forall|i: int| 0 <= i < answers.len() ==> !((#[trigger] answers[i]) is Content),
    ensures
        ({
            let (end, last) = replayed(s, action, spool, answers);
            comes_out(s, spool, end, last)
        }),
    decreases
            s.segments.len(),
            if s.phase == ReplayPhase::Reading {
                1int
            } else {
                0int
            },
            s.lines.len(),
            phase_rank(s.phase),
{
    let (input, now, later) = performed(action, spool, answers);
    let (next, then) = next_replay_step(s, input);
    let (end, last) = replayed(s, action, spool, answers);
    let rest = s.segments.skip(1);
    if s.phase == ReplayPhase::Over {
        assert(end.sent + spooled_lines(s.segments, end.files) =~= spool.sent + pending(
            s,
            spool.files,
        ));
    } else {
        assert forall|i: int| 0 <= i < later.len() implies !((#[trigger] later[i]) is Content) by {
            assert(later == answers || later[i] == answers[i + 1]);
        }
        lemma_rest_is_spooled(s.segments, spool.files);
        match s.phase {
            ReplayPhase::Reading => {
                lemma_replay_keeps_every_line(next, then, now, later);
            },
            ReplayPhase::WritingBack => {
                law_lines_read_back(s.lines);
                lemma_other_files(rest, spool.files, now.files);
                assert(end == now);
                assert(end.sent + spooled_lines(s.segments, end.files) =~= spool.sent + pending(
                    s,
                    spool.files,
                ));
                assert(s.segments.contains(s.segments[0]));
            },
            ReplayPhase::Removing => {
                assert forall|i: int| 0 <= i < rest.len() implies rest[i] != s.segments[0] by {
                    assert(rest.contains(rest[i]));
                }
                assert(is_spooled(rest, now.files));
                lemma_other_files(rest, spool.files, now.files);
                lemma_replay_keeps_every_line(next, then, now, later);
                assert(!rest.contains(s.segments[0]));
                assert(!end.files.dom().contains(s.segments[0]));
                assert(pending(s, spool.files) =~= spooled_lines(rest, spool.files));
                assert forall|name: Seq<char>| !(#[trigger] s.segments.contains(name)) implies {
                    &&& spool.files.dom().contains(name) == end.files.dom().contains(name)
                    &&& spool.files.dom().contains(name) ==> spool.files[name] == end.files[name]
                } by {
                    if rest.contains(name) {
                        assert(s.segments[rest.index_of(name) + 1] == name);
                    }
                    assert(s.segments.contains(s.segments[0]));
                }
                assert forall|i: int|
                    all_gone(rest, end.files) && 0 <= i
                        < s.segments.len() implies !end.files.dom().contains(
                    #[trigger] s.segments[i],
                ) by {
                    assert(i > 0 ==> rest[i - 1] == s.segments[i]);
                }
            },
            _ => {
                if input is Success && s.phase != ReplayPhase::Reconnecting {
                    assert forall|i: int| 0 <= i < next.lines.len() implies is_line(
                        #[trigger] next.lines[i],
                    ) by {
                        assert(next.lines[i] == s.lines[i + 1]);
                    }
                    assert(spool.sent + pending(s, spool.files) =~= now.sent + pending(
                        next,
                        now.files,
                    ));
                }
                lemma_replay_keeps_every_line(next, then, now, later);
            },
        }
    }
}

/// No line is lost, sent twice or sent out of turn: however analysisd answers,
/// what a replay has sent when it ends is the first lines of the segments, in
/// their order, and what the segments are left with is the other lines, in their
/// order. Where all were sent the replay is complete and the segments are gone;
/// else it is interrupted. No other file is touched.
pub proof fn law_replay_sends_the_first_and_keeps_the_rest(
    segments: Seq<Seq<char>>,
    files: Map<Seq<char>, Seq<char>>,
    answers: Seq<ReplayInputView>,
)
    requires
        is_spooled(segments, files),
        forall|i: int| 0 <= i < answers.len() ==> !((#[trigger] answers[i]) is Content),
    ensures
        ({
            let (s, action) = next_segment(
                ReplayView { phase: ReplayPhase::Over, segments, lines: seq![] },
            );
            let (end, last) = replayed(s, action, SpoolView { files, sent: seq![] }, answers);
            let all = spooled_lines(segments, files);
            let k = end.sent.len();
            &&& k <= all.len()
            &&& end.sent == all.take(k as int)
            &&& spooled_lines(segments, end.files) == all.skip(k as int)
            &&& same_beside(segments, files, end.files)
            &&& last == (if k == all.len() {
                ReplayActionView::Finish
            } else {
                ReplayActionView::Fail(ReplayError::Interrupted)
            })
            &&& k == all.len() ==> all_gone(segments, end.files)
        }),
{
    let (s, action) = next_segment(
        ReplayView { phase: ReplayPhase::Over, segments, lines: seq![] },
    );
    let spool = SpoolView { files, sent: seq![] };
    lemma_replay_keeps_every_line(s, action, spool, answers);
    let (end, last) = replayed(s, action, spool, answers);
    let all = spooled_lines(segments, files);
    let left = spooled_lines(segments, end.files);
    assert(spool.sent + pending(s, files) =~= all);
    assert(end.sent + left == all);
    assert(end.sent =~= all.take(end.sent.len() as int));
    assert(left =~= all.skip(end.sent.len() as int));
}

/// A segment is named by its hour, and a file is a segment exactly where its name is
/// something and the ending of segments.
pub proof fn law_names_of_segments(t: InstantView, stem: Seq<char>, name: Seq<char>)
    ensures
        segment_text(t) == stamp_text(t, StampForm::Hour) + ".ndjson"@,
        stem.len() > 0 ==> is_segment(stem + ".ndjson"@),
        is_segment(name) ==> name.len() > 7 && name.take(name.len() - 7) + ".ndjson"@ == name,
{
    reveal_strlit(".ndjson");
    assert(".ndjson"@.len() == 7);
    assert((stem + ".ndjson"@).skip(stem.len() as int) =~= ".ndjson"@);
    if is_segment(name) {
        assert(name.take(name.len() - 7) + name.skip(name.len() - 7) =~= name);
    }
}

/// A connection that broke is replaced once for a line, and the line is sent again
/// over the new one; where that works the replay goes on as if nothing had been.
pub proof fn law_line_is_sent_again(s: ReplayView)
    requires
        s.phase == ReplayPhase::Sending,
        s.lines.len() > 0,
    ensures
        ({
            let (broken, action) = next_replay_step(s, ReplayInputView::Failed { full: false });
            let (again, then) = next_replay_step(broken, ReplayInputView::Success);
            &&& action == ReplayActionView::Reconnect
            &&& then == ReplayActionView::Send(s.lines[0])
            &&& again.lines == s.lines
            &&& again.segments == s.segments
            &&& next_replay_step(again, ReplayInputView::Success) == next_replay_step(
                s,
                ReplayInputView::Success,
            )
        }),
{
}

/// A segment that is read is gone through from its first line that counts, one line
/// after the other, and removed behind the last; then the next one is read. Where
/// there is none the replay is complete.
pub proof fn law_segments_are_gone_through(s: ReplayView, text: Seq<char>)
    requires
        s.segments.len() > 0,
    ensures
        ({
            let read = next_replay_step(s, ReplayInputView::Content(text));
            let done = next_replay_step(s, ReplayInputView::Success);
            let counted = full_lines(text);
            &&& s.phase == ReplayPhase::Reading ==> {
                &&& read.0.segments == s.segments
                &&& read.0.lines == counted
                &&& counted.len() > 0 ==> read.1 == ReplayActionView::Send(counted[0])
                &&& counted.len() == 0 ==> read.1 == ReplayActionView::Remove(s.segments[0])
            }
            &&& s.phase == ReplayPhase::Sending && s.lines.len() > 1 ==> done.1
                == ReplayActionView::Send(s.lines[1]) && done.0.lines == s.lines.skip(1)
            &&& s.phase == ReplayPhase::Sending && s.lines.len() == 1 ==> done.1
                == ReplayActionView::Remove(s.segments[0])
            &&& s.phase == ReplayPhase::Removing && s.segments.len() > 1 ==> done.1
                == ReplayActionView::Read(s.segments[1]) && done.0.segments == s.segments.skip(1)
            &&& s.phase == ReplayPhase::Removing && s.segments.len() == 1 ==> done.1
                == ReplayActionView::Finish
            &&& s.phase == ReplayPhase::WritingBack ==> done.1 == ReplayActionView::Fail(
                ReplayError::Interrupted,
            )
        }),
{
}

/// A file that cannot be read, written or removed ends the replay, and so does
/// nothing else but a line that could not be sent.
pub proof fn law_files_that_fail_end_the_replay(s: ReplayView, full: bool)
    ensures
        s.phase == ReplayPhase::Reading || s.phase == ReplayPhase::WritingBack || s.phase
            == ReplayPhase::Removing ==> {
            let (after, action) = next_replay_step(s, ReplayInputView::Failed { full });
            &&& action == ReplayActionView::Fail(ReplayError::File)
            &&& after.phase == ReplayPhase::Over
        },
{
}

/// What happened and what to do are seen as they are.
pub proof fn law_replay_steps_are_seen_whole(input: ReplayInput, action: ReplayAction)
    ensures
        input matches ReplayInput::Content(text) ==> input@ == ReplayInputView::Content(text@),
        input is Success <==> input@ is Success,
        input matches ReplayInput::Failed { full } ==> input@ == (ReplayInputView::Failed { full }),
        action matches ReplayAction::Read(name) ==> action@ == ReplayActionView::Read(name@),
        action matches ReplayAction::Send(line) ==> action@ == ReplayActionView::Send(line@),
        action is Reconnect <==> action@ is Reconnect,
        action matches ReplayAction::WriteBack { name, text } ==> action@ == (
        ReplayActionView::WriteBack { name: name@, text: text@ }),
        action matches ReplayAction::Remove(name) ==> action@ == ReplayActionView::Remove(name@),
        action is Finish <==> action@ is Finish,
        action matches ReplayAction::Fail(error) ==> action@ == ReplayActionView::Fail(error),
        REPLAY_SECONDS == 30,
{
}

}
