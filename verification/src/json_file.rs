//! The file sink: one event on each line, and when the file is put aside.

use crate::clock::{stamp_text, InstantView, StampForm, Timestamp};
use crate::document::printable;
use crate::event::{event_text, EventView, NormalizedEvent};
use vstd::prelude::*;
use vstd::utf8::encode_utf8;

verus! {

pub const BYTES_PER_MB: u64 = 1_048_576;

/// The bytes of so many megabytes, as far as a counter reaches.
pub open spec fn megabytes(mb: int) -> int {
    if mb * BYTES_PER_MB <= u64::MAX {
        mb * BYTES_PER_MB
    } else {
        u64::MAX as int
    }
}

/// The bytes of `mb` megabytes.
pub fn bytes_of_mb(mb: u64) -> (bytes: u64)
    ensures
        bytes == megabytes(mb as int),
{
    if mb <= 0xffff_ffff_ffff_ffff / BYTES_PER_MB {
        mb * BYTES_PER_MB
    } else {
        0xffff_ffff_ffff_ffff
    }
}

/// An event on a line of its own.
pub open spec fn line_text(e: EventView) -> Seq<char> {
    event_text(e).push('\n')
}

/// The event on a line of its own, for the file and for the standard output.
pub fn ndjson_line(event: &NormalizedEvent) -> (line: String)
    ensures
        line@ == line_text(event@),
        printable(line@.drop_last()),
{
    let mut line: String = event.to_text();
    let ghost text = line@;
    line.push('\n');
    assert(line@.drop_last() == text);
    line
}

/// What the sink knows of its file.
#[derive(Debug, Clone, Copy, PartialEq, Eq, Structural)]
pub struct JsonFileSink {
    /// The size from which on the file is put aside; 0 for never.
    pub rotate_bytes: u64,
    /// The bytes in the file.
    pub written: u64,
}

/// Whether the file is put aside before the next line.
pub open spec fn rotates(sink: JsonFileSink) -> bool {
    sink.rotate_bytes != 0 && sink.written >= sink.rotate_bytes
}

/// The extension that the file gets where it is put aside.
pub open spec fn rotated_extension(now: InstantView) -> Seq<char> {
    "ndjson."@ + stamp_text(now, StampForm::Second)
}

/// The bytes in the file after a line.
pub open spec fn written_after(written: int, line: Seq<char>) -> int {
    if written + encode_utf8(line).len() <= u64::MAX {
        written + encode_utf8(line).len()
    } else {
        u64::MAX as int
    }
}

impl JsonFileSink {
    /// A sink for a file of `len` bytes that is put aside at `rotate_mb`
    /// megabytes.
    pub fn new(len: u64, rotate_mb: u64) -> (sink: Self)
        ensures
            sink.rotate_bytes == megabytes(rotate_mb as int),
            sink.written == len,
    {
        JsonFileSink { rotate_bytes: bytes_of_mb(rotate_mb), written: len }
    }

    /// The extension under which the file is put aside before the next line,
    /// where it is.
    pub fn maybe_rotate(&self, now: Timestamp) -> (extension: Option<String>)
        ensures
            extension is Some <==> rotates(*self),
            extension matches Some(text) ==> text@ == rotated_extension(now@),
    {
        if self.rotate_bytes == 0 || self.written < self.rotate_bytes {
            return None;
        }
        let mut text: String = "ndjson.".to_owned();
        text.append(now.stamp(StampForm::Second).as_str());
        Some(text)
    }

    /// The file was put aside, and a new one is open.
    pub fn rotated(&mut self)
        ensures
            *final(self) == (JsonFileSink { written: 0, ..*old(self) }),
    {
        self.written = 0;
    }

    /// The line is in the file.
    pub fn wrote(&mut self, line: &String)
        ensures
            final(self).rotate_bytes == old(self).rotate_bytes,
            final(self).written == written_after(old(self).written as int, line@),
    {
        let n: usize = line.as_str().as_bytes().len();
        self.written = self.written.saturating_add(n as u64);
    }
}

/// A file is put aside before it takes a line that would be its first beyond the
/// limit: with rotation on, the file that takes a line holds less than the limit
/// before it.
pub proof fn law_file_stays_near_its_limit(sink: JsonFileSink, line: Seq<char>)
    requires
        sink.rotate_bytes > 0,
    ensures
        ({
            let before = if rotates(sink) {
                0
            } else {
                sink.written as int
            };
            &&& before < sink.rotate_bytes
            &&& written_after(before, line) < sink.rotate_bytes + encode_utf8(line).len()
        }),
{
}

/// Without a limit the file is never put aside.
pub proof fn law_no_limit_no_rotation(sink: JsonFileSink)
    requires
        sink.rotate_bytes == 0,
    ensures
        !rotates(sink),
{
}

/// A line is the text of the event and a line feed, and nothing else.
pub proof fn law_line_is_the_event(e: EventView)
    ensures
        line_text(e).len() == event_text(e).len() + 1,
        line_text(e).last() == '\n',
        line_text(e).drop_last() == event_text(e),
{
}

/// A megabyte has 1,048,576 bytes; a size beyond what a counter holds is the
/// largest that it holds.
pub proof fn law_size_of_a_megabyte(mb: int)
    requires
        mb >= 0,
    ensures
        mb <= 17_592_186_044_415 ==> megabytes(mb) == mb * 1_048_576,
        mb > 17_592_186_044_415 ==> megabytes(mb) == 0xffff_ffff_ffff_ffff,
{
}

/// With a limit the file is put aside exactly where it holds at least as much, and
/// it gets the second of that time behind its extension.
pub proof fn law_rotation(sink: JsonFileSink, now: InstantView)
    ensures
        sink.rotate_bytes > 0 ==> (rotates(sink) <==> sink.written >= sink.rotate_bytes),
        rotated_extension(now) == "ndjson."@ + stamp_text(now, StampForm::Second),
{
}

/// A file holds what was written to it: the bytes of every line, one after the
/// other, as far as a counter reaches.
pub proof fn law_bytes_add_up(written: int, line: Seq<char>, next: Seq<char>)
    requires
        0 <= written,
        written + encode_utf8(line).len() + encode_utf8(next).len() <= u64::MAX,
    ensures
        written_after(written, line) == written + encode_utf8(line).len(),
        written_after(written_after(written, line), next) == written + encode_utf8(line).len()
            + encode_utf8(next).len(),
{
}

/// Beyond what a counter holds the size stays at the largest that it holds.
pub proof fn law_bytes_stay_within_the_counter(written: int, line: Seq<char>)
    requires
        0 <= written <= u64::MAX,
        written + encode_utf8(line).len() > u64::MAX,
    ensures
        written_after(written, line) == 0xffff_ffff_ffff_ffff,
{
}

}
