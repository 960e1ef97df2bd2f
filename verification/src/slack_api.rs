//! What the replies of the Slack API have in common.

use crate::json::{
    field_bool, field_str, has_member, has_text, lacks_text, opt_text, Json, JsonView,
};
use crate::normalize::{get_nested_str, nested_str, or_default, text_or};
use vstd::prelude::*;

verus! {

/// A reply says of itself that the call succeeded.
pub open spec fn is_ok(reply: JsonView) -> bool {
    field_bool(reply, "ok"@) == Some(true)
}

/// The error that a reply names, or a question mark.
pub open spec fn error_of(reply: JsonView) -> Seq<char> {
    text_or(field_str(reply, "error"@), "?"@)
}

/// A text that is not empty.
pub open spec fn not_empty(text: Option<Seq<char>>) -> Option<Seq<char>> {
    match text {
        Some(s) => if s.len() > 0 {
            Some(s)
        } else {
            None
        },
        None => None,
    }
}

/// The cursor of the next page, where there is one.
pub open spec fn next_cursor(reply: JsonView) -> Option<Seq<char>> {
    not_empty(nested_str(reply, "response_metadata"@, "next_cursor"@))
}

/// Whether the call succeeded.
pub fn reply_ok(reply: &Json) -> (ok: bool)
    ensures
        ok == is_ok(reply@),
{
    match reply.get_bool("ok") {
        Some(ok) => ok,
        None => false,
    }
}

/// The error that the reply names, or a question mark.
pub fn reply_error(reply: &Json) -> (error: String)
    ensures
        error@ == error_of(reply@),
{
    or_default(reply.get_str("error"), "?")
}

/// A text that is not empty.
pub fn keep_if_not_empty(text: Option<String>) -> (kept: Option<String>)
    ensures
        opt_text(kept) == not_empty(opt_text(text)),
{
    match text {
        Some(s) => if s.as_str().unicode_len() > 0 {
            Some(s)
        } else {
            None
        },
        None => None,
    }
}

/// The cursor of the next page, where there is one.
pub fn reply_next_cursor(reply: &Json) -> (cursor: Option<String>)
    ensures
        opt_text(cursor) == next_cursor(reply@),
{
    keep_if_not_empty(get_nested_str(reply, "response_metadata", "next_cursor"))
}

/// A call succeeded exactly where its reply holds `ok` as true.
pub proof fn law_success_is_told(reply: JsonView)
    ensures
        is_ok(reply) <==> has_member(reply, "ok"@, JsonView::Bool(true)),
{
}

/// The error is the one that the reply names, and a question mark where it names
/// none.
pub proof fn law_error_is_named(reply: JsonView, error: Seq<char>)
    ensures
        has_text(reply, "error"@, error) ==> error_of(reply) == error,
        lacks_text(reply, "error"@) ==> error_of(reply) == "?"@,
{
}

/// There is a next page exactly where the reply's metadata names a cursor that is
/// not empty, and that is the cursor.
pub proof fn law_next_page_is_named(reply: JsonView, cursor: Seq<char>)
    ensures
        next_cursor(reply) == Some(cursor) <==> cursor.len() > 0 && exists|about: JsonView|
            {
                &&& #[trigger] has_member(reply, "response_metadata"@, about)
                &&& has_text(about, "next_cursor"@, cursor)
            },
        next_cursor(reply) matches Some(c) ==> c.len() > 0,
        not_empty(Some(cursor)) == Some(cursor) <==> cursor.len() > 0,
        not_empty(None) is None,
{
    if let JsonView::Obj(m) = reply {
        if m.contains_key("response_metadata"@) {
            assert(has_member(reply, "response_metadata"@, m["response_metadata"@]));
        }
    }
}

}
