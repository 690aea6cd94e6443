//! The debug endpoint's requests and responses.
//!
//! It serves exactly what was last published, out of memory:
//!
//! | | |
//! |---|---|
//! | `GET  /state`          | the last published snapshot as JSON |
//! | `GET  /healthz`        | a liveness probe for the endpoint itself |
//! | `POST /zero`           | zero the count, as the home button does |
//! | `POST /reset_missed`   | clear the missed-edge counter |
//! | `POST /direction_hint` | `{"direction": "cw"\|"ccw"\|"none"}` |

use vstd::prelude::*;
use vstd::string::*;
#[allow(unused_imports)]
use vstd::utf8::*;

use crate::encoder::push_hint;
#[allow(unused_imports)]
use crate::encoder::{trimmed_hints, HINT_HISTORY_MS};
use crate::json::{lossy, string_member, write_object, JsonField};
#[allow(unused_imports)]
use crate::json::{lossy_text, members, object_text, string_member_of, FieldValue};
use crate::state::{EncoderState, Snapshot};
#[allow(unused_imports)]
use crate::state::snapshot_members;
#[allow(unused_imports)]
use crate::quadrature::Decoding;
use crate::text::{
    append_decimal, chars_of, eq_ignore_case, find_blank_line, find_blank_line_bytes, find_char,
    find_space, read_unsigned, str_eq, trim,
};
#[allow(unused_imports)]
use crate::text::{
    blank_line, blank_line_bytes, decimal, index_from, lemma_index_from, lower_text, pattern_from, space_at, trimmed, unsigned_number,
};

verus! {

/// Localhost only, so that it is never reachable from elsewhere.
pub const HOST: &'static str = "127.0.0.1";

pub const PORT: u16 = 8765;

/// A request longer than this is answered as it stands.
pub const REQUEST_LIMIT: usize = 65_536;

/// Everything that the endpoint reads and changes.
#[derive(Debug)]
pub struct DebugHandles {
    pub snapshot: Snapshot,
    pub state: EncoderState,
    pub hints: Vec<(i64, i8)>,
}

impl DebugHandles {
    pub open spec fn wf(&self) -> bool {
        &&& self.snapshot.wf()
        &&& self.state.wf()
    }
}

// ---------------------------------------------------------------------------
// Requests
// ---------------------------------------------------------------------------

/// Whether a head's line gives the content length.
pub open spec fn is_length_line(line: Seq<char>) -> bool {
    let colon = index_from(line, ':', 0);
    colon < line.len() && lower_text(line.take(colon)) == "content-length"@
}

/// The number on a content-length line; 0 where it holds none.
pub open spec fn line_length(line: Seq<char>) -> int {
    match unsigned_number(trimmed(line.skip(index_from(line, ':', 0) + 1))) {
        Some(n) => n,
        None => 0,
    }
}

/// The body length that a head declares: that of its first content-length line,
/// and 0 where it has none.
pub open spec fn declared_length(head: Seq<char>) -> int
    decreases head.len(),
{
    let end = index_from(head, '\n', 0);
    proof {
        lemma_index_from(head, '\n', 0);
    }
    if is_length_line(head.take(end)) {
        line_length(head.take(end))
    } else if end >= head.len() {
        0
    } else {
        declared_length(head.skip(end + 1))
    }
}

/// Read the body length that a head declares, cut off at the type's greatest
/// value.
pub fn content_length(head: &str) -> (length: u64)
    ensures
        length == (if declared_length(head@) <= u64::MAX {
            declared_length(head@)
        } else {
            u64::MAX as int
        }),
{
    let chars: Vec<char> = chars_of(head);
    let mut rest: &[char] = chars.as_slice();
    loop
        invariant
            declared_length(rest@) == declared_length(head@),
        decreases rest@.len(),
    {
        let end: usize = find_char(rest, '\n', 0);
        let line: &[char] = vstd::slice::slice_subrange(rest, 0, end);
        assert(line@ =~= rest@.take(end as int));
        let colon: usize = find_char(line, ':', 0);
        if colon < line.len() {
            let name: &[char] = vstd::slice::slice_subrange(line, 0, colon);
            proof {
                assert(name@ =~= line@.take(colon as int));
                lemma_lower_header();
            }
            if eq_ignore_case(name, "content-length") {
                let value: &[char] = vstd::slice::slice_subrange(line, colon + 1, line.len());
                assert(value@ =~= line@.skip(colon + 1));
                let (from, to) = trim(value);
                let number: &[char] = vstd::slice::slice_subrange(value, from, to);
                return match read_unsigned(number) {
                    Some(n) => n,
                    None => 0,
                };
            }
        }
        if end == rest.len() {
            return 0;
        }
        let next: &[char] = vstd::slice::slice_subrange(rest, end + 1, rest.len());
        assert(next@ =~= rest@.skip(end + 1));
        rest = next;
    }
}

proof fn lemma_lower_header()
    ensures
        lower_text("content-length"@) == "content-length"@,
{
    reveal_strlit("content-length");
    assert(lower_text("content-length"@) =~= "content-length"@);
}

/// Whether `raw` holds a complete request: a terminated head, and at least as
/// many bytes after it as it declares.
pub open spec fn is_complete(raw: Seq<u8>) -> bool {
    match pattern_from(raw, blank_line_bytes(), 0) {
        Some(end) => raw.len() >= end + 4 + declared_length(lossy_text(raw.take(end))),
        None => false,
    }
}

/// Where a head is valid UTF-8, its text is what it encodes.
pub open spec fn head_decodes(raw: Seq<u8>) -> bool {
    match pattern_from(raw, blank_line_bytes(), 0) {
        Some(end) => valid_utf8(raw.take(end)) ==> lossy_text(raw.take(end)) == decode_utf8(
            raw.take(end),
        ),
        None => true,
    }
}

/// Whether `raw` holds a complete request.
pub fn request_complete(raw: &[u8]) -> (complete: bool)
    ensures
        complete == is_complete(raw@),
        head_decodes(raw@),
{
    match find_blank_line_bytes(raw) {
        Some(end) => {
            let head_bytes: &[u8] = vstd::slice::slice_subrange(raw, 0, end);
            assert(head_bytes@ =~= raw@.take(end as int));
            let head: String = lossy(head_bytes);
            let length: u64 = content_length(head.as_str());
            (raw.len() - end - 4) as u64 >= length
        },
        None => false,
    }
}

/// Whether reading a request stops here: it is complete, or too long.
pub fn stop_reading(raw: &[u8]) -> (stop: bool)
    ensures
        stop == (is_complete(raw@) || raw@.len() > REQUEST_LIMIT),
        raw@.len() > 65_536 ==> stop,
        stop && raw@.len() <= 65_536 ==> is_complete(raw@),
        head_decodes(raw@),
{
    request_complete(raw) || raw.len() > REQUEST_LIMIT
}

/// A request's method: its first word.
pub open spec fn method_of(text: Seq<char>) -> Seq<char> {
    let start = space_at(text, 0, false);
    text.subrange(start, space_at(text, start, true))
}

/// A request's target: its second word.
pub open spec fn target_of(text: Seq<char>) -> Seq<char> {
    let start = space_at(text, space_at(text, space_at(text, 0, false), true), false);
    text.subrange(start, space_at(text, start, true))
}

/// A request's path: the target without a query string.
pub open spec fn path_of(text: Seq<char>) -> Seq<char> {
    target_of(text).take(index_from(target_of(text), '?', 0))
}

/// A request's body: what stands after the first blank line, up to the next.
pub open spec fn body_of(text: Seq<char>) -> Seq<char> {
    match pattern_from(text, blank_line(), 0) {
        Some(end) => match pattern_from(text, blank_line(), end + 4) {
            Some(next) => text.subrange(end + 4, next),
            None => text.skip(end + 4),
        },
        None => Seq::empty(),
    }
}

proof fn lemma_index_skips(s: Seq<char>, rest: Seq<char>, x: char, i: int)
    requires
        0 <= i <= s.len(),
        forall|j: int| i <= j < s.len() ==> #[trigger] s[j] != x,
        rest.len() > 0,
        rest[0] == x,
    ensures
        index_from(s + rest, x, i) == s.len(),
    decreases s.len() - i,
{
    let all = s + rest;
    if i < s.len() {
        assert(all[i] == s[i]);
        lemma_index_skips(s, rest, x, i + 1);
    } else {
        assert(all[i] == rest[0]);
    }
}

/// A query string changes nothing of the path: whatever follows the first
/// question mark of the target is ignored.
pub proof fn law_query_is_ignored(text: Seq<char>, path: Seq<char>, query: Seq<char>)
    requires
        target_of(text) == path + seq!['?'] + query,
        forall|i: int| 0 <= i < path.len() ==> #[trigger] path[i] != '?',
    ensures
        path_of(text) == path,
{
    let rest = seq!['?'] + query;
    assert(target_of(text) =~= path + rest);
    lemma_index_skips(path, rest, '?', 0);
    assert(path_of(text) =~= path);
}

/// Split a request into its method, path and body. Whatever is missing is
/// empty.
pub fn request_parts<'a>(text: &'a str) -> (parts: (&'a str, &'a str, &'a str))
    ensures
        parts.0@ == method_of(text@),
        parts.1@ == path_of(text@),
        parts.2@ == body_of(text@),
{
    let chars: Vec<char> = chars_of(text);
    let s: &[char] = chars.as_slice();
    let len: usize = s.len();
    let method_start: usize = find_space(s, 0, false);
    let method_end: usize = find_space(s, method_start, true);
    let target_start: usize = find_space(s, method_end, false);
    let target_end: usize = find_space(s, target_start, true);
    let target: &[char] = vstd::slice::slice_subrange(s, target_start, target_end);
    let path_len: usize = find_char(target, '?', 0);
    assert(path_of(text@) =~= text@.subrange(target_start as int, target_start + path_len));
    let (body_start, body_end): (usize, usize) = match find_blank_line(s, 0) {
        Some(end) => match find_blank_line(s, end + 4) {
            Some(next) => (end + 4, next),
            None => (end + 4, len),
        },
        None => (0, 0),
    };
    assert(body_of(text@) =~= text@.subrange(body_start as int, body_end as int));
    (
        text.substring_char(method_start, method_end),
        text.substring_char(target_start, target_start + path_len),
        text.substring_char(body_start, body_end),
    )
}

/// What a request asks for.
#[derive(Debug, Clone, Copy, PartialEq, Eq, Structural)]
pub enum Route {
    State,
    Health,
    Zero,
    ResetMissed,
    DirectionHint,
    Unknown,
}

/// The route of a method and a path.
pub open spec fn route_of(method: Seq<char>, path: Seq<char>) -> Route {
    if method == "GET"@ && path == "/state"@ {
        Route::State
    } else if method == "GET"@ && path == "/healthz"@ {
        Route::Health
    } else if method == "POST"@ && path == "/zero"@ {
        Route::Zero
    } else if method == "POST"@ && path == "/reset_missed"@ {
        Route::ResetMissed
    } else if method == "POST"@ && path == "/direction_hint"@ {
        Route::DirectionHint
    } else {
        Route::Unknown
    }
}

pub fn classify(method: &str, path: &str) -> (route: Route)
    ensures
        route == route_of(method@, path@),
{
    if str_eq(method, "GET") && str_eq(path, "/state") {
        Route::State
    } else if str_eq(method, "GET") && str_eq(path, "/healthz") {
        Route::Health
    } else if str_eq(method, "POST") && str_eq(path, "/zero") {
        Route::Zero
    } else if str_eq(method, "POST") && str_eq(path, "/reset_missed") {
        Route::ResetMissed
    } else if str_eq(method, "POST") && str_eq(path, "/direction_hint") {
        Route::DirectionHint
    } else {
        Route::Unknown
    }
}

/// The direction that a word stands for, in any case of letters.
pub open spec fn hint_word(word: Option<Seq<char>>) -> i8 {
    match word {
        Some(w) => if lower_text(w) == "cw"@ {
            1
        } else if lower_text(w) == "ccw"@ {
            -1i8
        } else {
            0
        },
        None => 0,
    }
}

/// Read a direction word: +1 for `cw`, -1 for `ccw`, and 0 for any other and
/// for none, so that a malformed request is never an error.
pub fn direction_hint(word: Option<&str>) -> (hint: i8)
    ensures
        hint == hint_word(
            match word {
                Some(w) => Some(w@),
                None => None,
            },
        ),
{
    proof {
        reveal_strlit("cw");
        reveal_strlit("ccw");
        assert(lower_text("cw"@) =~= "cw"@);
        assert(lower_text("ccw"@) =~= "ccw"@);
    }
    match word {
        Some(w) => {
            let chars: Vec<char> = chars_of(w);
            if eq_ignore_case(chars.as_slice(), "cw") {
                1
            } else if eq_ignore_case(chars.as_slice(), "ccw") {
                -1
            } else {
                0
            }
        },
        None => 0,
    }
}

// ---------------------------------------------------------------------------
// Responses
// ---------------------------------------------------------------------------

/// The status and the members that a route is answered with.
pub open spec fn reply_of(
    route: Route,
    snapshot: Snapshot,
    hint: i8,
) -> (u16, Seq<(Seq<char>, FieldValue)>) {
    match route {
        Route::State => (200, snapshot_members(snapshot)),
        Route::Health => (200, seq![("ok"@, FieldValue::Flag(true))]),
        Route::Zero => (200, seq![("homed"@, FieldValue::Flag(true))]),
        Route::ResetMissed => (200, seq![("missed_edges"@, FieldValue::Int(0))]),
        Route::DirectionHint => (200, seq![("direction_hint"@, FieldValue::Int(hint as int))]),
        Route::Unknown => (404, seq![("error"@, FieldValue::Text("not found"@))]),
    }
}

/// Whether `after` is what a route makes of `before`. Only what the route is
/// about changes.
pub open spec fn performed(
    route: Route,
    hint: i8,
    now_ms: int,
    before: DebugHandles,
    after: DebugHandles,
) -> bool {
    match route {
        Route::Zero => {
            &&& before.state.homes_to(after.state)
            &&& after == (DebugHandles { state: after.state, ..before })
        },
        Route::ResetMissed => {
            &&& after.state.decoder@ == (Decoding { missed: 0, ..before.state.decoder@ })
            &&& after.state == (EncoderState { decoder: after.state.decoder, ..before.state })
            &&& after == (DebugHandles { state: after.state, ..before })
        },
        Route::DirectionHint => {
            &&& after.hints@ == trimmed_hints(
                before.hints@.push((now_ms as i64, hint)),
                now_ms - HINT_HISTORY_MS,
            )
            &&& after == (DebugHandles { hints: after.hints, ..before })
        },
        _ => after == before,
    }
}

/// Carry out a route and give its status and members. `hint` is the direction
/// that a direction-hint request declares, and `now_ms` the time it counts
/// from.
pub fn perform(route: Route, hint: i8, handles: &mut DebugHandles, now_ms: i64) -> (reply: (
    u16,
    Vec<(&'static str, JsonField)>,
))
    requires
        old(handles).wf(),
        old(handles).state.home_fits(),
    ensures
        final(handles).wf(),
        performed(route, hint, now_ms as int, *old(handles), *final(handles)),
        reply.0 == reply_of(route, old(handles).snapshot, hint).0,
        members(reply.1@) == reply_of(route, old(handles).snapshot, hint).1,
{
    let mut fields: Vec<(&'static str, JsonField)> = Vec::new();
    let mut status: u16 = 200;
    match route {
        Route::State => {
            fields = handles.snapshot.fields();
        },
        Route::Health => {
            fields.push(("ok", JsonField::Flag(true)));
        },
        Route::Zero => {
            handles.state.home();
            fields.push(("homed", JsonField::Flag(true)));
        },
        Route::ResetMissed => {
            handles.state.reset_missed();
            fields.push(("missed_edges", JsonField::Int(0)));
        },
        Route::DirectionHint => {
            push_hint(&mut handles.hints, now_ms, hint);
            fields.push(("direction_hint", JsonField::Int(hint as i64)));
        },
        Route::Unknown => {
            status = 404;
            fields.push(("error", JsonField::Text("not found")));
        },
    }
    assert(members(fields@) =~= reply_of(route, old(handles).snapshot, hint).1);
    (status, fields)
}

/// An HTTP response with a JSON body.
pub open spec fn response_text(status: u16, body: Seq<char>) -> Seq<char> {
    "HTTP/1.1 "@ + decimal(status as int) + " "@ + (if status == 200 {
        "OK"@
    } else {
        "Not Found"@
    }) + "\r\ncontent-type: application/json\r\ncontent-length: "@ + decimal(
        encode_utf8(body).len() as int,
    ) + "\r\nconnection: close\r\n\r\n"@ + body
}

/// Frame a JSON body as an HTTP response. The declared length is that of the
/// body in bytes.
pub fn json_response(status: u16, body: &str) -> (response: Vec<u8>)
    ensures
        response@ == encode_utf8(response_text(status, body@)),
{
    let mut out: String = String::new();
    out.append("HTTP/1.1 ");
    append_decimal(&mut out, status as u128);
    out.append(" ");
    if status == 200 {
        out.append("OK");
    } else {
        out.append("Not Found");
    }
    out.append("\r\ncontent-type: application/json\r\ncontent-length: ");
    append_decimal(&mut out, body.as_bytes().len() as u128);
    out.append("\r\nconnection: close\r\n\r\n");
    out.append(body);
    assert(out@ =~= response_text(status, body@));
    out.as_str().as_bytes_vec()
}

/// The direction that a request's body declares.
pub open spec fn declared_hint(body: Seq<char>) -> i8 {
    hint_word(string_member_of(body, "direction"@))
}

/// Answer one raw request at `now_ms`.
pub fn route(raw: &[u8], handles: &mut DebugHandles, now_ms: i64) -> (response: Vec<u8>)
    requires
        old(handles).wf(),
        old(handles).state.home_fits(),
    ensures
        final(handles).wf(),
        valid_utf8(raw@) ==> lossy_text(raw@) == decode_utf8(raw@),
        ({
            let text = lossy_text(raw@);
            let asked = route_of(method_of(text), path_of(text));
            let hint = declared_hint(body_of(text));
            let reply = reply_of(asked, old(handles).snapshot, hint);
            &&& performed(asked, hint, now_ms as int, *old(handles), *final(handles))
            &&& response@ == encode_utf8(response_text(reply.0, object_text(reply.1)))
        }),
{
    let text: String = lossy(raw);
    let (method, path, body) = request_parts(text.as_str());
    let asked: Route = classify(method, path);
    let mut hint: i8 = 0;
    if asked == Route::DirectionHint {
        hint = match &string_member(body, "direction") {
            Some(word) => direction_hint(Some(word.as_str())),
            None => direction_hint(None),
        };
    }
    let (status, fields) = perform(asked, hint, handles, now_ms);
    let body: String = write_object(fields.as_slice());
    json_response(status, body.as_str())
}

} // verus!
