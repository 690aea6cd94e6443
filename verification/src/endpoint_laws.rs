//! What the debug endpoint makes of a request, and what it answers.

use vstd::prelude::*;
#[allow(unused_imports)]
use vstd::utf8::encode_utf8;

use crate::debug_server::{DebugHandles, Route};
#[allow(unused_imports)]
use crate::debug_server::{
    body_of, declared_hint, declared_length, hint_word, is_complete, is_length_line, line_length,
    method_of, path_of, performed, reply_of, response_text, route_of, target_of, HOST, PORT,
};
#[allow(unused_imports)]
use crate::encoder::{trimmed_hints, HINT_HISTORY_MS};
use crate::json::FieldValue;
#[allow(unused_imports)]
use crate::json::{lossy_text, string_member_of};
#[allow(unused_imports)]
use crate::health::is_healthy;
#[allow(unused_imports)]
use crate::member_laws::holds;
use crate::state::{EncoderState, Snapshot};
#[allow(unused_imports)]
use crate::state::snapshot_members;
#[allow(unused_imports)]
use crate::text::{
    blank_line, blank_line_bytes, decimal, index_from, is_space, lower, lower_text, pattern_from,
    space_at, trimmed, unsigned_number,
};
#[allow(unused_imports)]
use crate::text_laws::{
    law_decimal_is_canonical, law_index_is_the_first, law_pattern_is_the_first,
    law_space_at_is_the_first, law_trimming_strips_both_ends,
};

verus! {

/// Whether every character is whitespace.
pub open spec fn blank(s: Seq<char>) -> bool {
    forall|i: int| 0 <= i < s.len() ==> is_space(#[trigger] s[i])
}

/// Whether no character is whitespace, and there is one.
pub open spec fn is_word(s: Seq<char>) -> bool {
    s.len() > 0 && forall|i: int| 0 <= i < s.len() ==> !is_space(#[trigger] s[i])
}

proof fn lemma_word_ends(before: Seq<char>, run: Seq<char>, after: Seq<char>, space: bool)
    requires
        forall|i: int| 0 <= i < run.len() ==> is_space(#[trigger] run[i]) != space,
        after.len() > 0 ==> is_space(after[0]) == space,
    ensures
        space_at(before + run + after, before.len() as int, space) == before.len() + run.len(),
{
    let s = before + run + after;
    let from = before.len() as int;
    law_space_at_is_the_first(s, from, space);
    let at = space_at(s, from, space);
    if at < from + run.len() {
        assert(s[at] == run[at - from]);
    } else if at > from + run.len() {
        assert(s[from + run.len()] == after[0]);
    }
}

/// A request's first word is its method and the second its target, however much
/// whitespace stands before and between them, and whatever follows.
pub proof fn law_words_are_method_and_target(
    lead: Seq<char>,
    method: Seq<char>,
    gap: Seq<char>,
    target: Seq<char>,
    rest: Seq<char>,
)
    requires
        blank(lead),
        is_word(method),
        gap.len() > 0 && blank(gap),
        is_word(target),
        rest.len() > 0 ==> is_space(rest[0]),
    ensures
        method_of(lead + method + gap + target + rest) == method,
        target_of(lead + method + gap + target + rest) == target,
{
    let s = lead + method + gap + target + rest;
    let a = Seq::<char>::empty();
    assert(s =~= a + lead + (method + gap + target + rest));
    assert((method + gap + target + rest)[0] == method[0]);
    lemma_word_ends(a, lead, method + gap + target + rest, false);
    assert(s =~= lead + method + (gap + target + rest));
    assert((gap + target + rest)[0] == gap[0]);
    lemma_word_ends(lead, method, gap + target + rest, true);
    assert(s =~= (lead + method) + gap + (target + rest));
    assert((target + rest)[0] == target[0]);
    lemma_word_ends(lead + method, gap, target + rest, false);
    assert(s =~= (lead + method + gap) + target + rest);
    lemma_word_ends(lead + method + gap, target, rest, true);
    assert(method_of(s) =~= method);
    assert(target_of(s) =~= target);
}

/// A request of whitespace alone has neither.
pub proof fn law_blank_request_has_no_words(text: Seq<char>)
    requires
        blank(text),
    ensures
        method_of(text).len() == 0,
        target_of(text).len() == 0,
        path_of(text).len() == 0,
{
    let a = Seq::<char>::empty();
    assert(text =~= a + text + a);
    lemma_word_ends(a, text, a, false);
}

/// The path is the target up to its first question mark.
pub proof fn law_path_ends_at_the_query(text: Seq<char>)
    ensures
        path_of(text).is_prefix_of(target_of(text)),
        forall|i: int| 0 <= i < path_of(text).len() ==> #[trigger] path_of(text)[i] != '?',
        path_of(text).len() < target_of(text).len() ==> target_of(text)[path_of(text).len() as int]
            == '?',
{
    law_index_is_the_first(target_of(text), '?', 0);
}

/// Whether a blank line, as it ends a head, stands at an index.
pub open spec fn ends_head_at(s: Seq<char>, i: int) -> bool {
    &&& 0 <= i
    &&& i + 4 <= s.len()
    &&& s[i] == '\r' && s[i + 1] == '\n' && s[i + 2] == '\r' && s[i + 3] == '\n'
}

proof fn lemma_ends_head(s: Seq<char>, i: int)
    requires
        0 <= i,
        i + 4 <= s.len(),
    ensures
        ends_head_at(s, i) <==> s.subrange(i, i + 4) == blank_line(),
{
    let part = s.subrange(i, i + 4);
    if ends_head_at(s, i) {
        assert(part =~= blank_line());
    }
    assert(part[0] == s[i] && part[1] == s[i + 1] && part[2] == s[i + 2] && part[3] == s[i + 3]);
}

/// A request's body is what follows the first blank line, up to the next or to
/// the end; and there is none without a blank line.
pub proof fn law_body_is_between_blank_lines(text: Seq<char>, first: int, next: int)
    ensures
        (forall|i: int| !#[trigger] ends_head_at(text, i)) ==> body_of(text).len() == 0,
        ends_head_at(text, first) && (forall|i: int|
            i < first ==> !#[trigger] ends_head_at(text, i)) ==> {
            &&& (forall|i: int| i >= first + 4 ==> !#[trigger] ends_head_at(text, i))
                ==> body_of(text) == text.skip(first + 4)
            &&& next >= first + 4 && ends_head_at(text, next) && (forall|i: int|
                first + 4 <= i < next ==> !#[trigger] ends_head_at(text, i)) ==> body_of(text)
                == text.subrange(first + 4, next)
        },
{
    law_pattern_is_the_first(text, blank_line(), 0);
    assert(blank_line().len() == 4);
    if let Some(at) = pattern_from(text, blank_line(), 0) {
        lemma_ends_head(text, at);
        if ends_head_at(text, first) && (forall|i: int|
            i < first ==> !#[trigger] ends_head_at(text, i)) {
            lemma_ends_head(text, first);
            if first < at {
                assert(text.subrange(first, first + 4) != blank_line());
            }
            assert(at == first);
            law_pattern_is_the_first(text, blank_line(), first + 4);
            if let Some(then) = pattern_from(text, blank_line(), first + 4) {
                lemma_ends_head(text, then);
                if next >= first + 4 && ends_head_at(text, next) {
                    lemma_ends_head(text, next);
                    if next < then {
                        assert(text.subrange(next, next + 4) != blank_line());
                    }
                }
            } else if next >= first + 4 && ends_head_at(text, next) {
                lemma_ends_head(text, next);
                assert(text.subrange(next, next + 4) != blank_line());
            }
        }
    } else if ends_head_at(text, first) {
        lemma_ends_head(text, first);
        assert(text.subrange(first, first + 4) != blank_line());
    }
}

// ---------------------------------------------------------------------------
// The declared length
// ---------------------------------------------------------------------------

/// Whether a name is `content-length` in some case of letters.
pub open spec fn names_length(name: Seq<char>) -> bool {
    &&& name.len() == 14
    &&& forall|i: int|
        0 <= i < 14 ==> #[trigger] name[i] == "content-length"@[i] || (
        'a' <= "content-length"@[i] <= 'z' && name[i] as u32 + 32 == "content-length"@[i] as u32)
}

proof fn lemma_names_length(name: Seq<char>)
    ensures
        names_length(name) <==> lower_text(name) == "content-length"@,
        names_length(name) ==> forall|i: int|
            0 <= i < name.len() ==> #[trigger] name[i] != ':' && name[i] != '\n',
{
    reveal_strlit("content-length");
    let word = "content-length"@;
    assert(word.len() == 14);
    assert forall|i: int| 0 <= i < 14 implies 'a' <= #[trigger] word[i] <= 'z' || word[i] == '-' by {
    }
    if names_length(name) {
        assert forall|i: int| 0 <= i < 14 implies #[trigger] lower_text(name)[i] == word[i] by {
            assert(name[i] == word[i] || ('a' <= word[i] <= 'z' && name[i] as u32 + 32
                == word[i] as u32));
        }
        assert(lower_text(name) =~= word);
        assert forall|i: int| 0 <= i < name.len() implies #[trigger] name[i] != ':' && name[i]
            != '\n' by {
            assert('a' <= word[i] <= 'z' || word[i] == '-');
        }
    }
    if lower_text(name) == word {
        assert forall|i: int| 0 <= i < 14 implies #[trigger] name[i] == word[i] || ('a' <= word[i]
            <= 'z' && name[i] as u32 + 32 == word[i] as u32) by {
            assert(lower_text(name)[i] == lower(name[i]));
        }
    }
}

proof fn lemma_first_line(line: Seq<char>, rest: Seq<char>)
    requires
        forall|i: int| 0 <= i < line.len() ==> #[trigger] line[i] != '\n',
    ensures
        index_from(line, '\n', 0) == line.len(),
        line.take(line.len() as int) == line,
        index_from(line + seq!['\n'] + rest, '\n', 0) == line.len(),
        (line + seq!['\n'] + rest).take(line.len() as int) == line,
        (line + seq!['\n'] + rest).skip(line.len() as int + 1) == rest,
{
    let s = line + seq!['\n'] + rest;
    law_index_is_the_first(line, '\n', 0);
    law_index_is_the_first(s, '\n', 0);
    let at = index_from(s, '\n', 0);
    if at < line.len() {
        assert(s[at] == line[at]);
    } else if at > line.len() {
        assert(s[line.len() as int] == '\n');
    }
    assert(line.take(line.len() as int) =~= line);
    assert(s.take(line.len() as int) =~= line);
    assert(s.skip(line.len() as int + 1) =~= rest);
}

proof fn lemma_length_line(name: Seq<char>, value: Seq<char>)
    requires
        names_length(name),
    ensures
        is_length_line(name + seq![':'] + value),
        line_length(name + seq![':'] + value) == match unsigned_number(trimmed(value)) {
            Some(n) => n,
            None => 0,
        },
{
    let line = name + seq![':'] + value;
    lemma_names_length(name);
    law_index_is_the_first(line, ':', 0);
    let at = index_from(line, ':', 0);
    if at < name.len() {
        assert(line[at] == name[at]);
    } else if at > name.len() {
        assert(line[name.len() as int] == ':');
    }
    assert(line.take(at) =~= name);
    assert(line.skip(at + 1) =~= value);
}

/// A head's first line that is named content-length, in any case of letters,
/// declares the length: the number on it, whatever whitespace stands around it,
/// and none where it holds no number. Later lines do not matter.
pub proof fn law_first_length_line_decides(name: Seq<char>, value: Seq<char>, rest: Seq<char>)
    requires
        names_length(name),
        forall|i: int| 0 <= i < value.len() ==> #[trigger] value[i] != '\n',
    ensures
        ({
            let line = name + seq![':'] + value;
            let number = unsigned_number(trimmed(value));
            &&& number matches Some(n) ==> declared_length(line) == n && declared_length(
                line + seq!['\n'] + rest,
            ) == n
            &&& number is None ==> declared_length(line) == 0 && declared_length(
                line + seq!['\n'] + rest,
            ) == 0
        }),
{
    let line = name + seq![':'] + value;
    lemma_names_length(name);
    lemma_length_line(name, value);
    assert forall|i: int| 0 <= i < line.len() implies #[trigger] line[i] != '\n' by {
        if i < name.len() {
            assert(line[i] == name[i]);
        } else if i > name.len() {
            assert(line[i] == value[i - name.len() - 1]);
        }
    }
    lemma_first_line(line, rest);
}

/// A length is written so that it is read back, with whitespace around it.
pub proof fn law_declared_length_reads_back(
    name: Seq<char>,
    before: Seq<char>,
    length: int,
    after: Seq<char>,
    rest: Seq<char>,
)
    requires
        names_length(name),
        length >= 0,
        blank(before) && blank(after),
        forall|i: int| 0 <= i < before.len() ==> #[trigger] before[i] != '\n',
        forall|i: int| 0 <= i < after.len() ==> #[trigger] after[i] != '\n',
    ensures
        declared_length(
            name + seq![':'] + (before + decimal(length) + after) + seq!['\n'] + rest,
        ) == length,
{
    let value = before + decimal(length) + after;
    law_decimal_is_canonical(length);
    let word = decimal(length);
    assert('0' <= word[0] <= '9' && '0' <= word[word.len() - 1] <= '9');
    law_trimming_strips_both_ends(before, word, after);
    assert forall|i: int| 0 <= i < value.len() implies #[trigger] value[i] != '\n' by {
        if i < before.len() {
            assert(value[i] == before[i]);
        } else if i < before.len() + word.len() {
            assert(value[i] == word[i - before.len()]);
        } else {
            assert(value[i] == after[i - before.len() - word.len()]);
        }
    }
    law_first_length_line_decides(name, value, rest);
}

/// A line that is not named content-length is passed over: one without a colon,
/// or with another name before its first. A head of no other line declares no
/// length.
pub proof fn law_other_lines_declare_nothing(line: Seq<char>, rest: Seq<char>)
    requires
        forall|i: int| 0 <= i < line.len() ==> #[trigger] line[i] != '\n',
        forall|k: int|
            0 <= k < line.len() && #[trigger] line[k] == ':' && (forall|i: int|
                0 <= i < k ==> #[trigger] line[i] != ':') ==> !names_length(line.take(k)),
    ensures
        declared_length(line + seq!['\n'] + rest) == declared_length(rest),
        declared_length(line) == 0,
{
    lemma_first_line(line, rest);
    law_index_is_the_first(line, ':', 0);
    let at = index_from(line, ':', 0);
    if at < line.len() {
        assert(line[at] == ':');
        lemma_names_length(line.take(at));
    }
    assert(!is_length_line(line));
}

/// Whether the bytes of a blank line, as it ends a head, stand at an index.
pub open spec fn ends_bytes_at(s: Seq<u8>, i: int) -> bool {
    &&& 0 <= i
    &&& i + 4 <= s.len()
    &&& s[i] == 13 && s[i + 1] == 10 && s[i + 2] == 13 && s[i + 3] == 10
}

proof fn lemma_ends_bytes(s: Seq<u8>, i: int)
    requires
        0 <= i,
        i + 4 <= s.len(),
    ensures
        ends_bytes_at(s, i) <==> s.subrange(i, i + 4) == blank_line_bytes(),
{
    let part = s.subrange(i, i + 4);
    if ends_bytes_at(s, i) {
        assert(part =~= blank_line_bytes());
    }
    assert(part[0] == s[i] && part[1] == s[i + 1] && part[2] == s[i + 2] && part[3] == s[i + 3]);
}

/// A request is complete once as many bytes follow its first blank line as its
/// head declares, and not before.
pub proof fn law_complete_requests(raw: Seq<u8>, end: int)
    requires
        ends_bytes_at(raw, end),
        forall|i: int| i < end ==> !#[trigger] ends_bytes_at(raw, i),
    ensures
        is_complete(raw) <==> raw.len() - (end + 4) >= declared_length(lossy_text(raw.take(end))),
{
    let line = blank_line_bytes();
    assert(line.len() == 4);
    law_pattern_is_the_first(raw, line, 0);
    lemma_ends_bytes(raw, end);
    assert(raw.subrange(end, end + 4) == line);
    if let Some(at) = pattern_from(raw, line, 0) {
        lemma_ends_bytes(raw, at);
        assert(ends_bytes_at(raw, at));
        assert(at == end);
    }
}

/// Without a blank line a request is not complete.
pub proof fn law_unterminated_requests_are_incomplete(raw: Seq<u8>)
    requires
        forall|i: int| !#[trigger] ends_bytes_at(raw, i),
    ensures
        !is_complete(raw),
{
    let line = blank_line_bytes();
    law_pattern_is_the_first(raw, line, 0);
    if let Some(at) = pattern_from(raw, line, 0) {
        lemma_ends_bytes(raw, at);
        assert(ends_bytes_at(raw, at));
    }
}

// ---------------------------------------------------------------------------
// Routes
// ---------------------------------------------------------------------------

/// Five pairs of a method and a path are served, letter for letter, and every
/// other is unknown.
pub proof fn law_five_routes_are_served(method: Seq<char>, path: Seq<char>)
    ensures
        route_of(method, path) is State <==> method == "GET"@ && path == "/state"@,
        route_of(method, path) is Health <==> method == "GET"@ && path == "/healthz"@,
        route_of(method, path) is Zero <==> method == "POST"@ && path == "/zero"@,
        route_of(method, path) is ResetMissed <==> method == "POST"@ && path == "/reset_missed"@,
        route_of(method, path) is DirectionHint <==> method == "POST"@ && path
            == "/direction_hint"@,
{
    reveal_strlit("GET");
    reveal_strlit("POST");
    reveal_strlit("/state");
    reveal_strlit("/healthz");
    reveal_strlit("/zero");
    reveal_strlit("/reset_missed");
    reveal_strlit("/direction_hint");
    assert("GET"@.len() == 3 && "POST"@.len() == 4);
    assert("/state"@.len() == 6 && "/healthz"@.len() == 8 && "/zero"@.len() == 5);
    assert("/reset_missed"@.len() == 13 && "/direction_hint"@.len() == 15);
}

/// A direction is declared by two words, in any case of letters: `cw` and
/// `ccw`. Any other word, or none, declares none.
pub proof fn law_two_words_declare_a_direction(w: Seq<char>)
    ensures
        hint_word(None) == 0,
        hint_word(Some(w)) == 1 <==> w.len() == 2 && (w[0] == 'c' || w[0] == 'C') && (w[1] == 'w'
            || w[1] == 'W'),
        hint_word(Some(w)) == -1 <==> w.len() == 3 && (w[0] == 'c' || w[0] == 'C') && (w[1] == 'c'
            || w[1] == 'C') && (w[2] == 'w' || w[2] == 'W'),
        hint_word(Some(w)) == 1 || hint_word(Some(w)) == -1 || hint_word(Some(w)) == 0,
{
    reveal_strlit("cw");
    reveal_strlit("ccw");
    let l = lower_text(w);
    assert("cw"@.len() == 2 && "cw"@[0] == 'c' && "cw"@[1] == 'w');
    assert("ccw"@.len() == 3 && "ccw"@[0] == 'c' && "ccw"@[1] == 'c' && "ccw"@[2] == 'w');
    if w.len() == 2 {
        assert(l[0] == lower(w[0]) && l[1] == lower(w[1]));
        if l[0] == 'c' && l[1] == 'w' {
            assert(l =~= "cw"@);
        }
    }
    if w.len() == 3 {
        assert(l[0] == lower(w[0]) && l[1] == lower(w[1]) && l[2] == lower(w[2]));
        if l[0] == 'c' && l[1] == 'c' && l[2] == 'w' {
            assert(l =~= "ccw"@);
        }
    }
}

/// A request declares the direction of the word that its body holds under
/// `direction`, and none where it holds no word there.
pub proof fn law_direction_is_declared_in_the_body(body: Seq<char>)
    ensures
        string_member_of(body, "direction"@) is None ==> declared_hint(body) == 0,
        string_member_of(body, "direction"@) == Some("cw"@) ==> declared_hint(body) == 1,
        string_member_of(body, "direction"@) == Some("ccw"@) ==> declared_hint(body) == -1,
        string_member_of(body, "direction"@) == Some("none"@) ==> declared_hint(body) == 0,
        string_member_of(body, "direction"@) matches Some(w) ==> declared_hint(body) == hint_word(
            Some(w),
        ),
{
    reveal_strlit("cw");
    reveal_strlit("ccw");
    reveal_strlit("none");
    law_two_words_declare_a_direction("cw"@);
    law_two_words_declare_a_direction("ccw"@);
    law_two_words_declare_a_direction("none"@);
}

/// What each route is answered: the last published snapshot, that the endpoint
/// is up, that the count was homed, that no edges are missed now, and the
/// direction that was taken up. Anything else is not found.
pub proof fn law_answers(snapshot: Snapshot, hint: i8)
    ensures
        reply_of(Route::State, snapshot, hint) == (200u16, snapshot_members(snapshot)),
        reply_of(Route::Health, snapshot, hint).0 == 200,
        reply_of(Route::Zero, snapshot, hint).0 == 200,
        reply_of(Route::ResetMissed, snapshot, hint).0 == 200,
        reply_of(Route::DirectionHint, snapshot, hint).0 == 200,
        reply_of(Route::Unknown, snapshot, hint).0 == 404,
        reply_of(Route::Health, snapshot, hint).1.len() == 1,
        reply_of(Route::Zero, snapshot, hint).1.len() == 1,
        reply_of(Route::ResetMissed, snapshot, hint).1.len() == 1,
        reply_of(Route::DirectionHint, snapshot, hint).1.len() == 1,
        reply_of(Route::Unknown, snapshot, hint).1.len() == 1,
        holds(reply_of(Route::Health, snapshot, hint).1, "ok"@, FieldValue::Flag(true)),
        holds(reply_of(Route::Zero, snapshot, hint).1, "homed"@, FieldValue::Flag(true)),
        holds(reply_of(Route::ResetMissed, snapshot, hint).1, "missed_edges"@, FieldValue::Int(0)),
        holds(
            reply_of(Route::DirectionHint, snapshot, hint).1,
            "direction_hint"@,
            FieldValue::Int(hint as int),
        ),
        holds(
            reply_of(Route::Unknown, snapshot, hint).1,
            "error"@,
            FieldValue::Text("not found"@),
        ),
{
    assert(reply_of(Route::Health, snapshot, hint).1[0] == ("ok"@, FieldValue::Flag(true)));
    assert(reply_of(Route::Zero, snapshot, hint).1[0] == ("homed"@, FieldValue::Flag(true)));
    assert(reply_of(Route::ResetMissed, snapshot, hint).1[0] == (
        "missed_edges"@,
        FieldValue::Int(0),
    ));
    assert(reply_of(Route::DirectionHint, snapshot, hint).1[0] == (
        "direction_hint"@,
        FieldValue::Int(hint as int),
    ));
    assert(reply_of(Route::Unknown, snapshot, hint).1[0] == (
        "error"@,
        FieldValue::Text("not found"@),
    ));
}

/// Homing zeroes the count, drops what was held unsigned, and notes that and
/// how often it happened. How the decoder reads the next edge stays, and so does
/// every other counter.
pub proof fn law_homing_zeroes_the_count(before: EncoderState, after: EncoderState)
    requires
        before.home_fits(),
        before.homes_to(after),
    ensures
        after.decoder@.count == 0,
        after.decoder@.unsigned == 0,
        after.homed,
        after.home_epoch == before.home_epoch + 1,
        after.decoder@.missed == before.decoder@.missed,
        after.decoder@.ambiguous == before.decoder@.ambiguous,
        after.decoder@.filtered == before.decoder@.filtered,
        after.decoder@.sense == before.decoder@.sense,
        after.decoder@.direction == before.decoder@.direction,
        after.decoder@.invert == before.decoder@.invert,
        after.decoder@.hint_only == before.decoder@.hint_only,
        after.decoder@.hw_period_used == before.decoder@.hw_period_used,
        after.decoder@.hw_period_missing == before.decoder@.hw_period_missing,
        after.decoder@.period_disagreements == before.decoder@.period_disagreements,
        after.home_active == before.home_active,
        after.callbacks == before.callbacks,
        after.pulses_reporting_high == before.pulses_reporting_high,
        after.trace == before.trace,
        after.stream_reconnects == before.stream_reconnects,
        after.events_decoded == before.events_decoded,
        after.event_cursor == before.event_cursor,
        after.poll_errors == before.poll_errors,
{
}

/// A request changes what it is about: to zero homes, to reset clears the
/// missed edges, a direction joins the hints, and what only asks changes
/// nothing. The snapshot is never changed.
pub proof fn law_requests_change_what_they_are_about(
    route: Route,
    hint: i8,
    now_ms: i64,
    before: DebugHandles,
    after: DebugHandles,
)
    requires
        before.state.home_fits(),
        performed(route, hint, now_ms as int, before, after),
    ensures
        after.snapshot == before.snapshot,
        route is State || route is Health || route is Unknown ==> after == before,
        !(route is DirectionHint) ==> after.hints == before.hints,
        route is DirectionHint ==> after.state == before.state,
        route is Zero ==> {
            &&& after.state.decoder@.count == 0
            &&& after.state.decoder@.unsigned == 0
            &&& after.state.homed
            &&& after.state.home_epoch == before.state.home_epoch + 1
            &&& after.state.decoder@.missed == before.state.decoder@.missed
            &&& after.state.home_active == before.state.home_active
        },
        route is ResetMissed ==> {
            &&& after.state.decoder@.missed == 0
            &&& after.state.decoder@.count == before.state.decoder@.count
            &&& after.state.decoder@.unsigned == before.state.decoder@.unsigned
            &&& after.state.decoder@.ambiguous == before.state.decoder@.ambiguous
            &&& after.state.decoder@.filtered == before.state.decoder@.filtered
            &&& after.state.decoder@.sense == before.state.decoder@.sense
            &&& after.state.decoder@.direction == before.state.decoder@.direction
            &&& after.state.decoder@.invert == before.state.decoder@.invert
            &&& after.state.decoder@.hint_only == before.state.decoder@.hint_only
            &&& after.state.homed == before.state.homed
            &&& after.state.home_epoch == before.state.home_epoch
            &&& after.state.home_active == before.state.home_active
            &&& after.state.callbacks == before.state.callbacks
            &&& after.state.events_decoded == before.state.events_decoded
            &&& after.state.event_cursor == before.state.event_cursor
            &&& after.state.trace == before.state.trace
        },
{
}

/// A hint joins the timeline at its own time, and of what stands before it only
/// leading entries leave: those whose successor took effect more than ten
/// minutes ago.
pub proof fn law_hints_are_kept_ten_minutes(
    hint: i8,
    now_ms: i64,
    before: DebugHandles,
    after: DebugHandles,
) -> (k: int)
    requires
        performed(Route::DirectionHint, hint, now_ms as int, before, after),
    ensures
        0 <= k <= before.hints@.len(),
        after.hints@ == before.hints@.skip(k).push((now_ms, hint)),
        forall|i: int|
            1 <= i <= k && i < before.hints@.len() ==> (#[trigger] before.hints@[i]).0 < now_ms
                - 600_000,
        k + 1 < before.hints@.len() ==> before.hints@[k + 1].0 >= now_ms - 600_000,
        k == before.hints@.len() ==> k == 0,
{
    let all = before.hints@.push((now_ms, hint));
    let k = lemma_trimmed(all, now_ms - 600_000);
    if k == before.hints@.len() && k > 0 {
        assert(all[k] == (now_ms, hint));
        assert(all[k].0 < now_ms - 600_000);
    }
    assert(all.skip(k) =~= before.hints@.skip(k).push((now_ms, hint)));
    assert forall|i: int| 1 <= i <= k && i < before.hints@.len() implies (
    #[trigger] before.hints@[i]).0 < now_ms - 600_000 by {
        assert(all[i] == before.hints@[i]);
    }
    if k + 1 < before.hints@.len() {
        assert(all[k + 1] == before.hints@[k + 1]);
    }
    k
}

proof fn lemma_trimmed(all: Seq<(i64, i8)>, cutoff: int) -> (k: int)
    requires
        all.len() > 0,
    ensures
        0 <= k < all.len(),
        trimmed_hints(all, cutoff) == all.skip(k),
        forall|i: int| 1 <= i <= k ==> (#[trigger] all[i]).0 < cutoff,
        k + 1 < all.len() ==> all[k + 1].0 >= cutoff,
    decreases all.len(),
{
    if all.len() > 1 && all[1].0 < cutoff {
        let rest = all.drop_first();
        let j = lemma_trimmed(rest, cutoff);
        assert(rest.skip(j) =~= all.skip(j + 1));
        assert forall|i: int| 1 <= i <= j + 1 implies (#[trigger] all[i]).0 < cutoff by {
            if i > 1 {
                assert(rest[i - 1] == all[i]);
            }
        }
        if j + 2 < all.len() {
            assert(rest[j + 1] == all[j + 2]);
        }
        j + 1
    } else {
        assert(all.skip(0) =~= all);
        0
    }
}

// ---------------------------------------------------------------------------
// Responses
// ---------------------------------------------------------------------------

/// The endpoint is reachable from the same machine alone, at one port.
pub proof fn law_endpoint_is_local()
    ensures
        HOST@ == "127.0.0.1"@,
        PORT == 8765,
{
}

proof fn lemma_statuses()
    ensures
        decimal(200) == seq!['2', '0', '0'],
        decimal(404) == seq!['4', '0', '4'],
{
    reveal_with_fuel(decimal, 4);
    assert(decimal(200) =~= seq!['2', '0', '0']);
    assert(decimal(404) =~= seq!['4', '0', '4']);
}

/// A response is an answer of HTTP 1.1, found or not found, whose lines say that
/// it is JSON, how many bytes the body has, and that the connection is closed.
/// The healthcheck takes it for healthy exactly where it was found.
pub proof fn law_response_is_http(body: Seq<char>)
    ensures
        response_text(200, body)
            == "HTTP/1.1 200 OK\r\ncontent-type: application/json\r\ncontent-length: "@ + decimal(
            encode_utf8(body).len() as int,
        ) + "\r\nconnection: close\r\n\r\n"@ + body,
        response_text(404, body)
            == "HTTP/1.1 404 Not Found\r\ncontent-type: application/json\r\ncontent-length: "@
            + decimal(encode_utf8(body).len() as int) + "\r\nconnection: close\r\n\r\n"@ + body,
        is_healthy(response_text(200, body)),
        !is_healthy(response_text(404, body)),
{
    lemma_statuses();
    reveal_strlit("HTTP/1.1 ");
    reveal_strlit(" ");
    reveal_strlit("OK");
    reveal_strlit("Not Found");
    reveal_strlit("\r\ncontent-type: application/json\r\ncontent-length: ");
    reveal_strlit("HTTP/1.1 200 OK\r\ncontent-type: application/json\r\ncontent-length: ");
    reveal_strlit("HTTP/1.1 404 Not Found\r\ncontent-type: application/json\r\ncontent-length: ");
    let common = "\r\ncontent-type: application/json\r\ncontent-length: "@;
    let found = "HTTP/1.1 "@ + seq!['2', '0', '0'] + " "@ + "OK"@ + common;
    let missing = "HTTP/1.1 "@ + seq!['4', '0', '4'] + " "@ + "Not Found"@ + common;
    assert(found =~= "HTTP/1.1 200 OK\r\ncontent-type: application/json\r\ncontent-length: "@);
    assert(missing
        =~= "HTTP/1.1 404 Not Found\r\ncontent-type: application/json\r\ncontent-length: "@);
    reveal_strlit("HTTP/1.1 200");
    let line = "HTTP/1.1 200"@;
    assert(line.len() == 12);
    assert(response_text(200, body).subrange(0, 12) =~= line);
    assert(response_text(404, body)[9] == '4');
    assert(line[9] == '2');
    if is_healthy(response_text(404, body)) {
        assert(response_text(404, body).subrange(0, 12)[9] == line[9]);
    }
}

/// A response's own head declares the length of its body in bytes: read as the
/// endpoint reads a head, it gives it back.
pub proof fn law_response_declares_its_body(body: Seq<char>, found: bool) -> (head: Seq<char>)
    ensures
        ({
            let status: u16 = if found {
                200
            } else {
                404
            };
            &&& response_text(status, body) == head + seq!['\r', '\n', '\r', '\n'] + body
            &&& declared_length(head) == encode_utf8(body).len()
        }),
{
    let n = encode_utf8(body).len() as int;
    law_response_is_http(body);
    let status_line = if found {
        "HTTP/1.1 200 OK\r"@
    } else {
        "HTTP/1.1 404 Not Found\r"@
    };
    let type_line = "content-type: application/json\r"@;
    let name = "content-length"@;
    let value = seq![' '] + decimal(n) + seq!['\r'];
    let last = "connection: close"@;
    let eol = seq!['\n'];
    let length_on = name + seq![':'] + value + eol + last;
    let type_on = type_line + eol + length_on;
    let head = status_line + eol + type_on;
    reveal_strlit("HTTP/1.1 200 OK\r");
    reveal_strlit("HTTP/1.1 404 Not Found\r");
    reveal_strlit("content-type: application/json\r");
    reveal_strlit("content-length");
    reveal_strlit("connection: close");
    reveal_strlit("\r\nconnection: close\r\n\r\n");
    reveal_strlit("HTTP/1.1 200 OK\r\ncontent-type: application/json\r\ncontent-length: ");
    reveal_strlit("HTTP/1.1 404 Not Found\r\ncontent-type: application/json\r\ncontent-length: ");
    let start = status_line + eol + type_line + eol + name + seq![':', ' '];
    let end = seq!['\r'] + eol + last + seq!['\r', '\n', '\r', '\n'];
    if found {
        assert(start
            =~= "HTTP/1.1 200 OK\r\ncontent-type: application/json\r\ncontent-length: "@);
    } else {
        assert(start
            =~= "HTTP/1.1 404 Not Found\r\ncontent-type: application/json\r\ncontent-length: "@);
    }
    assert(end =~= "\r\nconnection: close\r\n\r\n"@);
    assert(head + seq!['\r', '\n', '\r', '\n'] + body =~= start + decimal(n) + end + body);
    assert(names_length(name));
    law_declared_length_reads_back(name, seq![' '], n, seq!['\r'], last);
    assert(declared_length(length_on) == n);
    assert forall|i: int| 0 <= i < type_line.len() implies #[trigger] type_line[i] != '\n' by {
    }
    assert forall|k: int|
        0 <= k < type_line.len() && #[trigger] type_line[k] == ':' implies k == 12 by {
    }
    law_other_lines_declare_nothing(type_line, length_on);
    assert forall|i: int| 0 <= i < status_line.len() implies #[trigger] status_line[i] != '\n'
        && status_line[i] != ':' by {
    }
    law_other_lines_declare_nothing(status_line, type_on);
    head
}

} // verus!
