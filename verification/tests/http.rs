//! Requests, responses, and the text underneath them.

use channel_gate_encoder::debug_server::{
    classify, content_length, direction_hint, json_response, perform, request_complete,
    request_parts, route, stop_reading, DebugHandles, Route, REQUEST_LIMIT,
};
use channel_gate_encoder::health::{healthcheck_ok, healthcheck_port, starts_healthy};
use channel_gate_encoder::ratio::Ratio;
use channel_gate_encoder::state::{EncoderState, Snapshot};
use channel_gate_encoder::text::{
    append_decimal, append_padded, eq_ignore_case, is_whitespace, read_unsigned, str_eq, trim,
};
use serde_json::Value;

const NOW_MS: i64 = 1_700_000_000_000;

fn handles() -> DebugHandles {
    DebugHandles {
        snapshot: Snapshot::default(),
        state: EncoderState::new(false),
        hints: vec![(0, 0)],
    }
}

fn text_of(response: &[u8]) -> String {
    String::from_utf8(response.to_vec()).unwrap()
}

fn chars(s: &str) -> Vec<char> {
    s.chars().collect()
}

#[test]
fn a_request_without_a_terminated_head_is_incomplete() {
    assert!(!request_complete(b""));
    assert!(!request_complete(b"GET /state HTTP/1.1\r\nHost: x\r\n"));
    assert!(!request_complete(b"GET /state HTTP/1.1\n\n"));
}

#[test]
fn a_head_without_a_length_needs_no_body() {
    assert!(request_complete(b"GET /state HTTP/1.1\r\nHost: x\r\n\r\n"));
    assert!(request_complete(b"\r\n\r\n"));
}

#[test]
fn the_body_has_to_arrive_in_full() {
    let head = "POST /direction_hint HTTP/1.1\r\nHost: x\r\nContent-Length: 18\r\n\r\n";
    let body = r#"{"direction":"cw"}"#;
    assert_eq!(body.len(), 18);
    assert!(!request_complete(head.as_bytes()));
    assert!(!request_complete(format!("{head}{}", &body[..17]).as_bytes()));
    assert!(request_complete(format!("{head}{body}").as_bytes()));
    assert!(request_complete(format!("{head}{body} and more").as_bytes()));
}

#[test]
fn the_length_header_is_read_in_any_case_and_trimmed() {
    assert_eq!(content_length("CONTENT-length:  42 \r\nHost: x"), 42);
    assert_eq!(content_length("POST / HTTP/1.1\r\nContent-Length:+7"), 7);
    assert_eq!(content_length("POST / HTTP/1.1\r\nHost: x"), 0);
    // The first such line decides, and one that holds no number is none.
    assert_eq!(content_length("content-length: 3\r\ncontent-length: 9"), 3);
    assert_eq!(content_length("content-length: x\r\ncontent-length: 9"), 0);
    assert_eq!(content_length("content-length: -5"), 0);
    assert_eq!(content_length("content-length:"), 0);
    // A name that only begins or ends like it is another header.
    assert_eq!(content_length("x-content-length: 3"), 0);
    assert_eq!(content_length("content-length : 3"), 0);
}

#[test]
fn a_length_beyond_any_body_is_never_complete() {
    let raw = b"POST /zero HTTP/1.1\r\ncontent-length: 99999999999999999999999\r\n\r\nbody";
    assert!(!request_complete(raw));
    assert_eq!(content_length("content-length: 18446744073709551615"), u64::MAX);
    assert_eq!(content_length("content-length: 18446744073709551616"), u64::MAX);
}

#[test]
fn an_invalid_byte_in_the_head_does_not_hide_the_length() {
    let mut raw = b"POST /x HTTP/1.1\r\nX: \xff\xfe\r\ncontent-length: 2\r\n\r\n".to_vec();
    assert!(!request_complete(&raw));
    raw.extend_from_slice(b"ok");
    assert!(request_complete(&raw));
}

#[test]
fn reading_stops_at_the_limit() {
    let long = vec![b'a'; REQUEST_LIMIT];
    assert!(!stop_reading(&long));
    let longer = vec![b'a'; REQUEST_LIMIT + 1];
    assert!(stop_reading(&longer));
    assert!(stop_reading(b"GET / HTTP/1.1\r\n\r\n"));
}

#[test]
fn a_request_is_split_by_words_and_blank_lines() {
    assert_eq!(
        request_parts("GET /state?x=1?y HTTP/1.1\r\nA: b\r\n\r\nbody\r\n\r\nrest"),
        ("GET", "/state", "body")
    );
    assert_eq!(request_parts("  POST\t\u{a0}/zero"), ("POST", "/zero", ""));
    assert_eq!(request_parts("GET"), ("GET", "", ""));
    assert_eq!(request_parts("   "), ("", "", ""));
    assert_eq!(request_parts(""), ("", "", ""));
    assert_eq!(request_parts("GET ?q"), ("GET", "", ""));
}

#[test]
fn routes_need_both_the_method_and_the_path() {
    assert_eq!(classify("GET", "/state"), Route::State);
    assert_eq!(classify("GET", "/healthz"), Route::Health);
    assert_eq!(classify("POST", "/zero"), Route::Zero);
    assert_eq!(classify("POST", "/reset_missed"), Route::ResetMissed);
    assert_eq!(classify("POST", "/direction_hint"), Route::DirectionHint);
    assert_eq!(classify("POST", "/state"), Route::Unknown);
    assert_eq!(classify("GET", "/zero"), Route::Unknown);
    assert_eq!(classify("get", "/state"), Route::Unknown);
    assert_eq!(classify("GET", "/state/"), Route::Unknown);
}

#[test]
fn direction_words() {
    assert_eq!(direction_hint(Some("cw")), 1);
    assert_eq!(direction_hint(Some("cCw")), -1);
    assert_eq!(direction_hint(Some("none")), 0);
    assert_eq!(direction_hint(Some("cw ")), 0);
    assert_eq!(direction_hint(Some("")), 0);
    assert_eq!(direction_hint(None), 0);
}

#[test]
fn a_hint_has_to_be_a_string_at_the_top_level() {
    for (body, expected) in [
        (r#"{"direction":"ccw"}"#, -1),
        (r#"{"direction":1}"#, 0),
        (r#"{"direction":null}"#, 0),
        (r#"{"hint":{"direction":"cw"}}"#, 0),
        (r#"["cw"]"#, 0),
        (r#""cw""#, 0),
        (r#"{"direction":"cw""#, 0),
        (r#"{"direction":"cw"}"#, 1),
    ] {
        let mut h = handles();
        let raw = format!("POST /direction_hint HTTP/1.1\r\n\r\n{body}");
        let response = route(raw.as_bytes(), &mut h, NOW_MS);
        assert!(text_of(&response).ends_with(&format!(r#"{{"direction_hint":{expected}}}"#)));
        assert_eq!(h.hints.last(), Some(&(NOW_MS, expected)));
    }
}

#[test]
fn responses_are_framed_exactly() {
    assert_eq!(
        text_of(&json_response(200, "{}")),
        "HTTP/1.1 200 OK\r\ncontent-type: application/json\r\ncontent-length: 2\r\nconnection: close\r\n\r\n{}"
    );
    // The length counts bytes, not characters.
    assert_eq!(
        text_of(&json_response(404, "\u{e4}\u{20ac}")),
        "HTTP/1.1 404 Not Found\r\ncontent-type: application/json\r\ncontent-length: 5\r\nconnection: close\r\n\r\n\u{e4}\u{20ac}"
    );
}

#[test]
fn every_route_answers_as_stated() {
    let mut h = handles();
    let answer = |h: &mut DebugHandles, request: &str| {
        let response = text_of(&route(request.as_bytes(), h, NOW_MS));
        response.split("\r\n\r\n").nth(1).unwrap().to_string()
    };
    assert_eq!(answer(&mut h, "GET /healthz HTTP/1.1\r\n\r\n"), r#"{"ok":true}"#);
    assert_eq!(answer(&mut h, "POST /zero HTTP/1.1\r\n\r\n"), r#"{"homed":true}"#);
    assert_eq!(answer(&mut h, "POST /reset_missed HTTP/1.1\r\n\r\n"), r#"{"missed_edges":0}"#);
    assert_eq!(answer(&mut h, "PUT /zero HTTP/1.1\r\n\r\n"), r#"{"error":"not found"}"#);
}

#[test]
fn performing_a_route_gives_its_members() {
    let mut h = handles();
    let (status, fields) = perform(Route::DirectionHint, -1, &mut h, NOW_MS);
    assert_eq!(status, 200);
    assert_eq!(fields.len(), 1);
    assert_eq!(fields[0].0, "direction_hint");
    let (status, fields) = perform(Route::State, 0, &mut h, NOW_MS);
    assert_eq!(status, 200);
    assert_eq!(fields.len(), 30);
    let (status, _) = perform(Route::Unknown, 0, &mut h, NOW_MS);
    assert_eq!(status, 404);
}

#[test]
fn reading_the_state_changes_nothing() {
    let mut h = handles();
    h.state.decoder.missed = 4;
    let first = route(b"GET /state HTTP/1.1\r\n\r\n", &mut h, NOW_MS);
    let second = route(b"GET /state HTTP/1.1\r\n\r\n", &mut h, NOW_MS + 1);
    assert_eq!(first, second);
    assert_eq!(h.state.decoder.missed, 4);
    assert_eq!(h.hints, vec![(0, 0)]);
}

#[test]
fn the_state_is_served_with_rounded_numbers() {
    let mut snap = Snapshot::default();
    snap.ts = Ratio::new(1_700_000_000_123_456_789, 1_000_000_000);
    snap.count = -7;
    snap.revolutions = Ratio::new(-1, 3);
    snap.rpm = Ratio::new(25, 100);
    snap.height_mm = Ratio::new(1_005_000, 1_000_000);
    snap.percent_open = Ratio::new(200, 3);
    snap.uptime_s = Ratio::new(12_950_000_000, 1_000_000_000);
    snap.missed_edges = u64::MAX;
    snap.event_cursor = i64::MIN;
    snap.publish_interval_s = Ratio::new(50_000_001, 1_000_000_000);
    let json: Value = serde_json::from_str(&snap.to_json()).unwrap();
    assert_eq!(json.as_object().unwrap().len(), 30);
    assert_eq!(json["ts"].as_f64(), Some(1_700_000_000.123));
    assert_eq!(json["count"].as_i64(), Some(-7));
    assert_eq!(json["revolutions"].as_f64(), Some(-0.3333));
    assert_eq!(json["rpm"].as_f64(), Some(0.2), "a tie goes to the even digit");
    assert_eq!(json["height_mm"].as_f64(), Some(1.0));
    assert_eq!(json["percent_open"].as_f64(), Some(66.67));
    assert_eq!(json["uptime_s"].as_f64(), Some(12.9), "12.95 lies below the tie in binary");
    assert_eq!(json["missed_edges"].as_u64(), Some(u64::MAX));
    assert_eq!(json["event_cursor"].as_i64(), Some(i64::MIN));
    assert_eq!(json["publish_interval_s"].as_f64(), Some(0.050000001));
    assert_eq!(json["input_mode"].as_str(), Some("stream"));
    assert_eq!(json["homed"].as_bool(), Some(false));
    assert_eq!(json["speed_mm_min"].as_f64(), Some(0.0));
}

#[test]
fn the_default_snapshot_as_json() {
    assert_eq!(
        Snapshot::default().to_json(),
        concat_lines(&[
            r#"{"ambiguous_edges":0,"count":0,"counts_per_rev":0,"direction":"stopped","#,
            r#""edge_mode":"rising_2x","event_cursor":0,"events_decoded":0,"filtered_edges":0,"#,
            r#""height_mm":0.0,"home_switch":false,"homed":false,"hw_period_edges":0,"#,
            r#""hw_period_missing":0,"input_mode":"stream","missed_edges":0,"percent_open":0.0,"#,
            r#""period_disagreements":0,"poll_errors":0,"publish_interval_s":0.5,"#,
            r#""pulse_callbacks":0,"pulse_direction":0,"pulses_reporting_high":0,"#,
            r#""revolutions":0.0,"rotation_direction":"stopped","rpm":0.0,"speed_mm_min":0.0,"#,
            r#""stream_reconnects":0,"ts":0.0,"unsigned_edges":0,"uptime_s":0.0}"#,
        ])
    );
}

fn concat_lines(lines: &[&str]) -> String {
    lines.concat()
}

#[test]
fn numbers_are_written_in_decimal() {
    let written = |n: u128| {
        let mut out = String::from("n=");
        append_decimal(&mut out, n);
        out
    };
    assert_eq!(written(0), "n=0");
    assert_eq!(written(10), "n=10");
    assert_eq!(written(987_654_321), "n=987654321");
    assert_eq!(written(u128::MAX), "n=340282366920938463463374607431768211455");
    let mut out = String::new();
    append_padded(&mut out, 42, 4);
    assert_eq!(out, "0042");
}

#[test]
fn what_is_written_is_read_back() {
    for n in [0u64, 7, 10, 12_345, u64::MAX] {
        let mut out = String::new();
        append_decimal(&mut out, n as u128);
        assert_eq!(read_unsigned(&chars(&out)), Some(n));
    }
    assert_eq!(read_unsigned(&chars("+")), None);
    assert_eq!(read_unsigned(&chars("")), None);
    assert_eq!(read_unsigned(&chars("1 2")), None);
    assert_eq!(read_unsigned(&chars("\u{0663}")), None);
}

#[test]
fn fractions_are_written_as_doubles_with_ties_to_even() {
    assert_eq!(Ratio::new(1, 2).fixed(1), "0.5");
    assert_eq!(Ratio::new(1, 8).fixed(2), "0.12");
    assert_eq!(Ratio::new(-1, 8).fixed(2), "-0.12");
    assert_eq!(Ratio::new(3, 8).fixed(2), "0.38");
    assert_eq!(Ratio::new(126, 1000).fixed(2), "0.13");
    // Decimal ties that no double holds fall to the side of the nearest double.
    assert_eq!(Ratio::new(1_015_000, 1_000_000).fixed(2), "1.01");
    assert_eq!(Ratio::new(1_005, 1_000).fixed(2), "1.00");
    assert_eq!(Ratio::new(1_025, 1_000).fixed(2), "1.02");
    assert_eq!(Ratio::new(285, 1_000).fixed(2), "0.28");
    assert_eq!(Ratio::new(2_675, 1_000).fixed(2), "2.67");
    assert_eq!(Ratio::new(9_995, 1_000).fixed(2), "9.99");
    assert_eq!(Ratio::new(9_996, 1_000).fixed(2), "10.00", "a carry over the point");
    assert_eq!(Ratio::new(1, 1_000_000_000_000).fixed(4), "0.0000");
    // From 2^53 on the exact number is written.
    assert_eq!(Ratio::new((1 << 54) + 3, 2).fixed(1), "9007199254740993.5");
    assert_eq!(Ratio::new((1 << 54) - 1, 2).fixed(1), "9007199254740992.0");
    assert_eq!(Ratio::new(999, 1000).fixed(2), "1.00");
    assert_eq!(Ratio::new(-1, 1000).fixed(2), "-0.00");
    assert_eq!(Ratio::zero().fixed(3), "0.000");
    assert_eq!(Ratio::new(7, 3).fixed(4), "2.3333");
    assert_eq!(Ratio::new(123_456_789, 1_000_000_000).fixed(9), "0.123456789");
}

#[test]
fn written_fractions_round_as_their_doubles_print() {
    // The standard formatter rounds the exact binary value, a tie to even.
    let mut x: u64 = 0x9e37_79b9_7f4a_7c15;
    for _ in 0..20_000 {
        x ^= x << 13;
        x ^= x >> 7;
        x ^= x << 17;
        let num = (x >> 20) as i128 % 10_000_000_000;
        let den = (x & 0xf_ffff) as i128 % 200_000 + 1;
        let double = num as f64 / den as f64;
        assert_eq!(Ratio::new(num, den).fixed(3), format!("{double:.3}"), "{num}/{den}");
        let half = num % 1_000_000 * 10 + 5;
        let double = half as f64 / 1_000.0;
        assert_eq!(Ratio::new(half, 1_000).fixed(2), format!("{double:.2}"), "{half}/1000");
    }
}

#[test]
fn fractions_are_rounded_half_away_from_zero() {
    assert_eq!(Ratio::new(1, 32).rounded(4), Ratio::new(313, 10_000));
    assert_eq!(Ratio::new(-1, 32).rounded(4), Ratio::new(-313, 10_000));
    assert_eq!(Ratio::new(1, 8).rounded(2), Ratio::new(13, 100));
    assert_eq!(Ratio::new(1, 3).rounded(4), Ratio::new(3_333, 10_000));
    assert_eq!(Ratio::new(5, 2).rounded(0), Ratio::new(3, 1));
    assert_eq!(Ratio::new(i64::MIN as i128, 1).rounded(9).num, i64::MIN as i128 * 1_000_000_000);
}

#[test]
fn a_valid_request_is_read_as_what_it_encodes() {
    let mut h = handles();
    h.state.decoder.count = 5;
    let response = route("POST /zero HTTP/1.1\r\nX: \u{e4}\r\n\r\n".as_bytes(), &mut h, NOW_MS);
    assert!(text_of(&response).starts_with("HTTP/1.1 200 OK"));
    assert_eq!(h.state.decoder.count, 0);
}

#[test]
fn text_helpers() {
    assert!(str_eq("gate", "gate"));
    assert!(!str_eq("gate", "gat"));
    assert!(!str_eq("gate", "Gate"));
    assert!(eq_ignore_case(&chars("GaTe"), "gate"));
    assert!(!eq_ignore_case(&chars("g\u{e4}te"), "g\u{c4}te"));
    assert_eq!(trim(&chars(" \t a b \r\n")), (3, 6));
    assert_eq!(trim(&chars("  ")), (0, 0));
    for c in (0u32..0x11_0000).filter_map(char::from_u32) {
        assert_eq!(is_whitespace(c), c.is_whitespace(), "{:x}", c as u32);
    }
}

#[test]
fn the_healthcheck_port() {
    assert_eq!(healthcheck_port(None), 49200);
    assert_eq!(healthcheck_port(Some("8080")), 8080);
    assert_eq!(healthcheck_port(Some("65535")), 65535);
    assert_eq!(healthcheck_port(Some("65536")), 49200);
    assert_eq!(healthcheck_port(Some("80 ")), 49200);
    assert_eq!(healthcheck_port(Some("")), 49200);
}

#[test]
fn only_a_200_is_healthy() {
    assert!(healthcheck_ok(b"HTTP/1.1 200 OK\r\n\r\n"));
    assert!(!healthcheck_ok(b"HTTP/1.1 503 Service Unavailable\r\n\r\n"));
    assert!(!healthcheck_ok(b""));
    assert!(healthcheck_ok(b"HTTP/1.1 200 \xff"));
    assert!(!healthcheck_ok(b"\xffHTTP/1.1 200"));
    assert!(starts_healthy("HTTP/1.1 200"));
    assert!(!starts_healthy("HTTP/1.0 200"));
}
