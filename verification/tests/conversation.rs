use llmchat::config::SessionConfig;
use llmchat::digest::fingerprint;
use llmchat::json::{parse_json, Json, JsonNumber};
use llmchat::markdown::{ColorScheme, Output, Segment};
use llmchat::output::{
    hued, one, say, Double, Figure, Line, Piece, Single, Span, Stream, Timing,
};
use llmchat::paint::{Hue, Ink, Palette};
use llmchat::prompt::{
    begin_prompt, connection_failure, empty_prompt, silence_failure, status_failure,
};
use llmchat::reply::{Reply, ReplyAction};
use llmchat::session::Message;

const URL: &str = "http://h/v1/chat/completions";

fn message(role: &str, content: &str) -> Message {
    Message { role: role.to_string(), content: content.to_string() }
}

fn document(role: &str, content: &str) -> Json {
    Json::Object(vec![
        ("role".to_string(), Json::Text(role.to_string())),
        ("content".to_string(), Json::Text(content.to_string())),
    ])
}

fn session() -> SessionConfig {
    SessionConfig::new(
        "http://h/v1".to_string(),
        "m".to_string(),
        None,
        Single { bits: 0.5f32.to_bits() },
        None,
    )
}

fn event(token: &str) -> String {
    format!("data: {{\"choices\":[{{\"delta\":{{\"content\":\"{token}\"}}}}]}}\n\n")
}

fn line(s: &str) -> ReplyAction {
    ReplyAction::Show(Output::Line(vec![Segment { code: false, text: s.to_string() }]))
}

fn error_line(hue: Hue, text: &str) -> Line {
    one(Stream::Stderr, hued(hue, text))
}

fn millis(n: u64) -> Timing {
    Timing { seconds: n / 1000, nanos: (n % 1000 * 1_000_000) as u32 }
}

#[test]
fn a_prompt_becomes_a_request() {
    let mut messages = vec![message("user", "a"), message("assistant", "b")];
    let mut config = session();
    config.system_prompt = Some("be kind".to_string());
    config.seed = Some(-7);
    config.api_key = Some("key".to_string());
    let request = begin_prompt("  hello \n", &mut messages, &config).unwrap();
    assert_eq!(messages.len(), 3);
    assert_eq!(messages[2], message("user", "hello"));
    assert_eq!(request.url, "http://h/v1/chat/completions");
    assert_eq!(request.authorization.as_deref(), Some("Bearer key"));
    assert_eq!(
        request.body,
        Json::Object(vec![
            ("model".to_string(), Json::Text("m".to_string())),
            (
                "messages".to_string(),
                Json::Array(vec![
                    document("system", "be kind"),
                    document("user", "a"),
                    document("assistant", "b"),
                    document("user", "hello"),
                ]),
            ),
            ("stream".to_string(), Json::Bool(true)),
            (
                "stream_options".to_string(),
                Json::Object(vec![("include_usage".to_string(), Json::Bool(true))]),
            ),
            (
                "temperature".to_string(),
                Json::Number(JsonNumber::Single(0.5f32.to_bits())),
            ),
            ("seed".to_string(), Json::Number(JsonNumber::Negative(-7))),
        ])
    );
}

#[test]
fn without_a_seed_a_key_or_a_system_prompt_none_is_sent() {
    let mut messages = Vec::new();
    let request = begin_prompt("x", &mut messages, &session()).unwrap();
    assert_eq!(request.authorization, None);
    assert_eq!(request.body.get("seed"), None);
    assert_eq!(
        request.body.get("messages"),
        Some(&Json::Array(vec![document("user", "x")]))
    );
    let mut config = session();
    config.seed = Some(7);
    let request = begin_prompt("y", &mut messages, &config).unwrap();
    assert_eq!(request.body.get("seed").unwrap().as_u64(), Some(7));
}

#[test]
fn white_space_is_no_prompt() {
    let mut messages = vec![message("user", "a")];
    assert_eq!(begin_prompt(" \n\t", &mut messages, &session()), None);
    assert_eq!(messages, vec![message("user", "a")]);
    assert_eq!(empty_prompt(), say("Empty input, please try again!"));
}

#[test]
fn failures_are_told_with_the_address() {
    assert_eq!(
        connection_failure("refused", "http://h/v1/chat/completions"),
        vec![
            error_line(Hue::Red, "Error: Failed to connect to endpoint: refused"),
            error_line(Hue::Yellow, "Endpoint: http://h/v1/chat/completions"),
        ]
    );
    let hint = error_line(Hue::Yellow, "Hint: Endpoint should typically end with /v1");
    let (lines, error) =
        status_failure("404 Not Found", Some("gone".to_string()), "http://h/chat/completions");
    assert_eq!(
        lines,
        vec![
            error_line(Hue::Red, "Error: HTTP 404 Not Found from endpoint"),
            error_line(Hue::Yellow, "Endpoint: http://h/chat/completions"),
            error_line(Hue::Yellow, "Response: gone"),
            hint,
        ]
    );
    assert_eq!(error, "Request failed with status 404 Not Found");
    let (lines, _) =
        status_failure("500", Some(String::new()), "http://h/v1/chat/completions");
    assert_eq!(
        lines,
        vec![
            error_line(Hue::Red, "Error: HTTP 500 from endpoint"),
            error_line(Hue::Yellow, "Endpoint: http://h/v1/chat/completions"),
        ]
    );
    let (lines, _) = status_failure("500", None, "http://h/v1/chat/completions");
    assert_eq!(lines[2], error_line(Hue::Yellow, "Response: Unable to read error"));
    let (lines, error) = silence_failure("http://h");
    assert_eq!(lines.len(), 3);
    assert_eq!(
        lines[0],
        error_line(Hue::Red, "Error: No streaming data received from endpoint")
    );
    assert_eq!(error, "No response data received");
    assert_eq!(silence_failure("http://h/v1/chat/completions").0.len(), 2);
}

#[test]
fn tokens_are_gathered_and_shown_by_lines() {
    let mut reply = Reply::new(ColorScheme::Dark);
    assert!(!reply.heard());
    assert_eq!(
        reply.take_chunk(event("Hel").as_bytes()),
        vec![ReplyAction::FirstToken]
    );
    assert_eq!(
        reply.take_chunk(event("lo\\nwor").as_bytes()),
        vec![line("Hello\n")]
    );
    assert_eq!(reply.take_chunk(event("ld").as_bytes()), Vec::<ReplyAction>::new());
    assert!(reply.heard());
    assert_eq!(reply.text(), "Hello\nworld");
    assert_eq!(reply.token_count(), 3);
    assert_eq!(
        reply.end(),
        vec![Output::Line(vec![Segment { code: false, text: "world".to_string() }])]
    );
    assert_eq!(reply.end(), Vec::<Output>::new());
}

#[test]
fn the_first_token_is_noted_before_what_it_shows() {
    let mut reply = Reply::new(ColorScheme::Light);
    let text = event("a\\n") + &event("b\\n");
    assert_eq!(
        reply.take_text(&text),
        vec![ReplyAction::FirstToken, line("a\n"), line("b\n")]
    );
}

#[test]
fn an_empty_token_counts() {
    let mut reply = Reply::new(ColorScheme::Light);
    assert_eq!(reply.take_text(&event("")), vec![ReplyAction::FirstToken]);
    assert_eq!(reply.token_count(), 1);
    assert_eq!(reply.text(), "");
}

#[test]
fn lines_without_events_are_passed_over() {
    let mut reply = Reply::new(ColorScheme::Light);
    for text in ["", "\n", ": ping\n", "data:{}\n", " data: {}\n", "event: x\n"] {
        assert_eq!(reply.take_text(text), Vec::<ReplyAction>::new());
        assert!(!reply.heard(), "{text:?}");
    }
    assert_eq!(reply.take_text("data: not a document\n"), Vec::<ReplyAction>::new());
    assert!(reply.heard());
    assert_eq!(reply.text(), "");
}

#[test]
fn documents_of_another_form_bring_no_token() {
    for text in [
        "null",
        "[]",
        "{\"choices\":[]}",
        "{\"choices\":{\"0\":{}}}",
        "{\"choices\":[{\"delta\":{}}]}",
        "{\"choices\":[{\"delta\":{\"content\":null}}]}",
        "{\"choices\":[{},{\"delta\":{\"content\":\"x\"}}]}",
        "{\"usage\":null}",
        "{\"usage\":{\"total_tokens\":-1}}",
        "{\"usage\":{\"total_tokens\":\"5\"}}",
    ] {
        let mut reply = Reply::new(ColorScheme::Light);
        let doc = parse_json(text).unwrap();
        assert_eq!(reply.take_document(&doc), Vec::<ReplyAction>::new(), "{text}");
        assert_eq!(reply.token_count(), 0);
        assert!(!reply.heard());
    }
}

#[test]
fn the_reported_number_of_tokens_counts() {
    let mut reply = Reply::new(ColorScheme::Light);
    reply.take_text(&event("a"));
    assert_eq!(reply.token_count(), 1);
    reply.take_text("data: {\"usage\":{\"total_tokens\":42}}\r\n");
    assert_eq!(reply.token_count(), 42);
    reply.take_text("data: {\"usage\":{\"total_tokens\":43}}");
    assert_eq!(reply.token_count(), 43);
}

#[test]
fn done_ends_its_chunk_only() {
    let mut reply = Reply::new(ColorScheme::Light);
    let text = event("a") + "data: [DONE]\n" + &event("b");
    reply.take_chunk(text.as_bytes());
    assert_eq!(reply.text(), "a");
    reply.take_chunk(event("c").as_bytes());
    assert_eq!(reply.text(), "ac");
    assert_eq!(reply.take_line("data: [DONE]"), (Vec::new(), true));
    assert_eq!(reply.take_line("data: [DONE] "), (Vec::new(), false));
}

#[test]
fn texts_may_be_cut_between_lines() {
    let first = event("# A\\ntext") + ": note\n";
    let second = event(" more\\n```\\ncode\\n") + &event("```\\nend");
    let mut whole = Reply::new(ColorScheme::Dark);
    let expected = whole.take_text(&(first.clone() + &second));
    let mut parts = Reply::new(ColorScheme::Dark);
    let mut got = parts.take_text(&first);
    got.extend(parts.take_text(&second));
    assert_eq!(got, expected);
    assert_eq!(parts.text(), whole.text());
}

#[test]
fn an_event_cut_in_two_is_lost() {
    let mut reply = Reply::new(ColorScheme::Dark);
    let text = event("abc");
    let (a, b) = text.split_at(20);
    reply.take_text(a);
    reply.take_text(b);
    assert_eq!(reply.text(), "");
}

#[test]
fn bytes_that_are_no_text_are_replaced() {
    let mut reply = Reply::new(ColorScheme::Dark);
    let mut bytes = event("aXb").into_bytes();
    let at = bytes.iter().position(|&c| c == b'X').unwrap();
    bytes[at] = 0xff;
    reply.take_chunk(&bytes);
    assert_eq!(reply.text(), "a\u{fffd}b");
    reply.take_chunk(event("é").as_bytes());
    assert_eq!(reply.text(), "a\u{fffd}bé");
}

#[test]
fn what_is_shown_depends_on_the_text_alone() {
    let reply_text = "# T\\nsome `code` here\\n```rs\\nlet x;\\n```\\nlast";
    let mut whole = Reply::new(ColorScheme::Dark);
    let mut expected = whole.take_text(&event(reply_text));
    let mut cut = Reply::new(ColorScheme::Dark);
    let mut got = Vec::new();
    for part in reply_text.replace("\\n", "\n").split_inclusive(['e', '\n']) {
        got.extend(cut.take_text(&event(&part.replace('\n', "\\n"))));
    }
    assert_eq!(cut.text(), whole.text());
    assert_eq!(got, expected);
    assert_eq!(cut.end(), whole.end());
    assert!(matches!(expected.remove(0), ReplyAction::FirstToken));
    assert!(!expected.contains(&ReplyAction::FirstToken));
}

#[test]
fn a_reply_is_rendered_as_the_streamer_does() {
    let mut reply = Reply::new(ColorScheme::Dark);
    reply.take_text(&event("a `b`"));
    let rest = reply.end();
    let mut p = Palette { on: false, fence: "90".to_string(), behind_code: "47".to_string() };
    assert_eq!(reply.render(&rest[0], &p), "a b");
    p.on = true;
    assert_eq!(
        reply.render(&rest[0], &p),
        "\u{1b}[37ma \u{1b}[47;30mb\u{1b}[0m\u{1b}[37m\u{1b}[0m"
    );
}

fn stats(pieces: Vec<Piece>) -> Vec<Line> {
    vec![
        say(""),
        Line { stream: Stream::Stdout, spans: vec![Span { ink: Ink::Dimmed, pieces }] },
    ]
}

fn text(s: &str) -> Piece {
    Piece::Text(s.to_string())
}

#[test]
fn a_turn_ends_with_statistics_and_metrics() {
    let mut messages = vec![message("user", "hi")];
    let mut reply = Reply::new(ColorScheme::Dark);
    reply.take_text(&event("é"));
    reply.take_text(&event("!"));
    let rate = Double { bits: 4.0f64.to_bits() };
    let (lines, metrics, total) =
        reply.finish(URL, Some(millis(250)), millis(1500), Some(rate), &mut messages).unwrap();
    assert_eq!(
        lines,
        stats(vec![
            text("[TTFT: "),
            Piece::Figure(Figure::Seconds(millis(250))),
            text("s | Total: "),
            Piece::Figure(Figure::Seconds(millis(1500))),
            text("s | Tokens: ~2"),
            text(" | Speed: "),
            Piece::Figure(Figure::Double(rate, 1)),
            text(" tok/s]"),
        ])
    );
    let m = metrics.unwrap();
    assert_eq!(m.prompt, "hi");
    assert_eq!((m.ttft, m.total_time), (millis(250), millis(1500)));
    assert_eq!((m.tokens, m.tokens_actual), (2, false));
    assert_eq!(m.speed, rate);
    assert_eq!(m.response_length, 3);
    assert_eq!(m.response_hash, fingerprint("é!".as_bytes()));
    assert_eq!(total, None);
    assert_eq!(messages, vec![message("user", "hi"), message("assistant", "é!")]);
}

#[test]
fn without_a_token_there_is_no_first_one() {
    let mut messages = vec![message("user", "hi")];
    let mut reply = Reply::new(ColorScheme::Dark);
    reply.take_text("data: {\"usage\":{\"total_tokens\":12}}\n");
    let rate = Double { bits: 4.0f64.to_bits() };
    let (lines, metrics, total) =
        reply.finish(URL, Some(millis(1)), millis(10), Some(rate), &mut messages).unwrap();
    assert_eq!(
        lines,
        stats(vec![
            text("[Total: "),
            Piece::Figure(Figure::Seconds(millis(10))),
            text("s | Tokens: 12"),
            text("]"),
        ])
    );
    assert_eq!(metrics, None);
    assert_eq!(total, Some(12));
    assert_eq!(messages[1], message("assistant", ""));
}

#[test]
fn without_tokens_or_time_there_is_no_speed() {
    let mut reply = Reply::new(ColorScheme::Dark);
    reply.take_text(&event("x"));
    let mut messages = vec![message("user", "hi")];
    let (lines, metrics, _) =
        reply.finish(URL, Some(millis(5)), millis(5), None, &mut messages).unwrap();
    assert_eq!(lines[1].spans[0].pieces.last(), Some(&text("]")));
    assert_eq!(metrics.unwrap().speed, Double { bits: 0 });
    reply.take_text("data: {\"usage\":{\"total_tokens\":0}}\n");
    let rate = Double { bits: 4.0f64.to_bits() };
    let (_, metrics, total) =
        reply.finish(URL, Some(millis(5)), millis(6), Some(rate), &mut messages).unwrap();
    let m = metrics.unwrap();
    assert_eq!((m.tokens, m.tokens_actual, m.speed), (0, true, Double { bits: 0 }));
    assert_eq!(total, Some(0));
}

#[test]
fn a_reply_that_was_not_heard_is_a_failure() {
    let mut messages = vec![message("user", "hi")];
    let mut reply = Reply::new(ColorScheme::Dark);
    reply.take_text(": ping\n");
    assert!(!reply.has_tokens());
    let failure = reply.finish("http://h", None, millis(5), None, &mut messages).unwrap_err();
    assert_eq!(failure, silence_failure("http://h"));
    assert_eq!(messages, vec![message("user", "hi")]);
    reply.take_text("data: [DONE]\n");
    let (_, metrics, total) = reply.finish(URL, None, millis(5), None, &mut messages).unwrap();
    assert_eq!((metrics, total), (None, None));
    assert_eq!(messages[1], message("assistant", ""));
}

#[test]
fn the_first_token_is_noted_once_however_the_stream_is_cut() {
    for texts in [
        vec![event("a") + &event("b\\n"), event("c\\n")],
        vec!["data: {}\n".to_string(), event("a\\n"), event("b")],
        vec![": ping\n".to_string(), "data: [DONE]\n".to_string()],
    ] {
        let mut reply = Reply::new(ColorScheme::Dark);
        let mut actions = Vec::new();
        for text in &texts {
            actions.extend(reply.take_text(text));
        }
        let noted = actions.iter().filter(|a| **a == ReplyAction::FirstToken).count();
        assert_eq!(noted, if reply.has_tokens() { 1 } else { 0 });
        assert_eq!(actions.first() == Some(&ReplyAction::FirstToken), reply.has_tokens());
    }
}
