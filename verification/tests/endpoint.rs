use llmchat::digest::fingerprint;
use llmchat::json::{array, object, parse_json, parse_json_bytes, Json, JsonNumber};
use llmchat::models::{
    bearer, fetch_model_context_window, find_context_window, list_models, model_warning,
    models_failure, models_report, models_url, read_answer, sorted_names, status_error,
    validate_model,
};
use llmchat::output::{hued, ink_text, one, plain, say, Line, Stream};
use llmchat::paint::{Hue, Ink};

const LISTING: &str = r#"{"object":"list","data":[
    {"id":"zeta","context_window":"many","max_model_len":4096},
    {"id":"alpha","context_length":32768,"max_tokens":2048},
    {"id":"beta"},
    {"id":"beta","max_position_embeddings":512}]}"#;

#[test]
fn documents_are_read_whole() {
    let doc = parse_json(r#" {"b":[true,null,-3,4,1.5,"é\n"],"a":{"x":"y"}} "#).unwrap();
    assert_eq!(
        doc,
        Json::Object(vec![
            (
                "a".to_string(),
                Json::Object(vec![("x".to_string(), Json::Text("y".to_string()))]),
            ),
            (
                "b".to_string(),
                Json::Array(vec![
                    Json::Bool(true),
                    Json::Null,
                    Json::Number(JsonNumber::Negative(-3)),
                    Json::Number(JsonNumber::Unsigned(4)),
                    Json::Number(JsonNumber::Other),
                    Json::Text("é\n".to_string()),
                ]),
            ),
        ])
    );
    assert_eq!(parse_json_bytes(b"[18446744073709551615]").unwrap().at(0).unwrap().as_u64(), Some(u64::MAX));
    assert_eq!(parse_json_bytes(b"\"\xff\""), None);
    assert_eq!(parse_json("{"), None);
    assert_eq!(parse_json(""), None);
    assert_eq!(parse_json("{} x"), None);
}

#[test]
fn parts_of_documents() {
    let doc = object(vec![
        ("n".to_string(), Json::Number(JsonNumber::Unsigned(7))),
        ("list".to_string(), array(vec![Json::Text("t".to_string())])),
    ]);
    assert_eq!(doc.get("n").unwrap().as_u64(), Some(7));
    assert_eq!(doc.get("missing"), None);
    assert_eq!(doc.get("list").unwrap().at(0).unwrap().as_str(), Some("t"));
    assert_eq!(doc.get("list").unwrap().at(1), None);
    assert_eq!(doc.get("list").unwrap().as_array().unwrap().len(), 1);
    assert_eq!(doc.at(0), None);
    assert_eq!(doc.as_str(), None);
    assert_eq!(Json::Number(JsonNumber::Negative(-1)).as_u64(), None);
    assert_eq!(Json::Null.get("n"), None);
}

#[test]
fn fingerprints_are_sha256_in_hexadecimal() {
    assert_eq!(
        fingerprint(b""),
        "e3b0c44298fc1c149afbf4c8996fb92427ae41e4649b934ca495991b7852b855"
    );
    assert_eq!(
        fingerprint(b"abc"),
        "ba7816bf8f01cfea414140de5dae2223b00361a396177a9cb410ff61f20015ad"
    );
}

#[test]
fn addresses_and_keys() {
    assert_eq!(models_url("http://localhost:1234/v1"), "http://localhost:1234/v1/models");
    assert_eq!(bearer("secret"), "Bearer secret");
}

#[test]
fn context_windows_are_found_by_name() {
    let answer = LISTING.as_bytes();
    assert_eq!(fetch_model_context_window(answer, "zeta"), Some(4096));
    assert_eq!(fetch_model_context_window(answer, "alpha"), Some(2048));
    assert_eq!(fetch_model_context_window(answer, "beta"), Some(512));
    assert_eq!(fetch_model_context_window(answer, "gamma"), None);
    assert_eq!(fetch_model_context_window(b"no document", "alpha"), None);
    assert_eq!(fetch_model_context_window(b"{\"data\":{}}", "alpha"), None);
}

#[test]
fn search_for_a_window_ends_at_an_entry_without_a_name() {
    let doc = parse_json(r#"{"data":[{"id":"a"},{"name":"x"},{"id":"b","max_tokens":5}]}"#);
    assert_eq!(find_context_window(&doc.unwrap(), "b"), None);
    let doc = parse_json(r#"{"data":[{"id":"a"},{"id":"b","max_tokens":5},{"name":"x"}]}"#);
    assert_eq!(find_context_window(&doc.unwrap(), "b"), Some(5));
    let doc = parse_json(r#"{"data":[{"id":"b","max_tokens":-5,"context_length":1.5}]}"#);
    assert_eq!(find_context_window(&doc.unwrap(), "b"), None);
}

#[test]
fn models_are_listed_in_order() {
    assert_eq!(
        list_models(LISTING.as_bytes()).unwrap(),
        vec!["alpha", "beta", "beta", "zeta"]
    );
    assert_eq!(list_models(b"{}").unwrap(), Vec::<String>::new());
    assert_eq!(list_models(b"["), None);
    let doc = parse_json(r#"{"data":[{"id":"b"},{"id":3},{},{"id":"Z"},{"id":"é"},{"id":"a-1"},{"id":"a"}]}"#);
    let names = sorted_names(&doc.unwrap());
    let mut expected: Vec<String> =
        ["b", "Z", "é", "a-1", "a"].iter().map(|s| s.to_string()).collect();
    expected.sort();
    assert_eq!(names, expected);
}

#[test]
fn a_model_is_valid_where_it_is_listed() {
    let list = Some(vec!["a".to_string(), "b".to_string()]);
    assert_eq!(validate_model(&list, "b"), Some(true));
    assert_eq!(validate_model(&list, "c"), Some(false));
    assert_eq!(validate_model(&Some(Vec::new()), "c"), None);
    assert_eq!(validate_model(&None, "c"), None);
}

#[test]
fn a_warning_is_due_only_for_a_model_that_is_not_listed() {
    let text = "Warning: Model 'm' is not in the endpoint's model list. Use /models to list available models.";
    assert_eq!(
        model_warning(Stream::Stderr, "m", Some(false)),
        Some(one(Stream::Stderr, hued(Hue::Yellow, text)))
    );
    assert_eq!(model_warning(Stream::Stdout, "m", Some(true)), None);
    assert_eq!(model_warning(Stream::Stdout, "m", None), None);
}

#[test]
fn the_report_marks_the_current_model() {
    assert_eq!(models_report(&Vec::new(), "b"), vec![say("No models found at endpoint.")]);
    let names = vec!["a".to_string(), "b".to_string()];
    assert_eq!(
        models_report(&names, "b"),
        vec![
            one(Stream::Stdout, ink_text(Ink::Bold(Hue::Green), "Available Models:")),
            say("    a"),
            Line {
                stream: Stream::Stdout,
                spans: vec![
                    plain("  "),
                    ink_text(Ink::Bold(Hue::Green), "*"),
                    plain(" "),
                    hued(Hue::Cyan, "b"),
                ],
            },
        ]
    );
    assert_eq!(
        models_failure("timeout"),
        one(Stream::Stderr, hued(Hue::Red, "Error fetching models: timeout"))
    );
}

#[test]
fn errors_of_the_endpoint_are_told() {
    assert_eq!(
        status_error("404 Not Found", Some("gone".to_string())),
        "HTTP 404 Not Found from endpoint: gone"
    );
    assert_eq!(
        status_error("500 Internal Server Error", None),
        "HTTP 500 Internal Server Error from endpoint: Unable to read error"
    );
    assert_eq!(read_answer(Some(String::new())), "");
}
