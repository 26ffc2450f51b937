use llmchat::command::{
    handle_command, help, parse_command, show_config, show_info, temperature_argument, Action,
    Command,
};
use llmchat::config::{ConfigChange, SessionConfig};
use llmchat::output::{Figure, Line, Piece, Single};
use llmchat::session::Message;

fn single(x: f32) -> Single {
    Single { bits: x.to_bits() }
}

fn session() -> SessionConfig {
    SessionConfig::new(
        "http://h/v1".to_string(),
        "m".to_string(),
        Some("secret-key".to_string()),
        single(1.0),
        None,
    )
}

fn figure_text(f: &Figure) -> String {
    match f {
        Figure::Shortest(s) => format!("{}", f32::from_bits(s.bits)),
        Figure::Percent { count, limit } => {
            format!("{:.1}", (*count as f64 / *limit as f64) * 100.0)
        }
        _ => format!("{f:?}"),
    }
}

fn text_of(line: &Line) -> String {
    line.spans
        .iter()
        .flat_map(|s| s.pieces.iter())
        .map(|p| match p {
            Piece::Text(t) => t.clone(),
            Piece::Figure(f) => figure_text(f),
        })
        .collect()
}

fn run(input: &str, config: &mut SessionConfig) -> Vec<String> {
    let reading = temperature_argument(input)
        .and_then(|t| t.parse::<f32>().ok())
        .map(single);
    let mut messages = vec![Message { role: "user".to_string(), content: "12345678".to_string() }];
    let actions = handle_command(input, reading, &mut messages, config, 100);
    if input == "/clear" {
        assert!(messages.is_empty());
    } else {
        assert_eq!(messages.len(), 1);
    }
    actions
        .iter()
        .map(|a| match a {
            Action::Print(line) => text_of(line),
            Action::Exit => "<exit>".to_string(),
            Action::Edit => "<edit>".to_string(),
            Action::ListModels => "<models>".to_string(),
            Action::CheckModel => "<check>".to_string(),
            Action::Persist(ConfigChange::Endpoint(t)) => format!("<save endpoint {t}>"),
            Action::Persist(ConfigChange::Model(t)) => format!("<save model {t}>"),
            Action::Persist(ConfigChange::ApiKey(t)) => format!("<save key {t}>"),
            Action::Persist(ConfigChange::NoApiKey) => "<drop key>".to_string(),
            Action::Persist(ConfigChange::SameApiKey) => "<same key>".to_string(),
        })
        .collect()
}

#[test]
fn a_command_is_its_first_word() {
    assert_eq!(parse_command("/help"), Command::Help);
    assert_eq!(parse_command("/help me"), Command::Help);
    assert_eq!(parse_command("/system be kind"), Command::System(Some("be kind".to_string())));
    assert_eq!(parse_command("/system "), Command::System(Some(String::new())));
    assert_eq!(parse_command("/system"), Command::System(None));
    assert_eq!(
        parse_command("/save-model  x"),
        Command::Model { argument: Some(" x".to_string()), save: true }
    );
    assert_eq!(parse_command("/Help"), Command::Unknown);
    assert_eq!(parse_command("/helpme"), Command::Unknown);
    assert_eq!(parse_command("/help\tme"), Command::Unknown);
    assert_eq!(parse_command(""), Command::Unknown);
    for (input, command) in [
        ("/exit", Command::Exit),
        ("/clear", Command::Clear),
        ("/edit", Command::Edit),
        ("/temperature", Command::Temperature(None)),
        ("/seed", Command::Seed(None)),
        ("/endpoint", Command::Endpoint { argument: None, save: false }),
        ("/save-endpoint", Command::Endpoint { argument: None, save: true }),
        ("/api-key", Command::ApiKey { argument: None, save: false }),
        ("/save-api-key", Command::ApiKey { argument: None, save: true }),
        ("/models", Command::Models),
        ("/model", Command::Model { argument: None, save: false }),
        ("/config", Command::Config),
        ("/info", Command::Info),
    ] {
        assert_eq!(parse_command(input), command);
    }
}

#[test]
fn help_lists_every_command() {
    let lines: Vec<String> = help().iter().map(text_of).collect();
    assert_eq!(lines[0], "Available Commands:");
    assert_eq!(lines[1], "");
    assert_eq!(lines[2], format!("  {:<20}  Exit the program", "/exit"));
    for word in [
        "/help", "/exit", "/clear", "/edit", "/system", "/temperature", "/seed", "/config",
        "/endpoint", "/save-endpoint", "/api-key", "/save-api-key", "/models", "/model",
        "/save-model", "/info",
    ] {
        assert!(lines.iter().any(|l| l.contains(word)), "{word}");
    }
}

#[test]
fn actions_are_asked_for() {
    let mut c = session();
    assert_eq!(run("/exit", &mut c), vec!["<exit>"]);
    assert_eq!(run("/edit", &mut c), vec!["<edit>"]);
    assert_eq!(run("/models", &mut c), vec!["<models>"]);
    assert_eq!(c, session());
}

#[test]
fn clearing_forgets_the_number_of_tokens() {
    let mut c = session();
    c.note_total(Some(9));
    assert_eq!(run("/clear", &mut c), vec!["Session cleared."]);
    assert_eq!(c.last_actual_total_tokens, None);
}

#[test]
fn the_system_prompt_is_set() {
    let mut c = session();
    assert_eq!(run("/system", &mut c), vec!["Usage: /system <prompt>"]);
    assert_eq!(c.system_prompt, None);
    assert_eq!(run("/system be kind", &mut c), vec!["System prompt set."]);
    assert_eq!(c.system_prompt.as_deref(), Some("be kind"));
}

#[test]
fn the_temperature_stays_in_its_range() {
    let mut c = session();
    assert_eq!(
        run("/temperature", &mut c),
        vec!["Current temperature: 1", "Usage: /temperature <value>"]
    );
    assert_eq!(run("/temperature 0.7", &mut c), vec!["Temperature set to: 0.7"]);
    assert_eq!(c.temperature, single(0.7));
    for bad in ["/temperature 2.1", "/temperature -0.1", "/temperature NaN", "/temperature inf"] {
        assert_eq!(run(bad, &mut c), vec!["Temperature must be between 0.0 and 2.0"]);
    }
    for bad in ["/temperature warm", "/temperature ", "/temperature 1 "] {
        assert_eq!(
            run(bad, &mut c),
            vec!["Invalid temperature value. Use a number between 0.0 and 2.0"]
        );
    }
    assert_eq!(c.temperature, single(0.7));
    assert_eq!(run("/temperature 2", &mut c), vec!["Temperature set to: 2"]);
}

#[test]
fn the_seed_is_set_and_cleared() {
    let mut c = session();
    let usage = "Usage: /seed <value> or /seed clear";
    assert_eq!(run("/seed", &mut c), vec!["Current seed: None (random generation)", usage]);
    assert_eq!(run("/seed -42", &mut c), vec!["Seed set to: -42"]);
    assert_eq!(c.seed, Some(-42));
    assert_eq!(run("/seed", &mut c), vec!["Current seed: -42", usage]);
    assert_eq!(run("/seed x", &mut c), vec!["Invalid seed value. Use an integer or 'clear'."]);
    assert_eq!(c.seed, Some(-42));
    assert_eq!(
        run("/seed clear", &mut c),
        vec!["Seed cleared (using random generation)."]
    );
    assert_eq!(c.seed, None);
}

#[test]
fn the_endpoint_is_set_and_saved() {
    let mut c = session();
    assert_eq!(
        run("/endpoint", &mut c),
        vec!["Current endpoint: http://h/v1", "Usage: /endpoint <url>"]
    );
    assert_eq!(
        run("/save-endpoint", &mut c),
        vec!["Current endpoint: http://h/v1", "<save endpoint http://h/v1>"]
    );
    assert_eq!(run("/endpoint  http://o ", &mut c), vec!["Endpoint set to: http://o"]);
    assert_eq!(
        run("/save-endpoint http://p", &mut c),
        vec!["Endpoint set to: http://p", "<save endpoint http://p>"]
    );
    assert_eq!(c.endpoint, "http://p");
}

#[test]
fn the_key_is_set_cleared_and_saved() {
    let mut c = session();
    let usage = "Usage: /api-key <key> | /api-key clear";
    assert_eq!(run("/api-key", &mut c), vec!["Current API key: ******…-key", usage]);
    assert_eq!(
        run("/save-api-key", &mut c),
        vec!["Current API key: ******…-key", "<save key secret-key>", usage]
    );
    assert_eq!(run("/api-key clear", &mut c), vec!["API key cleared."]);
    assert_eq!(c.api_key, None);
    assert_eq!(run("/api-key", &mut c), vec!["Current API key: None (not set)", usage]);
    assert_eq!(
        run("/save-api-key", &mut c),
        vec!["Current API key: None (not set)", "<same key>", usage]
    );
    assert_eq!(
        run("/save-api-key  k2 ", &mut c),
        vec!["API key set (stored in memory).", "<save key k2>"]
    );
    assert_eq!(c.api_key.as_deref(), Some("k2"));
    assert_eq!(run("/save-api-key clear", &mut c), vec!["API key cleared.", "<drop key>"]);
}

#[test]
fn the_model_is_set_checked_and_saved() {
    let mut c = session();
    assert_eq!(
        run("/model", &mut c),
        vec!["Current model: m", "Usage: /model <name> | /save-model <name>"]
    );
    assert_eq!(run("/save-model", &mut c), vec!["Current model: m", "<save model m>"]);
    assert_eq!(run("/model n", &mut c), vec!["Model set to: n", "<check>"]);
    assert_eq!(
        run("/save-model o", &mut c),
        vec!["Model set to: o", "<check>", "<save model o>"]
    );
    assert_eq!(c.model, "o");
}

#[test]
fn the_configuration_is_shown_without_the_key() {
    let mut c = session();
    let lines: Vec<String> = show_config(&c, 100).iter().map(text_of).collect();
    assert_eq!(
        lines,
        vec![
            "Current Configuration:",
            "  Model:       m",
            "  Endpoint:    http://h/v1",
            "  API key:     ******…-key",
            "  Max tokens:  100",
            "  Temperature: 1",
            "  Seed:        None (random)",
            "  System:      None",
        ]
    );
    c.api_key = None;
    c.seed = Some(5);
    c.system_prompt = Some("be kind".to_string());
    let lines = run("/config", &mut c);
    assert_eq!(lines[3], "  API key:     None");
    assert_eq!(lines[6], "  Seed:        5");
    assert_eq!(lines[7], "  System:      be kind");
}

#[test]
fn the_session_is_described() {
    let mut c = session();
    assert_eq!(
        run("/info", &mut c),
        vec![
            "Session Information:",
            "  Messages:    1",
            "  Tokens (ESTIMATE): ~2 / 100 (2.0%)",
            "  └─ Based on ~4 chars/token",
        ]
    );
    c.note_total(Some(50));
    let lines: Vec<String> = show_info(&c, &Vec::new(), 100).iter().map(text_of).collect();
    assert_eq!(
        lines,
        vec![
            "Session Information:",
            "  Messages:    0",
            "  Tokens (ACTUAL): 50 / 100 (50.0%)",
            "  └─ From last API response",
        ]
    );
}

#[test]
fn saving_changes_the_session_as_setting_does() {
    for (set, save) in [
        ("/endpoint http://x", "/save-endpoint http://x"),
        ("/model x", "/save-model x"),
        ("/api-key x", "/save-api-key x"),
        ("/api-key clear", "/save-api-key clear"),
    ] {
        let (mut a, mut b) = (session(), session());
        let quiet = run(set, &mut a);
        let saved = run(save, &mut b);
        assert_eq!(a, b);
        assert!(!quiet.iter().any(|s| s.starts_with("<save") || s == "<drop key>"));
        assert!(saved.iter().any(|s| s.starts_with("<save") || s == "<drop key>"));
    }
}

#[test]
fn unknown_commands_are_told() {
    let mut c = session();
    assert_eq!(
        run("/what", &mut c),
        vec!["Unknown command. Type /help for available commands."]
    );
    assert_eq!(c, session());
}
