use llmchat::config::SessionConfig;
use llmchat::markdown::ColorScheme;
use llmchat::output::{say, Single};
use llmchat::repl::{choose_mode, end_turn, read_input, show_version, Input, Mode};
use llmchat::session::{check_context_usage, Message};
use llmchat::terminal::{
    color_scheme, edited_text, ends_editing, open_editor, Desktop, EditorChoice, Key,
};

#[test]
fn the_mode_is_the_first_that_is_asked_for() {
    assert_eq!(choose_mode(true, true, true, true), Mode::Version);
    assert_eq!(choose_mode(false, true, true, true), Mode::Benchmark);
    assert_eq!(choose_mode(false, false, true, false), Mode::OneShot);
    assert_eq!(choose_mode(false, false, false, false), Mode::Piped);
    assert_eq!(choose_mode(false, false, false, true), Mode::Interactive);
}

#[test]
fn the_version_is_shown() {
    assert_eq!(
        show_version("0.1.0", "abc", "main", "no"),
        vec![
            say("llmchat     0.1.0"),
            say("Git SHA:    abc"),
            say("Git Branch: main"),
            say("Git Dirty:  no"),
        ]
    );
}

#[test]
fn inputs_are_told_apart() {
    assert_eq!(read_input(" \t "), Input::Nothing);
    assert_eq!(read_input(" /help me "), Input::Command("/help me".to_string()));
    assert_eq!(read_input("/"), Input::Command("/".to_string()));
    assert_eq!(read_input(" what is a / b? "), Input::Prompt("what is a / b?".to_string()));
}

#[test]
fn the_terminal_goes_before_the_desktop() {
    let dark = Desktop::Gnome("prefer-dark".to_string());
    assert_eq!(color_scheme(Some(ColorScheme::Light), &dark), ColorScheme::Light);
    assert_eq!(color_scheme(Some(ColorScheme::Dark), &Desktop::Unknown), ColorScheme::Dark);
    assert_eq!(color_scheme(None, &dark), ColorScheme::Dark);
    assert_eq!(
        color_scheme(None, &Desktop::Gnome("default".to_string())),
        ColorScheme::Light
    );
    assert_eq!(color_scheme(None, &Desktop::Unknown), ColorScheme::Light);
}

#[test]
fn the_style_of_macos_is_read_in_lower_case() {
    for answer in [
        "Dark\n", "dark", " DARK ", "Dar\u{212a}", "Light\n", "", "darker", "dar", "ďark", "Dark x",
        "\u{212a}ark",
    ] {
        let expected = if answer.trim().to_lowercase() == "dark" {
            ColorScheme::Dark
        } else {
            ColorScheme::Light
        };
        let desktop = Desktop::Apple(answer.as_bytes().to_vec());
        assert_eq!(color_scheme(None, &desktop), expected, "{answer:?}");
    }
    for n in 0..0x2_0000u32 {
        if let Some(c) = char::from_u32(n) {
            for word in [format!("{c}ark"), format!("d{c}rk"), format!("da{c}k"), format!("dar{c}")] {
                let expected = word.trim().to_lowercase() == "dark";
                let desktop = Desktop::Apple(word.into_bytes());
                assert_eq!(color_scheme(None, &desktop) == ColorScheme::Dark, expected, "{n:#x}");
            }
        }
    }
    assert_eq!(color_scheme(None, &Desktop::Apple(vec![0xff])), ColorScheme::Light);
}

#[test]
fn the_editor_is_the_one_that_is_asked_for() {
    assert_eq!(open_editor(true, Some("nano".to_string())), EditorChoice::Internal);
    assert_eq!(
        open_editor(false, Some("nano".to_string())),
        EditorChoice::External("nano".to_string())
    );
    assert_eq!(open_editor(false, None), EditorChoice::External("vim".to_string()));
}

#[test]
fn escape_and_control_d_end_the_editor() {
    assert!(ends_editing(Key::Escape, false));
    assert!(ends_editing(Key::Escape, true));
    assert!(ends_editing(Key::Character('d'), true));
    assert!(!ends_editing(Key::Character('d'), false));
    assert!(!ends_editing(Key::Character('D'), true));
    assert!(!ends_editing(Key::Other, true));
}

#[test]
fn edited_lines_are_joined() {
    let lines: Vec<String> = ["a", "", "b"].iter().map(|s| s.to_string()).collect();
    assert_eq!(edited_text(&lines), "a\n\nb");
    assert_eq!(edited_text(&vec![String::new()]), "");
}

#[test]
fn a_turn_is_noted_and_measured_by_its_own_number() {
    let mut config = SessionConfig::new(
        "e".to_string(),
        "m".to_string(),
        None,
        Single { bits: 0 },
        None,
    );
    let messages = vec![Message { role: "user".to_string(), content: "x".repeat(320) }];
    let line = end_turn(Some(95), &messages, &mut config, 100);
    assert_eq!(line, check_context_usage(&messages, 100, Some(95), &None));
    assert!(line.is_some());
    assert_eq!(config.last_actual_total_tokens, Some(95));
    let line = end_turn(None, &messages, &mut config, 100);
    assert_eq!(line, check_context_usage(&messages, 100, None, &None));
    assert!(line.is_some());
    assert_eq!(config.last_actual_total_tokens, Some(95));
    assert_eq!(end_turn(Some(10), &messages, &mut config, 100), None);
    assert_eq!(config.last_actual_total_tokens, Some(10));
}
