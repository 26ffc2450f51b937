use llmchat::config::{
    adopt_window, allows_temperature, config_dir, config_path, history_path, load_config,
    mask_key, resolve, AppConfig, Args, ConfigChange, ConfigFile, Places, SessionConfig, Settings,
    DEFAULT_ENDPOINT, DEFAULT_MAX_TOKENS, DEFAULT_MODEL, DEFAULT_TEMPERATURE_BITS,
};
use llmchat::output::{hued, ink_text, one, Single, Stream};
use llmchat::paint::{Hue, Ink};

fn places(xdg: Option<&str>, home: Option<&str>) -> Places {
    Places {
        xdg_config_home: xdg.map(|s| s.as_bytes().to_vec()),
        home: home.map(|s| s.as_bytes().to_vec()),
    }
}

fn no_args() -> Args {
    Args {
        endpoint: None,
        model: None,
        api_key: None,
        temperature: None,
        seed: None,
        max_tokens: None,
    }
}

fn single(x: f32) -> Single {
    Single { bits: x.to_bits() }
}

fn session() -> SessionConfig {
    SessionConfig::new("e".to_string(), "m".to_string(), None, single(0.5), Some(3))
}

#[test]
fn files_live_in_the_configuration_directory() {
    for (xdg, home, dir) in [
        (Some("/x"), Some("/h"), "/x/llmchat"),
        (Some("/x/"), None, "/x/llmchat"),
        (Some(""), Some("/h"), "/h/.config/llmchat"),
        (None, Some("/h"), "/h/.config/llmchat"),
        (None, Some(""), ".config/llmchat"),
        (None, None, ".config/llmchat"),
        (Some("rel"), None, "rel/llmchat"),
    ] {
        let p = places(xdg, home);
        assert_eq!(config_dir(&p), dir.as_bytes());
        assert_eq!(config_path(&p), format!("{dir}/config.yaml").into_bytes());
        assert_eq!(history_path(&p), format!("{dir}/history").into_bytes());
    }
}

#[test]
fn only_the_end_of_a_key_is_shown() {
    assert_eq!(mask_key(""), "****");
    assert_eq!(mask_key("1234"), "****");
    assert_eq!(mask_key("51234"), "*…1234");
    assert_eq!(mask_key("abcdefgh"), "****…efgh");
    assert_eq!(mask_key("ééééé"), "*…éééé");
}

#[test]
fn keys_that_differ_in_what_is_hidden_look_alike() {
    assert_eq!(mask_key("aaaa1234"), mask_key("bbbb1234"));
    assert_eq!(mask_key("abc"), mask_key("wxyz"));
    assert_ne!(mask_key("aaaa1234"), mask_key("aaa1234"));
}

#[test]
fn defaults_are_used_where_nothing_is_said() {
    assert_eq!(
        resolve(no_args(), AppConfig::default(), None),
        Settings {
            endpoint: DEFAULT_ENDPOINT.to_string(),
            model: DEFAULT_MODEL.to_string(),
            api_key: None,
            temperature: single(1.0),
            seed: None,
            max_tokens: 8192,
        }
    );
    assert_eq!(DEFAULT_ENDPOINT, "http://localhost:1234/v1");
    assert_eq!(DEFAULT_MODEL, "local-model");
    assert_eq!(f32::from_bits(DEFAULT_TEMPERATURE_BITS), 1.0);
    assert_eq!(DEFAULT_MAX_TOKENS, 8192);
}

#[test]
fn the_command_line_goes_before_the_file_and_the_file_before_the_defaults() {
    let file = || AppConfig {
        endpoint: Some("file-e".to_string()),
        model: Some("file-m".to_string()),
        api_key: Some("file-k".to_string()),
        temperature: Some(single(0.25)),
        seed: Some(-1),
        max_tokens: Some(10),
    };
    let got = resolve(no_args(), file(), Some("env-k".to_string()));
    assert_eq!(got.endpoint, "file-e");
    assert_eq!(got.model, "file-m");
    assert_eq!(got.api_key.as_deref(), Some("file-k"));
    assert_eq!(got.temperature, single(0.25));
    assert_eq!(got.seed, Some(-1));
    assert_eq!(got.max_tokens, 10);
    let args = Args {
        endpoint: Some("cli-e".to_string()),
        model: Some("cli-m".to_string()),
        api_key: Some("cli-k".to_string()),
        temperature: Some(single(2.0)),
        seed: Some(7),
        max_tokens: Some(20),
    };
    let got = resolve(args, file(), Some("env-k".to_string()));
    assert_eq!(got.endpoint, "cli-e");
    assert_eq!(got.model, "cli-m");
    assert_eq!(got.api_key.as_deref(), Some("cli-k"));
    assert_eq!(got.temperature, single(2.0));
    assert_eq!(got.seed, Some(7));
    assert_eq!(got.max_tokens, 20);
    let got = resolve(no_args(), AppConfig::default(), Some("env-k".to_string()));
    assert_eq!(got.api_key.as_deref(), Some("env-k"));
}

#[test]
fn a_file_that_cannot_be_used_says_nothing() {
    assert_eq!(load_config(ConfigFile::Missing, "p"), (AppConfig::default(), None));
    let (config, warning) = load_config(ConfigFile::Invalid("bad".to_string()), "/c/config.yaml");
    assert_eq!(config, AppConfig::default());
    assert_eq!(
        warning,
        Some(one(
            Stream::Stderr,
            hued(Hue::Yellow, "Warning: Failed to parse config /c/config.yaml: bad")
        ))
    );
    let full = AppConfig { model: Some("m".to_string()), ..AppConfig::default() };
    let (config, warning) = load_config(ConfigFile::Valid(full), "p");
    assert_eq!(config.model.as_deref(), Some("m"));
    assert_eq!(warning, None);
}

#[test]
fn a_detected_window_replaces_only_the_default() {
    assert_eq!(
        adopt_window(8192, Some(4096)),
        (
            4096,
            Some(one(
                Stream::Stderr,
                ink_text(Ink::Dimmed, "Auto-detected context window: 4096 tokens")
            ))
        )
    );
    assert_eq!(adopt_window(8193, Some(4096)), (8193, None));
    assert_eq!(adopt_window(8192, None), (8192, None));
}

#[test]
fn temperatures_go_from_zero_to_two() {
    for x in [
        0.0f32, -0.0, 1.0, 2.0, 2.0000002, 3.0, -1.0e-30, -1.0, f32::NAN, -f32::NAN,
        f32::INFINITY, f32::NEG_INFINITY, f32::MIN_POSITIVE, 1.0e-45, -1.0e-45,
    ] {
        assert_eq!(allows_temperature(single(x)), (0.0..=2.0).contains(&x), "{x}");
    }
}

#[test]
fn a_session_remembers_the_last_reported_number() {
    let mut s = session();
    assert_eq!(s.system_prompt, None);
    assert_eq!(s.last_actual_total_tokens, None);
    s.note_total(Some(5));
    s.note_total(None);
    assert_eq!(s.last_actual_total_tokens, Some(5));
    s.note_total(Some(6));
    assert_eq!(s.last_actual_total_tokens, Some(6));
    assert_eq!((s.endpoint.as_str(), s.model.as_str(), s.seed), ("e", "m", Some(3)));
}

#[test]
fn changes_touch_one_setting_and_can_be_repeated() {
    let start = || AppConfig {
        endpoint: Some("e".to_string()),
        model: Some("m".to_string()),
        api_key: Some("k".to_string()),
        temperature: Some(single(0.5)),
        seed: Some(1),
        max_tokens: Some(2),
    };
    let text = |s: &str| s.to_string();
    let change = ConfigChange::Endpoint(text("e2"));
    let once = change.apply(start());
    assert_eq!(once, AppConfig { endpoint: Some(text("e2")), ..start() });
    assert_eq!(change.apply(change.apply(start())), once);
    assert_eq!(
        ConfigChange::Model(text("m2")).apply(start()),
        AppConfig { model: Some(text("m2")), ..start() }
    );
    assert_eq!(
        ConfigChange::ApiKey(text("k2")).apply(start()),
        AppConfig { api_key: Some(text("k2")), ..start() }
    );
    assert_eq!(ConfigChange::NoApiKey.apply(start()), AppConfig { api_key: None, ..start() });
    assert_eq!(ConfigChange::SameApiKey.apply(start()), start());
}

#[test]
fn a_saved_setting_is_the_one_of_the_next_start() {
    let file = ConfigChange::Model("saved".to_string()).apply(AppConfig::default());
    assert_eq!(resolve(no_args(), file, None).model, "saved");
}

#[test]
fn saving_is_confirmed() {
    for (change, text) in [
        (ConfigChange::Endpoint(String::new()), "Saved endpoint to config: /p"),
        (ConfigChange::Model(String::new()), "Saved model to config: /p"),
        (ConfigChange::ApiKey(String::new()), "Saved API key setting to config: /p"),
        (ConfigChange::NoApiKey, "Saved API key setting to config: /p"),
        (ConfigChange::SameApiKey, "Saved API key setting to config: /p"),
    ] {
        assert_eq!(change.note("/p"), one(Stream::Stdout, hued(Hue::Green, text)));
    }
}
