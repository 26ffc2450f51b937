//! Configuration: where it lives, where each setting comes from, and what a session changes.
#[allow(unused_imports)]
use crate::order::Ranked;
use crate::output::{hued, ink_text, one, Line, Single, Stream};
#[allow(unused_imports)]
use crate::output::{hued_text, law_text_is_said_whole, line_of, spoken, text_in, Figure, LineView};
use crate::paint::{Hue, Ink};
#[allow(unused_imports)]
use crate::session::optional_text;
use crate::text::{chars_of, concat, decimal_text, repeat, text_between};
#[allow(unused_imports)]
use crate::text::{decimal, repeated};
#[allow(unused_imports)]
use vstd::utf8::encode_utf8;
use vstd::prelude::*;

verus! {

/// The endpoint where neither the command line nor the configuration names one.
pub const DEFAULT_ENDPOINT: &'static str = "http://localhost:1234/v1";

/// The model where neither the command line nor the configuration names one.
pub const DEFAULT_MODEL: &'static str = "local-model";

/// The bits of 1.0, the temperature where neither the command line nor the configuration
/// gives one.
pub const DEFAULT_TEMPERATURE_BITS: u32 = 0x3f80_0000;

/// The size of the context window in tokens where nothing else gives it.
pub const DEFAULT_MAX_TOKENS: usize = 8192;

/// What the environment says of the places for files, as raw bytes.
#[derive(Debug, PartialEq, Eq)]
pub struct Places {
    pub xdg_config_home: Option<Vec<u8>>,
    pub home: Option<Vec<u8>>,
}

/// `name` within the directory `base`, with a slash between them where `base` does not end with
/// one. Paths are those of Unix systems.
pub open spec fn path_in(base: Seq<u8>, name: Seq<u8>) -> Seq<u8> {
    if base.len() > 0 && base.last() != 0x2f {
        base.push(0x2f) + name
    } else {
        base + name
    }
}

/// The value of an environment variable that is set and not empty.
pub open spec fn given(variable: Option<Vec<u8>>) -> Option<Seq<u8>> {
    match variable {
        Some(value) => if value@.len() > 0 {
            Some(value@)
        } else {
            None
        },
        None => None,
    }
}

/// The configuration directory: `llmchat` in `$XDG_CONFIG_HOME`, or else `.config/llmchat` in
/// `$HOME`, or else `.config/llmchat` itself.
pub open spec fn config_dir_of(places: Places) -> Seq<u8> {
    match (given(places.xdg_config_home), given(places.home)) {
        (Some(base), _) => path_in(base, encode_utf8("llmchat"@)),
        (None, Some(base)) => path_in(base, encode_utf8(".config/llmchat"@)),
        (None, None) => encode_utf8(".config/llmchat"@),
    }
}

/// `name` within the directory `base`.
fn join_path(base: &Vec<u8>, name: &str) -> (r: Vec<u8>)
    ensures
        r@ == path_in(base@, encode_utf8(name@)),
{
    let mut r: Vec<u8> = Vec::new();
    r.extend_from_slice(base.as_slice());
    assert(r@ =~= base@);
    let total = r.len();
    if total > 0 && r[total - 1] != 0x2f {
        r.push(0x2f);
    }
    let ghost front = r@;
    r.extend_from_slice(name.as_bytes());
    assert(r@ =~= front + encode_utf8(name@));
    r
}

/// The directory that the configuration and the history live in.
pub fn config_dir(places: &Places) -> (r: Vec<u8>)
    ensures
        r@ == config_dir_of(*places),
{
    if let Some(xdg) = &places.xdg_config_home {
        if xdg.len() > 0 {
            return join_path(xdg, "llmchat");
        }
    }
    if let Some(home) = &places.home {
        if home.len() > 0 {
            return join_path(home, ".config/llmchat");
        }
    }
    let r = join_path(&Vec::new(), ".config/llmchat");
    assert(r@ =~= encode_utf8(".config/llmchat"@));
    r
}

/// The file that the configuration lives in.
pub fn config_path(places: &Places) -> (r: Vec<u8>)
    ensures
        r@ == path_in(config_dir_of(*places), encode_utf8("config.yaml"@)),
{
    join_path(&config_dir(places), "config.yaml")
}

/// The file that the history of inputs lives in.
pub fn history_path(places: &Places) -> (r: Vec<u8>)
    ensures
        r@ == path_in(config_dir_of(*places), encode_utf8("history"@)),
{
    join_path(&config_dir(places), "history")
}

/// A secret with all but its last four characters hidden; one of four characters or fewer is
/// hidden whole.
pub open spec fn masked(key: Seq<char>) -> Seq<char> {
    if key.len() <= 4 {
        "****"@
    } else {
        repeated('*', (key.len() - 4) as nat) + "…"@ + key.skip(key.len() - 4)
    }
}

/// Shows only the last four characters of a secret.
pub fn mask_key(key: &str) -> (r: String)
    ensures
        r@ == masked(key@),
{
    let chars = chars_of(key);
    let total = chars.len();
    if total <= 4 {
        return "****".to_owned();
    }
    let mut r = repeat('*', total - 4);
    r.append("…");
    let tail = text_between(&chars, total - 4, total);
    assert(tail@ =~= key@.skip(key@.len() - 4));
    r.append(tail.as_str());
    r
}

/// What is shown of a secret gives away no more than how long it is and how it ends, and of a
/// short one nothing at all.
pub proof fn law_mask_hides(a: Seq<char>, b: Seq<char>)
    ensures
        a.len() <= 4 && b.len() <= 4 ==> masked(a) == masked(b),
        a.len() == b.len() && a.len() > 4 && a.skip(a.len() - 4) == b.skip(b.len() - 4) ==> masked(
            a,
        ) == masked(b),
        a.len() > 4 ==> masked(a).len() == a.len() + 1,
        a.len() > 4 ==> forall|i: int| 0 <= i < a.len() - 4 ==> #[trigger] masked(a)[i] == '*',
{
    reveal_strlit("…");
}

/// The settings of the command line.
#[derive(Debug, PartialEq, Eq)]
pub struct Args {
    pub endpoint: Option<String>,
    pub model: Option<String>,
    pub api_key: Option<String>,
    pub temperature: Option<Single>,
    pub seed: Option<i64>,
    pub max_tokens: Option<usize>,
}

/// The settings of the configuration file.
#[derive(Debug, PartialEq, Eq)]
pub struct AppConfig {
    /// The server's address, such as `http://localhost:1234/v1`.
    pub endpoint: Option<String>,
    pub model: Option<String>,
    /// The key that is sent as a bearer token.
    pub api_key: Option<String>,
    pub temperature: Option<Single>,
    pub seed: Option<i64>,
    /// The size of the context window in tokens.
    pub max_tokens: Option<usize>,
}

/// What the configuration file says.
pub struct AppConfigView {
    pub endpoint: Option<Seq<char>>,
    pub model: Option<Seq<char>>,
    pub api_key: Option<Seq<char>>,
    pub temperature: Option<Single>,
    pub seed: Option<i64>,
    pub max_tokens: Option<usize>,
}

impl View for AppConfig {
    type V = AppConfigView;

    open spec fn view(&self) -> AppConfigView {
        AppConfigView {
            endpoint: optional_text(self.endpoint),
            model: optional_text(self.model),
            api_key: optional_text(self.api_key),
            temperature: self.temperature,
            seed: self.seed,
            max_tokens: self.max_tokens,
        }
    }
}

/// A configuration that says nothing.
pub open spec fn empty_config() -> AppConfigView {
    AppConfigView {
        endpoint: None,
        model: None,
        api_key: None,
        temperature: None,
        seed: None,
        max_tokens: None,
    }
}

impl Default for AppConfig {
    fn default() -> (r: AppConfig)
        ensures
            r@ == empty_config(),
    {
        AppConfig {
            endpoint: None,
            model: None,
            api_key: None,
            temperature: None,
            seed: None,
            max_tokens: None,
        }
    }
}

/// What came of reading the configuration file.
#[derive(Debug, PartialEq, Eq)]
pub enum ConfigFile {
    /// It could not be read.
    Missing,
    /// It holds no configuration, for the given reason.
    Invalid(String),
    Valid(AppConfig),
}

/// The warning that a configuration file holds no configuration.
pub open spec fn config_warning(path: Seq<char>, reason: Seq<char>) -> LineView {
    line_of(
        Stream::Stderr,
        hued_text(
            Hue::Yellow,
            "Warning: Failed to parse config "@ + path + ": "@ + reason,
        ),
    )
}

/// The configuration to go by, and the warning that is due. A file that cannot be used counts
/// as one that says nothing.
pub fn load_config(file: ConfigFile, path: &str) -> (r: (AppConfig, Option<Line>))
    ensures
        match file {
            ConfigFile::Missing => r.0@ == empty_config() && r.1 is None,
            ConfigFile::Invalid(reason) => {
                &&& r.0@ == empty_config()
                &&& r.1 is Some
                &&& r.1->0@ == config_warning(path@, reason@)
            },
            ConfigFile::Valid(config) => r.0 == config && r.1 is None,
        },
{
    match file {
        ConfigFile::Missing => (AppConfig::default(), None),
        ConfigFile::Invalid(reason) => {
            let mut text = "Warning: Failed to parse config ".to_owned();
            text.append(path);
            text.append(": ");
            text.append(reason.as_str());
            (AppConfig::default(), Some(one(Stream::Stderr, hued(Hue::Yellow, text.as_str()))))
        },
        ConfigFile::Valid(config) => (config, None),
    }
}

/// The settings to go by.
#[derive(Debug, PartialEq, Eq)]
pub struct Settings {
    pub endpoint: String,
    pub model: String,
    pub api_key: Option<String>,
    pub temperature: Single,
    pub seed: Option<i64>,
    pub max_tokens: usize,
}

/// The first of two choices that was made.
pub open spec fn first_choice<T>(a: Option<T>, b: Option<T>) -> Option<T> {
    match a {
        Some(_) => a,
        None => b,
    }
}

/// The choice that was made, or the default.
pub open spec fn choice_or<T>(a: Option<T>, default: T) -> T {
    match a {
        Some(x) => x,
        None => default,
    }
}

/// The first of two choices that was made.
fn prefer<T>(a: Option<T>, b: Option<T>) -> (r: Option<T>)
    ensures
        r == first_choice(a, b),
{
    match a {
        Some(x) => Some(x),
        None => b,
    }
}

/// The settings to go by: the command line goes before the configuration file, and that before
/// the defaults. For the key the environment comes last.
pub fn resolve(args: Args, file: AppConfig, environment_key: Option<String>) -> (r: Settings)
    ensures
        r.endpoint@ == choice_or(
            first_choice(optional_text(args.endpoint), optional_text(file.endpoint)),
            DEFAULT_ENDPOINT@,
        ),
        r.model@ == choice_or(
            first_choice(optional_text(args.model), optional_text(file.model)),
            DEFAULT_MODEL@,
        ),
        optional_text(r.api_key) == first_choice(
            first_choice(optional_text(args.api_key), optional_text(file.api_key)),
            optional_text(environment_key),
        ),
        r.temperature == choice_or(
            first_choice(args.temperature, file.temperature),
            Single { bits: DEFAULT_TEMPERATURE_BITS },
        ),
        r.seed == first_choice(args.seed, file.seed),
        r.max_tokens == choice_or(
            first_choice(args.max_tokens, file.max_tokens),
            DEFAULT_MAX_TOKENS,
        ),
{
    let endpoint = match prefer(args.endpoint, file.endpoint) {
        Some(t) => t,
        None => DEFAULT_ENDPOINT.to_owned(),
    };
    let model = match prefer(args.model, file.model) {
        Some(t) => t,
        None => DEFAULT_MODEL.to_owned(),
    };
    let temperature = match prefer(args.temperature, file.temperature) {
        Some(t) => t,
        None => Single { bits: DEFAULT_TEMPERATURE_BITS },
    };
    let max_tokens = match prefer(args.max_tokens, file.max_tokens) {
        Some(n) => n,
        None => DEFAULT_MAX_TOKENS,
    };
    Settings {
        endpoint,
        model,
        api_key: prefer(prefer(args.api_key, file.api_key), environment_key),
        temperature,
        seed: prefer(args.seed, file.seed),
        max_tokens,
    }
}

/// The note that the endpoint gave the size of the context window.
pub open spec fn window_note(tokens: nat) -> LineView {
    line_of(
        Stream::Stderr,
        text_in(
            Ink::Dimmed,
            "Auto-detected context window: "@ + decimal(tokens) + " tokens"@,
        ),
    )
}

/// The size of the context window to go by, and the note that is due. A size that the endpoint
/// gives counts only in place of the default one.
pub fn adopt_window(max_tokens: usize, detected: Option<usize>) -> (r: (usize, Option<Line>))
    ensures
        match detected {
            Some(tokens) if max_tokens == DEFAULT_MAX_TOKENS => {
                &&& r.0 == tokens
                &&& r.1 is Some
                &&& r.1->0@ == window_note(tokens as nat)
            },
            _ => r.0 == max_tokens && r.1 is None,
        },
{
    match detected {
        Some(tokens) => if max_tokens == DEFAULT_MAX_TOKENS {
            let mut text = "Auto-detected context window: ".to_owned();
            text.append(decimal_text(tokens as u64).as_str());
            text.append(" tokens");
            (tokens, Some(one(Stream::Stderr, ink_text(Ink::Dimmed, text.as_str()))))
        } else {
            (max_tokens, None)
        },
        None => (max_tokens, None),
    }
}

/// Whether a temperature lies from 0.0 to 2.0. The bits of numbers from zero up are ordered as
/// the numbers are, 2.0 has the bits `0x4000_0000`, and minus zero the bits `0x8000_0000`.
pub open spec fn temperature_allowed(t: Single) -> bool {
    t.bits <= 0x4000_0000 || t.bits == 0x8000_0000
}

/// Whether a temperature lies from 0.0 to 2.0.
pub fn allows_temperature(t: Single) -> (r: bool)
    ensures
        r == temperature_allowed(t),
{
    t.bits <= 0x4000_0000 || t.bits == 0x8000_0000
}

/// The settings of a session.
#[derive(Debug, PartialEq, Eq)]
pub struct SessionConfig {
    pub endpoint: String,
    pub model: String,
    pub api_key: Option<String>,
    pub system_prompt: Option<String>,
    pub temperature: Single,
    pub seed: Option<i64>,
    /// The number of tokens that the endpoint reported last.
    pub last_actual_total_tokens: Option<usize>,
}

/// What the settings of a session are.
pub struct SessionView {
    pub endpoint: Seq<char>,
    pub model: Seq<char>,
    pub api_key: Option<Seq<char>>,
    pub system_prompt: Option<Seq<char>>,
    pub temperature: Single,
    pub seed: Option<i64>,
    pub last_actual_total_tokens: Option<usize>,
}

impl View for SessionConfig {
    type V = SessionView;

    open spec fn view(&self) -> SessionView {
        SessionView {
            endpoint: self.endpoint@,
            model: self.model@,
            api_key: optional_text(self.api_key),
            system_prompt: optional_text(self.system_prompt),
            temperature: self.temperature,
            seed: self.seed,
            last_actual_total_tokens: self.last_actual_total_tokens,
        }
    }
}

impl SessionConfig {
    /// A session that has no system prompt and has not heard from the endpoint.
    pub fn new(
        endpoint: String,
        model: String,
        api_key: Option<String>,
        temperature: Single,
        seed: Option<i64>,
    ) -> (r: SessionConfig)
        ensures
            r@ == (SessionView {
                endpoint: endpoint@,
                model: model@,
                api_key: optional_text(api_key),
                system_prompt: None,
                temperature,
                seed,
                last_actual_total_tokens: None,
            }),
    {
        SessionConfig {
            endpoint,
            model,
            api_key,
            system_prompt: None,
            temperature,
            seed,
            last_actual_total_tokens: None,
        }
    }

    /// Takes note of the number of tokens that the endpoint reported, where it reported one.
    pub fn note_total(&mut self, total: Option<usize>)
        ensures
            final(self)@ == (SessionView {
                last_actual_total_tokens: first_choice(
                    total,
                    old(self)@.last_actual_total_tokens,
                ),
                ..old(self)@
            }),
    {
        if total.is_some() {
            self.last_actual_total_tokens = total;
        }
    }
}

/// A change to the configuration file.
#[derive(Debug, PartialEq, Eq)]
pub enum ConfigChange {
    Endpoint(String),
    Model(String),
    ApiKey(String),
    /// The key goes.
    NoApiKey,
    /// There is no key to save, so the file's own one stays.
    SameApiKey,
}

/// What a change to the configuration file is.
pub enum ConfigChangeView {
    Endpoint(Seq<char>),
    Model(Seq<char>),
    ApiKey(Seq<char>),
    NoApiKey,
    SameApiKey,
}

impl View for ConfigChange {
    type V = ConfigChangeView;

    open spec fn view(&self) -> ConfigChangeView {
        match self {
            ConfigChange::Endpoint(t) => ConfigChangeView::Endpoint(t@),
            ConfigChange::Model(t) => ConfigChangeView::Model(t@),
            ConfigChange::ApiKey(t) => ConfigChangeView::ApiKey(t@),
            ConfigChange::NoApiKey => ConfigChangeView::NoApiKey,
            ConfigChange::SameApiKey => ConfigChangeView::SameApiKey,
        }
    }
}

/// The configuration after a change.
pub open spec fn changed(config: AppConfigView, change: ConfigChangeView) -> AppConfigView {
    match change {
        ConfigChangeView::Endpoint(t) => AppConfigView { endpoint: Some(t), ..config },
        ConfigChangeView::Model(t) => AppConfigView { model: Some(t), ..config },
        ConfigChangeView::ApiKey(t) => AppConfigView { api_key: Some(t), ..config },
        ConfigChangeView::NoApiKey => AppConfigView { api_key: None, ..config },
        ConfigChangeView::SameApiKey => config,
    }
}

/// The note that a change was saved in the file at `path`.
pub open spec fn saved_note(change: ConfigChangeView, path: Seq<char>) -> LineView {
    let what = match change {
        ConfigChangeView::Endpoint(_) => "Saved endpoint to config: "@,
        ConfigChangeView::Model(_) => "Saved model to config: "@,
        _ => "Saved API key setting to config: "@,
    };
    line_of(Stream::Stdout, hued_text(Hue::Green, what + path))
}

impl ConfigChange {
    /// The configuration after this change.
    pub fn apply(&self, config: AppConfig) -> (r: AppConfig)
        ensures
            r@ == changed(config@, self@),
    {
        let mut config = config;
        match self {
            ConfigChange::Endpoint(t) => {
                config.endpoint = Some(t.clone());
            },
            ConfigChange::Model(t) => {
                config.model = Some(t.clone());
            },
            ConfigChange::ApiKey(t) => {
                config.api_key = Some(t.clone());
            },
            ConfigChange::NoApiKey => {
                config.api_key = None;
            },
            ConfigChange::SameApiKey => {},
        }
        config
    }

    /// The note that this change was saved in the file at `path`.
    pub fn note(&self, path: &str) -> (r: Line)
        ensures
            r@ == saved_note(self@, path@),
    {
        let what = match self {
            ConfigChange::Endpoint(_) => "Saved endpoint to config: ",
            ConfigChange::Model(_) => "Saved model to config: ",
            _ => "Saved API key setting to config: ",
        };
        one(Stream::Stdout, hued(Hue::Green, concat(what, path).as_str()))
    }
}

/// A change that is saved again changes nothing more.
pub proof fn law_change_is_idempotent(config: AppConfigView, change: ConfigChangeView)
    ensures
        changed(changed(config, change), change) == changed(config, change),
{
}

/// A change leaves the settings that it does not name as they are in the file.
pub proof fn law_change_is_confined(config: AppConfigView, change: ConfigChangeView)
    ensures
        changed(config, change).temperature == config.temperature,
        changed(config, change).seed == config.seed,
        changed(config, change).max_tokens == config.max_tokens,
        !(change is Endpoint) ==> changed(config, change).endpoint == config.endpoint,
        !(change is Model) ==> changed(config, change).model == config.model,
        change is Endpoint || change is Model || change is SameApiKey ==> changed(
            config,
            change,
        ).api_key == config.api_key,
{
}

/// What is saved is what the next start goes by, where the command line says nothing else.
pub proof fn law_saved_setting_returns(config: AppConfigView, text: Seq<char>, default: Seq<char>)
    ensures
        choice_or(
            first_choice(None, changed(config, ConfigChangeView::Endpoint(text)).endpoint),
            default,
        ) == text,
        choice_or(
            first_choice(None, changed(config, ConfigChangeView::Model(text)).model),
            default,
        ) == text,
        first_choice(None, changed(config, ConfigChangeView::ApiKey(text)).api_key) == Some(text),
{
}

/// A path within a directory begins with the directory and ends with the name, with exactly one
/// slash between them where the directory is not empty.
pub proof fn law_paths_stand_within_directories(base: Seq<u8>, name: Seq<u8>)
    ensures
        base.is_prefix_of(path_in(base, name)),
        path_in(base, name).skip(path_in(base, name).len() - name.len()) == name,
        base.len() == 0 ==> path_in(base, name) == name,
        base.len() > 0 && base[base.len() - 1] == 0x2f ==> path_in(base, name).len() == base.len()
            + name.len(),
        base.len() > 0 && base[base.len() - 1] != 0x2f ==> path_in(base, name).len() == base.len()
            + 1 + name.len() && path_in(base, name)[base.len() as int] == 0x2f,
{
    let path = path_in(base, name);
    assert(path.take(base.len() as int) =~= base);
    assert(path.skip(path.len() - name.len()) =~= name);
    if base.len() == 0 {
        assert(path =~= name);
    }
}

/// The configuration lives under `$XDG_CONFIG_HOME` where that is given and not empty, or else
/// under `$HOME` in the same case, or else where the program runs.
pub proof fn law_first_given_place_counts(places: Places, xdg: Vec<u8>, home: Vec<u8>)
    ensures
        places.xdg_config_home == Some(xdg) && xdg@.len() > 0 ==> config_dir_of(places) == path_in(
            xdg@,
            encode_utf8("llmchat"@),
        ),
        (places.xdg_config_home is None || places.xdg_config_home->0@.len() == 0) && places.home
            == Some(home) && home@.len() > 0 ==> config_dir_of(places) == path_in(
            home@,
            encode_utf8(".config/llmchat"@),
        ),
        (places.xdg_config_home is None || places.xdg_config_home->0@.len() == 0) && (
        places.home is None || places.home->0@.len() == 0) ==> config_dir_of(places)
            == encode_utf8(".config/llmchat"@),
{
}

/// A secret of more than four characters shows its last four, and of a shorter one four stars.
pub proof fn law_mask_shows_the_end(key: Seq<char>)
    ensures
        key.len() > 4 ==> masked(key).skip(masked(key).len() - 4) == key.skip(key.len() - 4),
        key.len() > 4 ==> masked(key)[key.len() - 4] == '…',
        key.len() <= 4 ==> masked(key) == "****"@,
{
    reveal_strlit("…");
    if key.len() > 4 {
        assert(masked(key).skip(masked(key).len() - 4) =~= key.skip(key.len() - 4));
    }
}

/// Of two choices the first that was made counts, and the default only where none was.
pub proof fn law_first_choice_counts<T>(a: T, b: T, choice: Option<T>, default: T)
    ensures
        first_choice(Some(a), choice) == Some(a),
        first_choice(None, choice) == choice,
        choice_or(Some(a), default) == a,
        choice_or(None, default) == default,
        choice_or(first_choice(Some(a), Some(b)), default) == a,
        choice_or(first_choice(None, Some(b)), default) == b,
        choice_or(first_choice(None, None), default) == default,
{
}

/// A change takes effect on the setting that it names, with the whole text, and a key can be taken
/// away.
pub proof fn law_change_takes_effect(config: AppConfigView, text: Seq<char>)
    ensures
        changed(config, ConfigChangeView::Endpoint(text)).endpoint == Some(text),
        changed(config, ConfigChangeView::Model(text)).model == Some(text),
        changed(config, ConfigChangeView::ApiKey(text)).api_key == Some(text),
        changed(config, ConfigChangeView::NoApiKey).api_key is None,
        changed(config, ConfigChangeView::SameApiKey) == config,
        empty_config().endpoint is None,
        empty_config().model is None,
        empty_config().api_key is None,
        empty_config().temperature is None,
        empty_config().seed is None,
        empty_config().max_tokens is None,
{
}

/// A temperature is allowed where it is a number from zero to two, both counted in.
pub proof fn law_temperatures_from_zero_to_two(t: Single)
    ensures
        temperature_allowed(t) <==> t.has_rank() && 0 <= t.rank() <= (Single {
            bits: 0x4000_0000,
        }).rank(),
{
}

/// Notes and warnings about the configuration give paths, reasons and numbers in full.
pub proof fn law_notes_are_given_in_full(
    path: Seq<char>,
    reason: Seq<char>,
    tokens: nat,
    change: ConfigChangeView,
    write: spec_fn(Figure) -> Seq<char>,
)
    ensures
        spoken(config_warning(path, reason), write) == "Warning: Failed to parse config "@ + path
            + ": "@ + reason,
        config_warning(path, reason).stream == Stream::Stderr,
        config_warning(path, reason).spans[0].ink == Ink::Color(Hue::Yellow),
        window_note(tokens).spans[0].ink == Ink::Dimmed,
        saved_note(change, path).spans[0].ink == Ink::Color(Hue::Green),
        spoken(window_note(tokens), write) == "Auto-detected context window: "@ + decimal(tokens)
            + " tokens"@,
        window_note(tokens).stream == Stream::Stderr,
        spoken(saved_note(change, path), write) == (match change {
            ConfigChangeView::Endpoint(_) => "Saved endpoint to config: "@,
            ConfigChangeView::Model(_) => "Saved model to config: "@,
            _ => "Saved API key setting to config: "@,
        }) + path,
        saved_note(change, path).stream == Stream::Stdout,
{
    let err = Stream::Stderr;
    law_text_is_said_whole(
        err,
        Ink::Dimmed,
        Hue::Yellow,
        "Warning: Failed to parse config "@ + path + ": "@ + reason,
        write,
    );
    law_text_is_said_whole(
        err,
        Ink::Dimmed,
        Hue::Yellow,
        "Auto-detected context window: "@ + decimal(tokens) + " tokens"@,
        write,
    );
    let what = match change {
        ConfigChangeView::Endpoint(_) => "Saved endpoint to config: "@,
        ConfigChangeView::Model(_) => "Saved model to config: "@,
        _ => "Saved API key setting to config: "@,
    };
    law_text_is_said_whole(Stream::Stdout, Ink::Dimmed, Hue::Green, what + path, write);
}

/// Settings are read as they are, each with its whole text.
pub proof fn law_settings_are_read_as_they_are(file: AppConfig, session: SessionConfig, text: String)
    ensures
        file.endpoint matches Some(t) ==> file@.endpoint == Some(t@),
        file.endpoint is None ==> file@.endpoint is None,
        file.model matches Some(t) ==> file@.model == Some(t@),
        file.model is None ==> file@.model is None,
        file.api_key matches Some(t) ==> file@.api_key == Some(t@),
        file.api_key is None ==> file@.api_key is None,
        file@.temperature == file.temperature,
        file@.seed == file.seed,
        file@.max_tokens == file.max_tokens,
        session@.endpoint == session.endpoint@,
        session@.model == session.model@,
        session.api_key matches Some(t) ==> session@.api_key == Some(t@),
        session.api_key is None ==> session@.api_key is None,
        session.system_prompt matches Some(t) ==> session@.system_prompt == Some(t@),
        session.system_prompt is None ==> session@.system_prompt is None,
        session@.temperature == session.temperature,
        session@.seed == session.seed,
        session@.last_actual_total_tokens == session.last_actual_total_tokens,
        ConfigChange::Endpoint(text)@ == ConfigChangeView::Endpoint(text@),
        ConfigChange::Model(text)@ == ConfigChangeView::Model(text@),
        ConfigChange::ApiKey(text)@ == ConfigChangeView::ApiKey(text@),
        ConfigChange::NoApiKey@ == ConfigChangeView::NoApiKey,
        ConfigChange::SameApiKey@ == ConfigChangeView::SameApiKey,
{
}

} // verus!
