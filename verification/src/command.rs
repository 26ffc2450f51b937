//! The commands of an interactive session.
use crate::config::{allows_temperature, mask_key, ConfigChange, SessionConfig};
#[allow(unused_imports)]
use crate::config::{masked, temperature_allowed, ConfigChangeView, SessionView};
use crate::output::{
    framed, hued, ink_figure, ink_text, one, plain, say, three, two, Figure, Line, Single, Stream,
};
#[allow(unused_imports)]
use crate::output::{
    figure_in, framed_in, hued_text, law_lines_say_their_spans, law_spans_say_what_they_hold,
    law_text_is_said_whole, line_of, line_of_three, line_of_two, lines_of, plain_text, said, spoken,
    text_in, LineView,
};
use crate::paint::{Hue, Ink};
use crate::session::{estimate_tokens, Message};
#[allow(unused_imports)]
use crate::session::{messages_of, optional_text, session_length, token_estimate, MessageView};
use crate::text::{
    chars_of, concat, decimal_text, pad, parse_integer, position_of, same_text,
    signed_decimal_text, text_between, trim,
};
#[allow(unused_imports)]
use crate::text::{
    decimal, first_of, integer_of, is_digit, law_integers_are_read_back, lemma_decimal_starts,
    lemma_first_of_is, padded, signed_decimal, trimmed,
};
use vstd::prelude::*;

verus! {

/// The width of the column of commands in the help.
pub const HELP_WIDTH: usize = 20;

/// A command, with its argument as it was typed.
#[derive(Debug, PartialEq, Eq)]
pub enum Command {
    Help,
    Exit,
    Clear,
    Edit,
    System(Option<String>),
    Temperature(Option<String>),
    Seed(Option<String>),
    Endpoint { argument: Option<String>, save: bool },
    ApiKey { argument: Option<String>, save: bool },
    Models,
    Model { argument: Option<String>, save: bool },
    Config,
    Info,
    Unknown,
}

/// What a command is.
pub enum CommandView {
    Help,
    Exit,
    Clear,
    Edit,
    System(Option<Seq<char>>),
    Temperature(Option<Seq<char>>),
    Seed(Option<Seq<char>>),
    Endpoint { argument: Option<Seq<char>>, save: bool },
    ApiKey { argument: Option<Seq<char>>, save: bool },
    Models,
    Model { argument: Option<Seq<char>>, save: bool },
    Config,
    Info,
    Unknown,
}

impl View for Command {
    type V = CommandView;

    open spec fn view(&self) -> CommandView {
        match self {
            Command::Help => CommandView::Help,
            Command::Exit => CommandView::Exit,
            Command::Clear => CommandView::Clear,
            Command::Edit => CommandView::Edit,
            Command::System(a) => CommandView::System(optional_text(*a)),
            Command::Temperature(a) => CommandView::Temperature(optional_text(*a)),
            Command::Seed(a) => CommandView::Seed(optional_text(*a)),
            Command::Endpoint { argument, save } => CommandView::Endpoint {
                argument: optional_text(*argument),
                save: *save,
            },
            Command::ApiKey { argument, save } => CommandView::ApiKey {
                argument: optional_text(*argument),
                save: *save,
            },
            Command::Models => CommandView::Models,
            Command::Model { argument, save } => CommandView::Model {
                argument: optional_text(*argument),
                save: *save,
            },
            Command::Config => CommandView::Config,
            Command::Info => CommandView::Info,
            Command::Unknown => CommandView::Unknown,
        }
    }
}

/// The word that a command begins with: all up to the first space.
pub open spec fn word_of(input: Seq<char>) -> Seq<char> {
    input.take(first_of(input, ' ') as int)
}

/// The argument of a command: all behind the first space, where there is one.
pub open spec fn argument_of(input: Seq<char>) -> Option<Seq<char>> {
    let k = first_of(input, ' ') as int;
    if k < input.len() {
        Some(input.skip(k + 1))
    } else {
        None
    }
}

/// The command that an input is.
pub open spec fn command_of(input: Seq<char>) -> CommandView {
    let word = word_of(input);
    let argument = argument_of(input);
    if word == "/help"@ {
        CommandView::Help
    } else if word == "/exit"@ {
        CommandView::Exit
    } else if word == "/clear"@ {
        CommandView::Clear
    } else if word == "/edit"@ {
        CommandView::Edit
    } else if word == "/system"@ {
        CommandView::System(argument)
    } else if word == "/temperature"@ {
        CommandView::Temperature(argument)
    } else if word == "/seed"@ {
        CommandView::Seed(argument)
    } else if word == "/endpoint"@ {
        CommandView::Endpoint { argument, save: false }
    } else if word == "/save-endpoint"@ {
        CommandView::Endpoint { argument, save: true }
    } else if word == "/api-key"@ {
        CommandView::ApiKey { argument, save: false }
    } else if word == "/save-api-key"@ {
        CommandView::ApiKey { argument, save: true }
    } else if word == "/models"@ {
        CommandView::Models
    } else if word == "/model"@ {
        CommandView::Model { argument, save: false }
    } else if word == "/save-model"@ {
        CommandView::Model { argument, save: true }
    } else if word == "/config"@ {
        CommandView::Config
    } else if word == "/info"@ {
        CommandView::Info
    } else {
        CommandView::Unknown
    }
}

/// Something that a command asks to be done.
#[derive(Debug, PartialEq, Eq)]
pub enum Action {
    /// Print a line.
    Print(Line),
    /// End the session.
    Exit,
    /// Open the editor, show what was written and send it as a prompt.
    Edit,
    /// Ask the endpoint for its models and show them.
    ListModels,
    /// Ask the endpoint for its models and warn where the current one is not among them.
    CheckModel,
    /// Change the configuration file and say so.
    Persist(ConfigChange),
}

/// What a command asks to be done.
pub enum ActionView {
    Print(LineView),
    Exit,
    Edit,
    ListModels,
    CheckModel,
    Persist(ConfigChangeView),
}

impl View for Action {
    type V = ActionView;

    open spec fn view(&self) -> ActionView {
        match self {
            Action::Print(line) => ActionView::Print(line@),
            Action::Exit => ActionView::Exit,
            Action::Edit => ActionView::Edit,
            Action::ListModels => ActionView::ListModels,
            Action::CheckModel => ActionView::CheckModel,
            Action::Persist(change) => ActionView::Persist(change@),
        }
    }
}

/// What each action of a list is.
pub open spec fn actions_of(list: Seq<Action>) -> Seq<ActionView> {
    list.map_values(|a: Action| a@)
}

/// The settings of the session after a command. `reading` is the number that the argument of
/// `/temperature` writes, where it writes one.
pub open spec fn session_after(
    config: SessionView,
    command: CommandView,
    reading: Option<Single>,
) -> SessionView {
    match command {
        CommandView::Clear => SessionView { last_actual_total_tokens: None, ..config },
        CommandView::System(Some(prompt)) => SessionView {
            system_prompt: Some(prompt),
            ..config
        },
        CommandView::Temperature(Some(_)) => match reading {
            Some(t) if temperature_allowed(t) => SessionView { temperature: t, ..config },
            _ => config,
        },
        CommandView::Seed(Some(text)) => if text == "clear"@ {
            SessionView { seed: None, ..config }
        } else {
            match integer_of(text) {
                Some(n) => SessionView { seed: Some(n as i64), ..config },
                None => config,
            }
        },
        CommandView::Endpoint { argument: Some(text), .. } => SessionView {
            endpoint: trimmed(text),
            ..config
        },
        CommandView::ApiKey { argument: Some(text), .. } => SessionView {
            api_key: if trimmed(text) == "clear"@ {
                None
            } else {
                Some(trimmed(text))
            },
            ..config
        },
        CommandView::Model { argument: Some(text), .. } => SessionView {
            model: trimmed(text),
            ..config
        },
        _ => config,
    }
}

/// The conversation after a command.
pub open spec fn messages_after(messages: Seq<MessageView>, command: CommandView) -> Seq<
    MessageView,
> {
    match command {
        CommandView::Clear => Seq::empty(),
        _ => messages,
    }
}

/// A row of the help: a command, and what it does.
pub open spec fn help_row(command: Seq<char>, effect: Seq<char>) -> LineView {
    line_of_three(
        Stream::Stdout,
        plain_text("  "@),
        hued_text(Hue::Cyan, padded(command, HELP_WIDTH as nat)),
        plain_text(effect),
    )
}

/// A row of the help with an example of the command above.
pub open spec fn help_example(example: Seq<char>) -> LineView {
    line_of_three(
        Stream::Stdout,
        plain_text("  "@),
        text_in(Ink::Dimmed, padded(""@, HELP_WIDTH as nat)),
        plain_text(example),
    )
}

/// The row of the help for the editor.
pub open spec fn help_edit() -> LineView {
    LineView {
        stream: Stream::Stdout,
        spans: seq![
            plain_text("  "@),
            hued_text(Hue::Cyan, padded("/edit"@, HELP_WIDTH as nat)),
            plain_text("  Open your default editor ($"@),
            hued_text(Hue::Yellow, "EDITOR"@),
            plain_text(") for multi-line input"@),
        ],
    }
}

/// The help.
#[verifier::opaque]
pub open spec fn help_lines() -> Seq<LineView> {
    seq![
        line_of(Stream::Stdout, text_in(Ink::Bold(Hue::Green), "Available Commands:"@)),
        said(""@),
        help_row("/exit"@, "  Exit the program"@),
        help_row("/clear"@, "  Clear conversation history (removes all previous messages)"@),
        help_edit(),
        help_row("/system <prompt>"@, "  Set a system prompt for the conversation"@),
        help_example("  Example: /system You are a helpful coding assistant"@),
        help_row(
            "/temperature <value>"@,
            "  Set temperature (0.0-2.0, lower = more deterministic)"@,
        ),
        help_example("  Example: /temperature 0.7"@),
        help_row("/seed <value>"@, "  Set seed for reproducible outputs"@),
        help_example("  Example: /seed 42"@),
        help_row("/seed clear"@, "  Clear the seed (use random generation)"@),
        help_row("/config"@, "  Show current configuration"@),
        help_row("/endpoint <url>"@, "  Set endpoint for this session (no config change)"@),
        help_row("/save-endpoint <url>"@, "  Set endpoint and persist it to config file"@),
        help_row("/api-key <key>"@, "  Set API key for this session (no config change)"@),
        help_row("/save-api-key <key>"@, "  Set API key and persist it to config file"@),
        help_row("/models"@, "  List models available on the endpoint"@),
        help_row("/model <name>"@, "  Set model for this session (no config change)"@),
        help_row("/save-model <name>"@, "  Set model and persist it to config file"@),
        help_row("/info"@, "  Show session info and token usage"@),
        help_row("/help"@, "  Show this help message"@),
        said(""@),
        line_of(
            Stream::Stdout,
            text_in(Ink::Dimmed, "Tip: Use Ctrl+D or Ctrl+C to exit at any time"@),
        ),
    ]
}

/// Lines that are only printed.
pub open spec fn printed(lines: Seq<LineView>) -> Seq<ActionView> {
    lines.map_values(|l: LineView| ActionView::Print(l))
}

/// A line with a label and a value in cyan.
pub open spec fn labelled(label: Seq<char>, value: Seq<char>) -> LineView {
    line_of_two(Stream::Stdout, plain_text(label), hued_text(Hue::Cyan, value))
}

/// A line with a label and a value in faint ink.
pub open spec fn labelled_dim(label: Seq<char>, value: Seq<char>) -> LineView {
    line_of_two(Stream::Stdout, plain_text(label), text_in(Ink::Dimmed, value))
}

/// What is said of `/temperature`.
pub open spec fn temperature_lines(
    argument: Option<Seq<char>>,
    reading: Option<Single>,
    current: Single,
) -> Seq<LineView> {
    match (argument, reading) {
        (Some(_), Some(t)) => if temperature_allowed(t) {
            seq![
                line_of_two(
                    Stream::Stdout,
                    plain_text("Temperature set to: "@),
                    figure_in(Ink::Plain, Figure::Shortest(t)),
                ),
            ]
        } else {
            seq![said("Temperature must be between 0.0 and 2.0"@)]
        },
        (Some(_), None) => seq![
            said("Invalid temperature value. Use a number between 0.0 and 2.0"@),
        ],
        (None, _) => seq![
            line_of_two(
                Stream::Stdout,
                plain_text("Current temperature: "@),
                figure_in(Ink::Plain, Figure::Shortest(current)),
            ),
            said("Usage: /temperature <value>"@),
        ],
    }
}

/// What is said of `/seed`.
pub open spec fn seed_lines(argument: Option<Seq<char>>, current: Option<i64>) -> Seq<LineView> {
    match argument {
        Some(text) => seq![
            if text == "clear"@ {
                said("Seed cleared (using random generation)."@)
            } else {
                match integer_of(text) {
                    Some(n) => said("Seed set to: "@ + signed_decimal(n)),
                    None => said("Invalid seed value. Use an integer or 'clear'."@),
                }
            },
        ],
        None => seq![
            match current {
                Some(n) => said("Current seed: "@ + signed_decimal(n as int)),
                None => said("Current seed: None (random generation)"@),
            },
            said("Usage: /seed <value> or /seed clear"@),
        ],
    }
}

/// What is said of an endpoint or a model that was set or asked for.
pub open spec fn setting_line(
    given: bool,
    set: Seq<char>,
    current: Seq<char>,
    value: Seq<char>,
) -> LineView {
    labelled(
        if given {
            set
        } else {
            current
        },
        value,
    )
}

/// What `/endpoint` and `/save-endpoint` ask for, once the session has the endpoint.
pub open spec fn endpoint_actions(given: bool, save: bool, endpoint: Seq<char>) -> Seq<ActionView> {
    seq![
        ActionView::Print(
            setting_line(given, "Endpoint set to: "@, "Current endpoint: "@, endpoint),
        ),
    ] + if save {
        seq![ActionView::Persist(ConfigChangeView::Endpoint(endpoint))]
    } else if !given {
        seq![ActionView::Print(said("Usage: /endpoint <url>"@))]
    } else {
        Seq::empty()
    }
}

/// What `/model` and `/save-model` ask for, once the session has the model.
pub open spec fn model_actions(given: bool, save: bool, model: Seq<char>) -> Seq<ActionView> {
    seq![
        ActionView::Print(setting_line(given, "Model set to: "@, "Current model: "@, model)),
    ] + (if given {
        seq![ActionView::CheckModel]
    } else {
        Seq::empty()
    }) + if save {
        seq![ActionView::Persist(ConfigChangeView::Model(model))]
    } else if !given {
        seq![ActionView::Print(said("Usage: /model <name> | /save-model <name>"@))]
    } else {
        Seq::empty()
    }
}

/// What is said of the key.
pub open spec fn api_key_line(argument: Option<Seq<char>>, key: Option<Seq<char>>) -> LineView {
    match (argument, key) {
        (Some(_), None) => said("API key cleared."@),
        (Some(_), Some(_)) => said("API key set (stored in memory)."@),
        (None, Some(k)) => labelled("Current API key: "@, masked(k)),
        (None, None) => line_of_three(
            Stream::Stdout,
            plain_text("Current API key: "@),
            text_in(Ink::Dimmed, "None"@),
            plain_text(" (not set)"@),
        ),
    }
}

/// What `/api-key` and `/save-api-key` ask for, once the session has the key.
pub open spec fn api_key_actions(
    argument: Option<Seq<char>>,
    save: bool,
    key: Option<Seq<char>>,
) -> Seq<ActionView> {
    seq![ActionView::Print(api_key_line(argument, key))] + (if save {
        seq![
            ActionView::Persist(
                match (argument, key) {
                    (_, Some(k)) => ConfigChangeView::ApiKey(k),
                    (Some(_), None) => ConfigChangeView::NoApiKey,
                    (None, None) => ConfigChangeView::SameApiKey,
                },
            ),
        ]
    } else {
        Seq::empty()
    }) + if argument is None {
        seq![ActionView::Print(said("Usage: /api-key <key> | /api-key clear"@))]
    } else {
        Seq::empty()
    }
}

/// What is said of `/config`.
pub open spec fn config_lines(config: SessionView, max_tokens: nat) -> Seq<LineView> {
    seq![
        line_of(Stream::Stdout, text_in(Ink::Bold(Hue::Green), "Current Configuration:"@)),
        labelled("  Model:       "@, config.model),
        labelled("  Endpoint:    "@, config.endpoint),
        match config.api_key {
            Some(key) => labelled("  API key:     "@, masked(key)),
            None => labelled_dim("  API key:     "@, "None"@),
        },
        labelled("  Max tokens:  "@, decimal(max_tokens)),
        line_of_two(
            Stream::Stdout,
            plain_text("  Temperature: "@),
            figure_in(Ink::Color(Hue::Cyan), Figure::Shortest(config.temperature)),
        ),
        match config.seed {
            Some(n) => labelled("  Seed:        "@, signed_decimal(n as int)),
            None => labelled_dim("  Seed:        "@, "None (random)"@),
        },
        match config.system_prompt {
            Some(prompt) => labelled("  System:      "@, prompt),
            None => labelled_dim("  System:      "@, "None"@),
        },
    ]
}

/// What is said of `/info`.
pub open spec fn info_lines(
    config: SessionView,
    messages: Seq<MessageView>,
    max_tokens: usize,
) -> Seq<LineView> {
    let estimate = token_estimate(messages, config.system_prompt) as usize;
    seq![
        line_of(Stream::Stdout, text_in(Ink::Bold(Hue::Green), "Session Information:"@)),
        said("  Messages:    "@ + decimal(messages.len())),
    ] + match config.last_actual_total_tokens {
        Some(actual) => seq![
            line_of_two(
                Stream::Stdout,
                plain_text("  "@),
                framed_in(
                    Ink::Color(Hue::Cyan),
                    "Tokens (ACTUAL): "@ + decimal(actual as nat) + " / "@ + decimal(
                        max_tokens as nat,
                    ) + " ("@,
                    Figure::Percent { count: actual, limit: max_tokens },
                    "%)"@,
                ),
            ),
            labelled_dim("  "@, "└─ From last API response"@),
        ],
        None => seq![
            line_of_two(
                Stream::Stdout,
                plain_text("  "@),
                framed_in(
                    Ink::Color(Hue::Yellow),
                    "Tokens (ESTIMATE): ~"@ + decimal(estimate as nat) + " / "@ + decimal(
                        max_tokens as nat,
                    ) + " ("@,
                    Figure::Percent { count: estimate, limit: max_tokens },
                    "%)"@,
                ),
            ),
            labelled_dim("  "@, "└─ Based on ~4 chars/token"@),
        ],
    }
}

/// What a command asks for. `config` is the session before the command.
pub open spec fn actions_after(
    config: SessionView,
    messages: Seq<MessageView>,
    max_tokens: usize,
    command: CommandView,
    reading: Option<Single>,
) -> Seq<ActionView> {
    let after = session_after(config, command, reading);
    match command {
        CommandView::Help => printed(help_lines()),
        CommandView::Exit => seq![ActionView::Exit],
        CommandView::Clear => printed(seq![said("Session cleared."@)]),
        CommandView::Edit => seq![ActionView::Edit],
        CommandView::System(argument) => printed(
            seq![
                said(
                    if argument is Some {
                        "System prompt set."@
                    } else {
                        "Usage: /system <prompt>"@
                    },
                ),
            ],
        ),
        CommandView::Temperature(argument) => printed(
            temperature_lines(argument, reading, config.temperature),
        ),
        CommandView::Seed(argument) => printed(seed_lines(argument, config.seed)),
        CommandView::Endpoint { argument, save } => endpoint_actions(
            argument is Some,
            save,
            after.endpoint,
        ),
        CommandView::ApiKey { argument, save } => api_key_actions(argument, save, after.api_key),
        CommandView::Models => seq![ActionView::ListModels],
        CommandView::Model { argument, save } => model_actions(
            argument is Some,
            save,
            after.model,
        ),
        CommandView::Config => printed(config_lines(config, max_tokens as nat)),
        CommandView::Info => printed(info_lines(config, messages, max_tokens)),
        CommandView::Unknown => printed(
            seq![said("Unknown command. Type /help for available commands."@)],
        ),
    }
}

/// The command that an input is.
pub fn parse_command(input: &str) -> (r: Command)
    ensures
        r@ == command_of(input@),
{
    let chars = chars_of(input);
    let total = chars.len();
    let k = position_of(&chars, 0, ' ');
    assert(chars@.skip(0) =~= chars@);
    let word_text = text_between(&chars, 0, k);
    assert(word_text@ =~= word_of(input@));
    let argument = if k < total {
        let rest = text_between(&chars, k + 1, total);
        assert(rest@ =~= input@.skip(k + 1));
        Some(rest)
    } else {
        None
    };
    assert(optional_text(argument) == argument_of(input@));
    let word = word_text.as_str();
    if same_text(word, "/help") {
        Command::Help
    } else if same_text(word, "/exit") {
        Command::Exit
    } else if same_text(word, "/clear") {
        Command::Clear
    } else if same_text(word, "/edit") {
        Command::Edit
    } else if same_text(word, "/system") {
        Command::System(argument)
    } else if same_text(word, "/temperature") {
        Command::Temperature(argument)
    } else if same_text(word, "/seed") {
        Command::Seed(argument)
    } else if same_text(word, "/endpoint") {
        Command::Endpoint { argument, save: false }
    } else if same_text(word, "/save-endpoint") {
        Command::Endpoint { argument, save: true }
    } else if same_text(word, "/api-key") {
        Command::ApiKey { argument, save: false }
    } else if same_text(word, "/save-api-key") {
        Command::ApiKey { argument, save: true }
    } else if same_text(word, "/models") {
        Command::Models
    } else if same_text(word, "/model") {
        Command::Model { argument, save: false }
    } else if same_text(word, "/save-model") {
        Command::Model { argument, save: true }
    } else if same_text(word, "/config") {
        Command::Config
    } else if same_text(word, "/info") {
        Command::Info
    } else {
        Command::Unknown
    }
}

/// A row of the help.
fn row(command: &str, effect: &str) -> (r: Line)
    ensures
        r@ == help_row(command@, effect@),
{
    three(
        Stream::Stdout,
        plain("  "),
        hued(Hue::Cyan, pad(command, HELP_WIDTH).as_str()),
        plain(effect),
    )
}

/// A row of the help with an example of the command above.
fn example_row(example: &str) -> (r: Line)
    ensures
        r@ == help_example(example@),
{
    three(
        Stream::Stdout,
        plain("  "),
        ink_text(Ink::Dimmed, pad("", HELP_WIDTH).as_str()),
        plain(example),
    )
}

/// The row of the help for the editor.
fn edit_row() -> (r: Line)
    ensures
        r@ == help_edit(),
{
    let r = Line {
        stream: Stream::Stdout,
        spans: vec![
            plain("  "),
            hued(Hue::Cyan, pad("/edit", HELP_WIDTH).as_str()),
            plain("  Open your default editor ($"),
            hued(Hue::Yellow, "EDITOR"),
            plain(") for multi-line input"),
        ],
    };
    assert(r@.spans =~= help_edit().spans);
    r
}

/// The help.
pub fn help() -> (r: Vec<Line>)
    ensures
        lines_of(r@) == help_lines(),
{
    let r = vec![
        one(Stream::Stdout, ink_text(Ink::Bold(Hue::Green), "Available Commands:")),
        say(""),
        row("/exit", "  Exit the program"),
        row("/clear", "  Clear conversation history (removes all previous messages)"),
        edit_row(),
        row("/system <prompt>", "  Set a system prompt for the conversation"),
        example_row("  Example: /system You are a helpful coding assistant"),
        row("/temperature <value>", "  Set temperature (0.0-2.0, lower = more deterministic)"),
        example_row("  Example: /temperature 0.7"),
        row("/seed <value>", "  Set seed for reproducible outputs"),
        example_row("  Example: /seed 42"),
        row("/seed clear", "  Clear the seed (use random generation)"),
        row("/config", "  Show current configuration"),
        row("/endpoint <url>", "  Set endpoint for this session (no config change)"),
        row("/save-endpoint <url>", "  Set endpoint and persist it to config file"),
        row("/api-key <key>", "  Set API key for this session (no config change)"),
        row("/save-api-key <key>", "  Set API key and persist it to config file"),
        row("/models", "  List models available on the endpoint"),
        row("/model <name>", "  Set model for this session (no config change)"),
        row("/save-model <name>", "  Set model and persist it to config file"),
        row("/info", "  Show session info and token usage"),
        row("/help", "  Show this help message"),
        say(""),
        one(
            Stream::Stdout,
            ink_text(Ink::Dimmed, "Tip: Use Ctrl+D or Ctrl+C to exit at any time"),
        ),
    ];
    reveal(help_lines);
    assert(lines_of(r@) =~= help_lines());
    r
}

/// The actions that only print the given lines.
fn print_all(lines: Vec<Line>) -> (r: Vec<Action>)
    ensures
        actions_of(r@) == printed(lines_of(lines@)),
{
    let ghost all = lines@;
    let mut r: Vec<Action> = Vec::new();
    for line in it: lines
        invariant
            it.seq() == all,
            r@.len() == it.index(),
            forall|i: int| 0 <= i < r@.len() ==> (#[trigger] r@[i])@ == ActionView::Print(all[i]@),
    {
        r.push(Action::Print(line));
    }
    assert(actions_of(r@) =~= printed(lines_of(all)));
    r
}

/// The action that only prints one line.
fn print_one(line: Line) -> (r: Vec<Action>)
    ensures
        actions_of(r@) == printed(seq![line@]),
{
    let r = vec![Action::Print(line)];
    assert(actions_of(r@) =~= printed(seq![line@]));
    r
}

/// A line with a label and a value in cyan.
fn label(name: &str, value: &str) -> (r: Line)
    ensures
        r@ == labelled(name@, value@),
{
    two(Stream::Stdout, plain(name), hued(Hue::Cyan, value))
}

/// A line with a label and a value in faint ink.
fn label_dim(name: &str, value: &str) -> (r: Line)
    ensures
        r@ == labelled_dim(name@, value@),
{
    two(Stream::Stdout, plain(name), ink_text(Ink::Dimmed, value))
}

/// Carries out `/temperature`.
fn set_temperature(
    argument: &Option<String>,
    reading: Option<Single>,
    config: &mut SessionConfig,
) -> (r: Vec<Line>)
    ensures
        final(config)@ == session_after(
            old(config)@,
            CommandView::Temperature(optional_text(*argument)),
            reading,
        ),
        lines_of(r@) == temperature_lines(
            optional_text(*argument),
            reading,
            old(config)@.temperature,
        ),
{
    let ghost current = config.temperature;
    let mut r: Vec<Line> = Vec::new();
    if argument.is_some() {
        match reading {
            Some(t) => if allows_temperature(t) {
                config.temperature = t;
                r.push(
                    two(
                        Stream::Stdout,
                        plain("Temperature set to: "),
                        ink_figure(Ink::Plain, Figure::Shortest(t)),
                    ),
                );
            } else {
                r.push(say("Temperature must be between 0.0 and 2.0"));
            },
            None => {
                r.push(say("Invalid temperature value. Use a number between 0.0 and 2.0"));
            },
        }
    } else {
        r.push(
            two(
                Stream::Stdout,
                plain("Current temperature: "),
                ink_figure(Ink::Plain, Figure::Shortest(config.temperature)),
            ),
        );
        r.push(say("Usage: /temperature <value>"));
    }
    assert(lines_of(r@) =~= temperature_lines(optional_text(*argument), reading, current));
    r
}

/// Carries out `/seed`.
fn set_seed(argument: &Option<String>, config: &mut SessionConfig) -> (r: Vec<Line>)
    ensures
        final(config)@ == session_after(
            old(config)@,
            CommandView::Seed(optional_text(*argument)),
            None,
        ),
        lines_of(r@) == seed_lines(optional_text(*argument), old(config)@.seed),
{
    let ghost current = config.seed;
    let mut r: Vec<Line> = Vec::new();
    match argument {
        Some(text) => if same_text(text.as_str(), "clear") {
            config.seed = None;
            r.push(say("Seed cleared (using random generation)."));
        } else {
            match parse_integer(text.as_str()) {
                Some(n) => {
                    config.seed = Some(n);
                    r.push(say(concat("Seed set to: ", signed_decimal_text(n).as_str()).as_str()));
                },
                None => {
                    r.push(say("Invalid seed value. Use an integer or 'clear'."));
                },
            }
        },
        None => {
            match config.seed {
                Some(n) => r.push(
                    say(concat("Current seed: ", signed_decimal_text(n).as_str()).as_str()),
                ),
                None => r.push(say("Current seed: None (random generation)")),
            }
            r.push(say("Usage: /seed <value> or /seed clear"));
        },
    }
    assert(lines_of(r@) =~= seed_lines(optional_text(*argument), current));
    r
}

/// Carries out `/endpoint` and `/save-endpoint`.
fn set_endpoint(argument: &Option<String>, save: bool, config: &mut SessionConfig) -> (r: Vec<
    Action,
>)
    ensures
        final(config)@ == session_after(
            old(config)@,
            CommandView::Endpoint { argument: optional_text(*argument), save },
            None,
        ),
        actions_of(r@) == endpoint_actions(argument is Some, save, final(config)@.endpoint),
{
    let mut r: Vec<Action> = Vec::new();
    match argument {
        Some(text) => {
            config.endpoint = trim(text.as_str());
            r.push(Action::Print(label("Endpoint set to: ", config.endpoint.as_str())));
        },
        None => {
            r.push(Action::Print(label("Current endpoint: ", config.endpoint.as_str())));
        },
    }
    if save {
        r.push(Action::Persist(ConfigChange::Endpoint(config.endpoint.clone())));
    } else if argument.is_none() {
        r.push(Action::Print(say("Usage: /endpoint <url>")));
    }
    assert(actions_of(r@) =~= endpoint_actions(argument is Some, save, config@.endpoint));
    r
}

/// Carries out `/model` and `/save-model`.
fn set_model(argument: &Option<String>, save: bool, config: &mut SessionConfig) -> (r: Vec<Action>)
    ensures
        final(config)@ == session_after(
            old(config)@,
            CommandView::Model { argument: optional_text(*argument), save },
            None,
        ),
        actions_of(r@) == model_actions(argument is Some, save, final(config)@.model),
{
    let mut r: Vec<Action> = Vec::new();
    match argument {
        Some(text) => {
            config.model = trim(text.as_str());
            r.push(Action::Print(label("Model set to: ", config.model.as_str())));
            r.push(Action::CheckModel);
        },
        None => {
            r.push(Action::Print(label("Current model: ", config.model.as_str())));
        },
    }
    if save {
        r.push(Action::Persist(ConfigChange::Model(config.model.clone())));
    } else if argument.is_none() {
        r.push(Action::Print(say("Usage: /model <name> | /save-model <name>")));
    }
    assert(actions_of(r@) =~= model_actions(argument is Some, save, config@.model));
    r
}

/// Carries out `/api-key` and `/save-api-key`.
fn set_api_key(argument: &Option<String>, save: bool, config: &mut SessionConfig) -> (r: Vec<
    Action,
>)
    ensures
        final(config)@ == session_after(
            old(config)@,
            CommandView::ApiKey { argument: optional_text(*argument), save },
            None,
        ),
        actions_of(r@) == api_key_actions(optional_text(*argument), save, final(config)@.api_key),
{
    let mut r: Vec<Action> = Vec::new();
    match argument {
        Some(text) => {
            let key = trim(text.as_str());
            if same_text(key.as_str(), "clear") {
                config.api_key = None;
                r.push(Action::Print(say("API key cleared.")));
            } else {
                config.api_key = Some(key);
                r.push(Action::Print(say("API key set (stored in memory).")));
            }
        },
        None => match &config.api_key {
            Some(key) => {
                r.push(
                    Action::Print(label("Current API key: ", mask_key(key.as_str()).as_str())),
                );
            },
            None => {
                r.push(
                    Action::Print(
                        three(
                            Stream::Stdout,
                            plain("Current API key: "),
                            ink_text(Ink::Dimmed, "None"),
                            plain(" (not set)"),
                        ),
                    ),
                );
            },
        },
    }
    if save {
        let change = match &config.api_key {
            Some(key) => ConfigChange::ApiKey(key.clone()),
            None => if argument.is_some() {
                ConfigChange::NoApiKey
            } else {
                ConfigChange::SameApiKey
            },
        };
        r.push(Action::Persist(change));
    }
    if argument.is_none() {
        r.push(Action::Print(say("Usage: /api-key <key> | /api-key clear")));
    }
    assert(actions_of(r@) =~= api_key_actions(optional_text(*argument), save, config@.api_key));
    r
}

/// What is said of `/config`.
pub fn show_config(config: &SessionConfig, max_tokens: usize) -> (r: Vec<Line>)
    ensures
        lines_of(r@) == config_lines(config@, max_tokens as nat),
{
    let key = match &config.api_key {
        Some(key) => label("  API key:     ", mask_key(key.as_str()).as_str()),
        None => label_dim("  API key:     ", "None"),
    };
    let seed = match config.seed {
        Some(n) => label("  Seed:        ", signed_decimal_text(n).as_str()),
        None => label_dim("  Seed:        ", "None (random)"),
    };
    let system = match &config.system_prompt {
        Some(prompt) => label("  System:      ", prompt.as_str()),
        None => label_dim("  System:      ", "None"),
    };
    let r = vec![
        one(Stream::Stdout, ink_text(Ink::Bold(Hue::Green), "Current Configuration:")),
        label("  Model:       ", config.model.as_str()),
        label("  Endpoint:    ", config.endpoint.as_str()),
        key,
        label("  Max tokens:  ", decimal_text(max_tokens as u64).as_str()),
        two(
            Stream::Stdout,
            plain("  Temperature: "),
            ink_figure(Ink::Color(Hue::Cyan), Figure::Shortest(config.temperature)),
        ),
        seed,
        system,
    ];
    assert(lines_of(r@) =~= config_lines(config@, max_tokens as nat));
    r
}

/// A count of tokens out of a limit, behind a label, up to the percentage.
fn token_text(name: &str, count: usize, limit: usize) -> (r: String)
    ensures
        r@ == name@ + decimal(count as nat) + " / "@ + decimal(limit as nat) + " ("@,
{
    let mut r = name.to_owned();
    r.append(decimal_text(count as u64).as_str());
    r.append(" / ");
    r.append(decimal_text(limit as u64).as_str());
    r.append(" (");
    r
}

/// What is said of `/info`.
pub fn show_info(config: &SessionConfig, messages: &Vec<Message>, max_tokens: usize) -> (r: Vec<
    Line,
>)
    requires
        config@.last_actual_total_tokens is None ==> session_length(
            messages_of(messages@),
            config@.system_prompt,
        ) <= usize::MAX,
    ensures
        lines_of(r@) == info_lines(config@, messages_of(messages@), max_tokens),
{
    let count = decimal_text(messages.len() as u64);
    let mut r = vec![
        one(Stream::Stdout, ink_text(Ink::Bold(Hue::Green), "Session Information:")),
        say(concat("  Messages:    ", count.as_str()).as_str()),
    ];
    match config.last_actual_total_tokens {
        Some(actual) => {
            let before = token_text("Tokens (ACTUAL): ", actual, max_tokens);
            let figure = Figure::Percent { count: actual, limit: max_tokens };
            r.push(
                two(
                    Stream::Stdout,
                    plain("  "),
                    framed(Ink::Color(Hue::Cyan), before.as_str(), figure, "%)"),
                ),
            );
            r.push(label_dim("  ", "└─ From last API response"));
        },
        None => {
            let estimate = estimate_tokens(messages, &config.system_prompt);
            let before = token_text("Tokens (ESTIMATE): ~", estimate, max_tokens);
            let figure = Figure::Percent { count: estimate, limit: max_tokens };
            r.push(
                two(
                    Stream::Stdout,
                    plain("  "),
                    framed(Ink::Color(Hue::Yellow), before.as_str(), figure, "%)"),
                ),
            );
            r.push(label_dim("  ", "└─ Based on ~4 chars/token"));
        },
    }
    assert(lines_of(r@) =~= info_lines(config@, messages_of(messages@), max_tokens));
    r
}

/// Carries out a command: changes the session and the conversation, and returns what is to be
/// done besides, in its order. `reading` is the number that the argument of `/temperature`
/// writes, where it writes one.
pub fn handle_command(
    input: &str,
    reading: Option<Single>,
    messages: &mut Vec<Message>,
    config: &mut SessionConfig,
    max_tokens: usize,
) -> (r: Vec<Action>)
    requires
        command_of(input@) is Info && old(config)@.last_actual_total_tokens is None
            ==> session_length(messages_of(old(messages)@), old(config)@.system_prompt)
            <= usize::MAX,
    ensures
        final(config)@ == session_after(old(config)@, command_of(input@), reading),
        messages_of(final(messages)@) == messages_after(
            messages_of(old(messages)@),
            command_of(input@),
        ),
        actions_of(r@) == actions_after(
            old(config)@,
            messages_of(old(messages)@),
            max_tokens,
            command_of(input@),
            reading,
        ),
{
    match parse_command(input) {
        Command::Help => print_all(help()),
        Command::Exit => {
            let r = vec![Action::Exit];
            assert(actions_of(r@) =~= seq![ActionView::Exit]);
            r
        },
        Command::Clear => {
            messages.clear();
            config.last_actual_total_tokens = None;
            assert(messages_of(messages@) =~= Seq::empty());
            print_one(say("Session cleared."))
        },
        Command::Edit => {
            let r = vec![Action::Edit];
            assert(actions_of(r@) =~= seq![ActionView::Edit]);
            r
        },
        Command::System(argument) => match argument {
            Some(prompt) => {
                config.system_prompt = Some(prompt);
                print_one(say("System prompt set."))
            },
            None => print_one(say("Usage: /system <prompt>")),
        },
        Command::Temperature(argument) => print_all(set_temperature(&argument, reading, config)),
        Command::Seed(argument) => print_all(set_seed(&argument, config)),
        Command::Endpoint { argument, save } => set_endpoint(&argument, save, config),
        Command::ApiKey { argument, save } => set_api_key(&argument, save, config),
        Command::Models => {
            let r = vec![Action::ListModels];
            assert(actions_of(r@) =~= seq![ActionView::ListModels]);
            r
        },
        Command::Model { argument, save } => set_model(&argument, save, config),
        Command::Config => print_all(show_config(config, max_tokens)),
        Command::Info => print_all(show_info(config, messages, max_tokens)),
        Command::Unknown => print_one(say("Unknown command. Type /help for available commands.")),
    }
}

/// The argument of an input that is the command `/temperature` with one.
pub fn temperature_argument(input: &str) -> (r: Option<String>)
    ensures
        optional_text(r) == match command_of(input@) {
            CommandView::Temperature(argument) => argument,
            _ => None,
        },
{
    match parse_command(input) {
        Command::Temperature(argument) => argument,
        _ => None,
    }
}

/// A command that saves a setting changes the session just as the one that does not.
pub proof fn law_saving_changes_session_alike(
    config: SessionView,
    argument: Option<Seq<char>>,
    reading: Option<Single>,
)
    ensures
        session_after(config, CommandView::Endpoint { argument, save: true }, reading)
            == session_after(config, CommandView::Endpoint { argument, save: false }, reading),
        session_after(config, CommandView::Model { argument, save: true }, reading)
            == session_after(config, CommandView::Model { argument, save: false }, reading),
        session_after(config, CommandView::ApiKey { argument, save: true }, reading)
            == session_after(config, CommandView::ApiKey { argument, save: false }, reading),
{
}

/// Whether a command is one that saves a setting.
pub open spec fn saves(command: CommandView) -> bool {
    match command {
        CommandView::Endpoint { save, .. } => save,
        CommandView::Model { save, .. } => save,
        CommandView::ApiKey { save, .. } => save,
        _ => false,
    }
}

/// Lines that are only printed change no file and do not end the session.
proof fn lemma_printed(lines: Seq<LineView>, i: int)
    requires
        0 <= i < printed(lines).len(),
    ensures
        printed(lines)[i] is Print,
{
}

/// A command that sets nothing in the endpoint, the model or the key does not change the
/// configuration file, and ends the session only where it is `/exit`.
#[verifier::spinoff_prover]
#[verifier::rlimit(40)]
proof fn lemma_others(
    config: SessionView,
    messages: Seq<MessageView>,
    max_tokens: usize,
    command: CommandView,
    reading: Option<Single>,
    i: int,
)
    requires
        0 <= i < actions_after(config, messages, max_tokens, command, reading).len(),
        !(command is Endpoint || command is Model || command is ApiKey),
    ensures
        !(actions_after(config, messages, max_tokens, command, reading)[i] is Persist),
        actions_after(config, messages, max_tokens, command, reading)[i] is Exit ==> command is Exit,
{
    match command {
        CommandView::Help => lemma_printed(help_lines(), i),
        CommandView::Clear => lemma_printed(seq![said("Session cleared."@)], i),
        CommandView::System(argument) => lemma_printed(
            seq![
                said(
                    if argument is Some {
                        "System prompt set."@
                    } else {
                        "Usage: /system <prompt>"@
                    },
                ),
            ],
            i,
        ),
        CommandView::Temperature(argument) => lemma_printed(
            temperature_lines(argument, reading, config.temperature),
            i,
        ),
        CommandView::Seed(argument) => lemma_printed(seed_lines(argument, config.seed), i),
        CommandView::Config => lemma_printed(config_lines(config, max_tokens as nat), i),
        CommandView::Info => lemma_printed(info_lines(config, messages, max_tokens), i),
        CommandView::Unknown => lemma_printed(
            seq![said("Unknown command. Type /help for available commands."@)],
            i,
        ),
        _ => {},
    }
}

/// No command about the endpoint, the model or the key ends the session.
proof fn lemma_settings_do_not_end(
    given: bool,
    save: bool,
    value: Seq<char>,
    argument: Option<Seq<char>>,
    key: Option<Seq<char>>,
    i: int,
)
    ensures
        0 <= i < endpoint_actions(given, save, value).len() ==> !(endpoint_actions(
            given,
            save,
            value,
        )[i] is Exit),
        0 <= i < model_actions(given, save, value).len() ==> !(model_actions(given, save, value)[i]
            is Exit),
        0 <= i < api_key_actions(argument, save, key).len() ==> !(api_key_actions(
            argument,
            save,
            key,
        )[i] is Exit),
{
}

/// Only a command that saves a setting changes the configuration file, and what it saves is
/// what the session then has.
#[verifier::spinoff_prover]
#[verifier::rlimit(40)]
pub proof fn law_only_saving_persists(
    config: SessionView,
    messages: Seq<MessageView>,
    max_tokens: usize,
    command: CommandView,
    reading: Option<Single>,
    i: int,
)
    requires
        0 <= i < actions_after(config, messages, max_tokens, command, reading).len(),
        actions_after(config, messages, max_tokens, command, reading)[i] is Persist,
    ensures
        saves(command),
        ({
            let change = actions_after(config, messages, max_tokens, command, reading)[i]->Persist_0;
            let after = session_after(config, command, reading);
            &&& change matches ConfigChangeView::Endpoint(t) ==> t == after.endpoint
            &&& change matches ConfigChangeView::Model(t) ==> t == after.model
            &&& change matches ConfigChangeView::ApiKey(t) ==> after.api_key == Some(t)
            &&& change is NoApiKey ==> after.api_key is None
            &&& change is SameApiKey ==> after.api_key is None
        }),
{
    if !(command is Endpoint || command is Model || command is ApiKey) {
        lemma_others(config, messages, max_tokens, command, reading, i);
    }
}

/// Only `/exit` ends the session, and it does nothing else.
#[verifier::spinoff_prover]
#[verifier::rlimit(40)]
pub proof fn law_only_exit_ends(
    config: SessionView,
    messages: Seq<MessageView>,
    max_tokens: usize,
    command: CommandView,
    reading: Option<Single>,
)
    ensures
        actions_after(config, messages, max_tokens, command, reading).contains(ActionView::Exit)
            <==> command is Exit,
        command is Exit ==> {
            &&& actions_after(config, messages, max_tokens, command, reading) == seq![
                ActionView::Exit,
            ]
            &&& session_after(config, command, reading) == config
            &&& messages_after(messages, command) == messages
        },
{
    let actions = actions_after(config, messages, max_tokens, command, reading);
    let after = session_after(config, command, reading);
    if command is Exit {
        assert(actions[0] is Exit);
    }
    assert forall|i: int| 0 <= i < actions.len() && actions[i] is Exit implies command is Exit by {
        match command {
            CommandView::Endpoint { argument, save } => lemma_settings_do_not_end(
                argument is Some,
                save,
                after.endpoint,
                None,
                None,
                i,
            ),
            CommandView::Model { argument, save } => lemma_settings_do_not_end(
                argument is Some,
                save,
                after.model,
                None,
                None,
                i,
            ),
            CommandView::ApiKey { argument, save } => lemma_settings_do_not_end(
                false,
                save,
                after.endpoint,
                argument,
                after.api_key,
                i,
            ),
            _ => lemma_others(config, messages, max_tokens, command, reading, i),
        }
    }
}

/// Only `/clear` takes messages away.
pub proof fn law_only_clear_forgets(messages: Seq<MessageView>, command: CommandView)
    ensures
        command is Clear ==> messages_after(messages, command).len() == 0,
        !(command is Clear) ==> messages_after(messages, command) == messages,
{
}

/// A setting that was allowed stays allowed: no command sets a temperature outside the range.
pub proof fn law_temperature_stays_allowed(
    config: SessionView,
    command: CommandView,
    reading: Option<Single>,
)
    requires
        temperature_allowed(config.temperature),
    ensures
        temperature_allowed(session_after(config, command, reading).temperature),
{
}

/// A command without an argument asks only: it changes no setting, but that `/clear` forgets
/// the number of tokens.
pub proof fn law_asking_changes_nothing(input: Seq<char>, config: SessionView, reading: Option<Single>)
    requires
        argument_of(input) is None,
    ensures
        session_after(config, command_of(input), reading) == (SessionView {
            last_actual_total_tokens: if command_of(input) is Clear {
                None
            } else {
                config.last_actual_total_tokens
            },
            ..config
        }),
{
}

/// A command is told by its word, all up to the first space, and has all behind that space as its
/// argument, with every further space.
pub proof fn law_first_space_ends_the_word(word: Seq<char>, argument: Seq<char>)
    requires
        !word.contains(' '),
    ensures
        word_of(word) == word,
        argument_of(word) is None,
        word_of(word + seq![' '] + argument) == word,
        argument_of(word + seq![' '] + argument) == Some(argument),
{
    let input = word + seq![' '] + argument;
    assert forall|i: int| 0 <= i < word.len() implies word[i] != ' ' by {
        assert(word.contains(word[i]));
    }
    lemma_first_of_is(word, ' ', word.len() as int);
    assert(word.take(word.len() as int) =~= word);
    assert forall|i: int| 0 <= i < word.len() implies input[i] != ' ' by {
        assert(input[i] == word[i]);
    }
    lemma_first_of_is(input, ' ', word.len() as int);
    assert(input.take(word.len() as int) =~= word);
    assert(input.skip((word.len() + 1) as int) =~= argument);
}

/// Whether a word is that of a command.
pub open spec fn is_command_word(word: Seq<char>) -> bool {
    ||| word == "/help"@
    ||| word == "/exit"@
    ||| word == "/clear"@
    ||| word == "/edit"@
    ||| word == "/system"@
    ||| word == "/temperature"@
    ||| word == "/seed"@
    ||| word == "/endpoint"@
    ||| word == "/save-endpoint"@
    ||| word == "/api-key"@
    ||| word == "/save-api-key"@
    ||| word == "/models"@
    ||| word == "/model"@
    ||| word == "/save-model"@
    ||| word == "/config"@
    ||| word == "/info"@
}

proof fn lemma_words_differ()
    ensures
        "/help"@.len() == 5 && "/help"@[1] == 'h',
        "/exit"@.len() == 5 && "/exit"@[1] == 'e' && "/exit"@[2] == 'x',
        "/edit"@.len() == 5 && "/edit"@[1] == 'e' && "/edit"@[2] == 'd',
        "/seed"@.len() == 5 && "/seed"@[1] == 's',
        "/info"@.len() == 5 && "/info"@[1] == 'i',
        "/clear"@.len() == 6 && "/clear"@[1] == 'c',
        "/model"@.len() == 6 && "/model"@[1] == 'm',
        "/system"@.len() == 7 && "/system"@[1] == 's',
        "/models"@.len() == 7 && "/models"@[1] == 'm',
        "/config"@.len() == 7 && "/config"@[1] == 'c',
        "/api-key"@.len() == 8,
        "/endpoint"@.len() == 9,
        "/save-model"@.len() == 11,
        "/temperature"@.len() == 12,
        "/save-api-key"@.len() == 13,
        "/save-endpoint"@.len() == 14,
{
    reveal_strlit("/help");
    reveal_strlit("/exit");
    reveal_strlit("/edit");
    reveal_strlit("/seed");
    reveal_strlit("/info");
    reveal_strlit("/clear");
    reveal_strlit("/model");
    reveal_strlit("/system");
    reveal_strlit("/models");
    reveal_strlit("/config");
    reveal_strlit("/api-key");
    reveal_strlit("/endpoint");
    reveal_strlit("/save-model");
    reveal_strlit("/temperature");
    reveal_strlit("/save-api-key");
    reveal_strlit("/save-endpoint");
}

/// Each word has its own command, whatever the argument, and every other word is unknown.
pub proof fn law_words_have_their_commands(input: Seq<char>)
    ensures
        word_of(input) == "/help"@ ==> command_of(input) is Help,
        word_of(input) == "/exit"@ ==> command_of(input) is Exit,
        word_of(input) == "/clear"@ ==> command_of(input) is Clear,
        word_of(input) == "/edit"@ ==> command_of(input) is Edit,
        word_of(input) == "/system"@ ==> command_of(input) == CommandView::System(
            argument_of(input),
        ),
        word_of(input) == "/temperature"@ ==> command_of(input) == CommandView::Temperature(
            argument_of(input),
        ),
        word_of(input) == "/seed"@ ==> command_of(input) == CommandView::Seed(argument_of(input)),
        word_of(input) == "/endpoint"@ ==> command_of(input) == (CommandView::Endpoint {
            argument: argument_of(input),
            save: false,
        }),
        word_of(input) == "/save-endpoint"@ ==> command_of(input) == (CommandView::Endpoint {
            argument: argument_of(input),
            save: true,
        }),
        word_of(input) == "/api-key"@ ==> command_of(input) == (CommandView::ApiKey {
            argument: argument_of(input),
            save: false,
        }),
        word_of(input) == "/save-api-key"@ ==> command_of(input) == (CommandView::ApiKey {
            argument: argument_of(input),
            save: true,
        }),
        word_of(input) == "/models"@ ==> command_of(input) is Models,
        word_of(input) == "/model"@ ==> command_of(input) == (CommandView::Model {
            argument: argument_of(input),
            save: false,
        }),
        word_of(input) == "/save-model"@ ==> command_of(input) == (CommandView::Model {
            argument: argument_of(input),
            save: true,
        }),
        word_of(input) == "/config"@ ==> command_of(input) is Config,
        word_of(input) == "/info"@ ==> command_of(input) is Info,
        !is_command_word(word_of(input)) ==> command_of(input) is Unknown,
{
    lemma_words_differ();
}

/// A command takes its whole argument, and sets what it names and nothing else. The system prompt
/// keeps its white space; an address, a model and a key lose that around them. `clear` takes the
/// key away.
pub proof fn law_settings_take_their_argument(
    config: SessionView,
    argument: Seq<char>,
    save: bool,
    reading: Option<Single>,
)
    ensures
        session_after(config, CommandView::System(Some(argument)), reading) == (SessionView {
            system_prompt: Some(argument),
            ..config
        }),
        session_after(
            config,
            CommandView::Endpoint { argument: Some(argument), save },
            reading,
        ) == (SessionView { endpoint: trimmed(argument), ..config }),
        session_after(config, CommandView::Model { argument: Some(argument), save }, reading) == (
        SessionView { model: trimmed(argument), ..config }),
        trimmed(argument) != "clear"@ ==> session_after(
            config,
            CommandView::ApiKey { argument: Some(argument), save },
            reading,
        ) == (SessionView { api_key: Some(trimmed(argument)), ..config }),
        trimmed(argument) == "clear"@ ==> session_after(
            config,
            CommandView::ApiKey { argument: Some(argument), save },
            reading,
        ) == (SessionView { api_key: None, ..config }),
{
}

/// Every integer of 64 bits can be set as a seed and comes back; `clear` takes the seed away, and
/// what is no integer changes nothing. A temperature is set where it is a number in the range.
pub proof fn law_numbers_are_set(
    config: SessionView,
    n: i64,
    text: Seq<char>,
    reading: Option<Single>,
    t: Single,
)
    ensures
        session_after(config, CommandView::Seed(Some(signed_decimal(n as int))), reading) == (
        SessionView { seed: Some(n), ..config }),
        session_after(config, CommandView::Seed(Some("clear"@)), reading) == (SessionView {
            seed: None,
            ..config
        }),
        integer_of(text) is None && text != "clear"@ ==> session_after(
            config,
            CommandView::Seed(Some(text)),
            reading,
        ) == config,
        temperature_allowed(t) ==> session_after(
            config,
            CommandView::Temperature(Some(text)),
            Some(t),
        ) == (SessionView { temperature: t, ..config }),
        !temperature_allowed(t) ==> session_after(
            config,
            CommandView::Temperature(Some(text)),
            Some(t),
        ) == config,
        session_after(config, CommandView::Temperature(Some(text)), None) == config,
{
    law_integers_are_read_back(n as int, Seq::empty(), 0);
    reveal_strlit("clear");
    lemma_decimal_starts(
        if n < 0 {
            (-n) as nat
        } else {
            n as nat
        },
    );
    let written = signed_decimal(n as int);
    if n < 0 {
        assert(written[0] == '-');
    } else {
        assert(is_digit(written[0]));
    }
}

/// All commands but those for a setting leave the session as it is, but that `/clear` forgets the
/// number of tokens.
pub proof fn law_other_commands_set_nothing(
    config: SessionView,
    command: CommandView,
    reading: Option<Single>,
)
    requires
        command is Help || command is Exit || command is Edit || command is Models || command is Config
            || command is Info || command is Unknown || command is Clear,
    ensures
        command is Clear ==> session_after(config, command, reading) == (SessionView {
            last_actual_total_tokens: None,
            ..config
        }),
        !(command is Clear) ==> session_after(config, command, reading) == config,
{
}

/// A command that saves changes the file by the setting that the session has after it: always, with
/// and without an argument, and once. A model that is set is looked up on the endpoint.
pub proof fn law_saving_always_persists(
    config: SessionView,
    messages: Seq<MessageView>,
    max_tokens: usize,
    argument: Option<Seq<char>>,
    save: bool,
    reading: Option<Single>,
)
    ensures
        ({
            let command = CommandView::Endpoint { argument, save };
            let after = session_after(config, command, reading);
            let actions = actions_after(config, messages, max_tokens, command, reading);
            &&& save ==> actions.len() == 2 && actions[1] == ActionView::Persist(
                ConfigChangeView::Endpoint(after.endpoint),
            )
            &&& actions[0] is Print
            &&& !save ==> forall|i: int| 0 <= i < actions.len() ==> #[trigger] actions[i] is Print
        }),
        ({
            let command = CommandView::Model { argument, save };
            let after = session_after(config, command, reading);
            let actions = actions_after(config, messages, max_tokens, command, reading);
            &&& save ==> actions.last() == ActionView::Persist(ConfigChangeView::Model(after.model))
            &&& argument is Some ==> actions[1] is CheckModel
            &&& actions[0] is Print
        }),
        ({
            let command = CommandView::ApiKey { argument, save };
            let after = session_after(config, command, reading);
            let actions = actions_after(config, messages, max_tokens, command, reading);
            &&& save ==> actions[1] is Persist && {
                let change = actions[1]->Persist_0;
                &&& after.api_key matches Some(key) ==> change == ConfigChangeView::ApiKey(key)
                &&& after.api_key is None && argument is Some ==> change is NoApiKey
                &&& after.api_key is None && argument is None ==> change is SameApiKey
            }
            &&& actions[0] is Print
        }),
        actions_after(config, messages, max_tokens, CommandView::Models, reading) == seq![
            ActionView::ListModels,
        ],
        actions_after(config, messages, max_tokens, CommandView::Edit, reading) == seq![
            ActionView::Edit,
        ],
{
}

/// A label and a value are shown one after the other, both in full.
pub proof fn law_labels_stand_before_values(
    label: Seq<char>,
    value: Seq<char>,
    figure: Figure,
    ink: Ink,
    write: spec_fn(Figure) -> Seq<char>,
)
    ensures
        spoken(labelled(label, value), write) == label + value,
        spoken(labelled_dim(label, value), write) == label + value,
        spoken(
            line_of_two(Stream::Stdout, plain_text(label), figure_in(ink, figure)),
            write,
        ) == label + write(figure),
        spoken(
            line_of_three(
                Stream::Stdout,
                plain_text(label),
                text_in(Ink::Dimmed, "None"@),
                plain_text(value),
            ),
            write,
        ) == label + "None"@ + value,
{
    let out = Stream::Stdout;
    law_spans_say_what_they_hold(Ink::Plain, label, figure, value, write);
    law_spans_say_what_they_hold(Ink::Plain, value, figure, value, write);
    law_spans_say_what_they_hold(Ink::Color(Hue::Cyan), value, figure, value, write);
    law_spans_say_what_they_hold(Ink::Dimmed, value, figure, value, write);
    law_spans_say_what_they_hold(Ink::Dimmed, "None"@, figure, value, write);
    law_spans_say_what_they_hold(ink, value, figure, value, write);
    let a = plain_text(label);
    law_lines_say_their_spans(out, a, hued_text(Hue::Cyan, value), a, write);
    law_lines_say_their_spans(out, a, text_in(Ink::Dimmed, value), a, write);
    law_lines_say_their_spans(out, a, figure_in(ink, figure), a, write);
    law_lines_say_their_spans(out, a, text_in(Ink::Dimmed, "None"@), plain_text(value), write);
}

/// `/config` shows every setting of the session in full, but of the key only the mask.
pub proof fn law_config_is_shown_in_full(
    config: SessionView,
    max_tokens: nat,
    write: spec_fn(Figure) -> Seq<char>,
)
    ensures
        config_lines(config, max_tokens).len() == 8,
        spoken(config_lines(config, max_tokens)[1], write) == "  Model:       "@ + config.model,
        spoken(config_lines(config, max_tokens)[2], write) == "  Endpoint:    "@ + config.endpoint,
        spoken(config_lines(config, max_tokens)[3], write) == "  API key:     "@ + (
        match config.api_key {
            Some(key) => masked(key),
            None => "None"@,
        }),
        spoken(config_lines(config, max_tokens)[4], write) == "  Max tokens:  "@ + decimal(
            max_tokens,
        ),
        spoken(config_lines(config, max_tokens)[5], write) == "  Temperature: "@ + write(
            Figure::Shortest(config.temperature),
        ),
        spoken(config_lines(config, max_tokens)[6], write) == "  Seed:        "@ + (
        match config.seed {
            Some(n) => signed_decimal(n as int),
            None => "None (random)"@,
        }),
        spoken(config_lines(config, max_tokens)[7], write) == "  System:      "@ + (
        match config.system_prompt {
            Some(prompt) => prompt,
            None => "None"@,
        }),
{
    let f = Figure::Shortest(config.temperature);
    let ink = Ink::Color(Hue::Cyan);
    law_labels_stand_before_values("  Model:       "@, config.model, f, ink, write);
    law_labels_stand_before_values("  Endpoint:    "@, config.endpoint, f, ink, write);
    law_labels_stand_before_values(
        "  API key:     "@,
        match config.api_key {
            Some(key) => masked(key),
            None => "None"@,
        },
        f,
        ink,
        write,
    );
    law_labels_stand_before_values("  Max tokens:  "@, decimal(max_tokens), f, ink, write);
    law_labels_stand_before_values("  Temperature: "@, decimal(max_tokens), f, ink, write);
    law_labels_stand_before_values(
        "  Seed:        "@,
        match config.seed {
            Some(n) => signed_decimal(n as int),
            None => "None (random)"@,
        },
        f,
        ink,
        write,
    );
    law_labels_stand_before_values(
        "  System:      "@,
        match config.system_prompt {
            Some(prompt) => prompt,
            None => "None"@,
        },
        f,
        ink,
        write,
    );
}

/// `/info` shows the number of all messages, and the number of tokens out of the limit: the one
/// that the endpoint reported last, or else the estimate, marked with a tilde.
pub proof fn law_info_counts_everything(
    config: SessionView,
    messages: Seq<MessageView>,
    max_tokens: usize,
    write: spec_fn(Figure) -> Seq<char>,
)
    ensures
        info_lines(config, messages, max_tokens).len() == 4,
        spoken(info_lines(config, messages, max_tokens)[1], write) == "  Messages:    "@ + decimal(
            messages.len(),
        ),
        config.last_actual_total_tokens matches Some(actual) ==> spoken(
            info_lines(config, messages, max_tokens)[2],
            write,
        ) == "  "@ + ("Tokens (ACTUAL): "@ + decimal(actual as nat) + " / "@ + decimal(
            max_tokens as nat,
        ) + " ("@ + write(Figure::Percent { count: actual, limit: max_tokens }) + "%)"@),
        config.last_actual_total_tokens is None ==> ({
            let estimate = token_estimate(messages, config.system_prompt) as usize;
            spoken(info_lines(config, messages, max_tokens)[2], write) == "  "@ + (
            "Tokens (ESTIMATE): ~"@ + decimal(estimate as nat) + " / "@ + decimal(max_tokens as nat)
                + " ("@ + write(Figure::Percent { count: estimate, limit: max_tokens }) + "%)"@)
        }),
{
    let out = Stream::Stdout;
    law_text_is_said_whole(
        out,
        Ink::Plain,
        Hue::Cyan,
        "  Messages:    "@ + decimal(messages.len()),
        write,
    );
    let a = plain_text("  "@);
    let estimate = token_estimate(messages, config.system_prompt) as usize;
    let (ink, before, count) = match config.last_actual_total_tokens {
        Some(actual) => (
            Ink::Color(Hue::Cyan),
            "Tokens (ACTUAL): "@ + decimal(actual as nat) + " / "@ + decimal(max_tokens as nat)
                + " ("@,
            actual,
        ),
        None => (
            Ink::Color(Hue::Yellow),
            "Tokens (ESTIMATE): ~"@ + decimal(estimate as nat) + " / "@ + decimal(
                max_tokens as nat,
            ) + " ("@,
            estimate,
        ),
    };
    let figure = Figure::Percent { count, limit: max_tokens };
    law_spans_say_what_they_hold(Ink::Plain, "  "@, figure, "%)"@, write);
    law_spans_say_what_they_hold(ink, before, figure, "%)"@, write);
    law_lines_say_their_spans(out, a, framed_in(ink, before, figure, "%)"@), a, write);
}

/// What is said of a setting that was set or asked for gives it in full; of the key only whether
/// it was set or taken away, or its mask.
pub proof fn law_settings_are_told(
    value: Seq<char>,
    key: Option<Seq<char>>,
    n: i64,
    given: bool,
    save: bool,
    write: spec_fn(Figure) -> Seq<char>,
)
    ensures
        endpoint_actions(given, save, value)[0] matches ActionView::Print(line) && spoken(
            line,
            write,
        ) == (if given {
            "Endpoint set to: "@
        } else {
            "Current endpoint: "@
        }) + value,
        model_actions(given, save, value)[0] matches ActionView::Print(line) && spoken(line, write)
            == (if given {
            "Model set to: "@
        } else {
            "Current model: "@
        }) + value,
        spoken(api_key_line(Some(value), key), write) == if key is Some {
            "API key set (stored in memory)."@
        } else {
            "API key cleared."@
        },
        spoken(api_key_line(None, Some(value)), write) == "Current API key: "@ + masked(value),
        spoken(api_key_line(None, None), write) == "Current API key: "@ + "None"@ + " (not set)"@,
        spoken(seed_lines(Some(signed_decimal(n as int)), None)[0], write) == "Seed set to: "@
            + signed_decimal(n as int),
        spoken(seed_lines(None, Some(n))[0], write) == "Current seed: "@ + signed_decimal(n as int),
        spoken(seed_lines(Some("clear"@), Some(n))[0], write)
            == "Seed cleared (using random generation)."@,
        integer_of(value) is None && value != "clear"@ ==> spoken(
            seed_lines(Some(value), Some(n))[0],
            write,
        ) == "Invalid seed value. Use an integer or 'clear'."@,
{
    let f = Figure::Percent { count: 0, limit: 0 };
    let ink = Ink::Plain;
    let out = Stream::Stdout;
    let hue = Hue::Cyan;
    law_labels_stand_before_values("Endpoint set to: "@, value, f, ink, write);
    law_labels_stand_before_values("Current endpoint: "@, value, f, ink, write);
    law_labels_stand_before_values("Model set to: "@, value, f, ink, write);
    law_labels_stand_before_values("Current model: "@, value, f, ink, write);
    law_labels_stand_before_values("Current API key: "@, masked(value), f, ink, write);
    law_labels_stand_before_values("Current API key: "@, " (not set)"@, f, ink, write);
    law_text_is_said_whole(out, ink, hue, "API key set (stored in memory)."@, write);
    law_text_is_said_whole(out, ink, hue, "API key cleared."@, write);
    law_text_is_said_whole(out, ink, hue, "Seed set to: "@ + signed_decimal(n as int), write);
    law_text_is_said_whole(out, ink, hue, "Current seed: "@ + signed_decimal(n as int), write);
    law_text_is_said_whole(out, ink, hue, "Seed cleared (using random generation)."@, write);
    law_text_is_said_whole(out, ink, hue, "Invalid seed value. Use an integer or 'clear'."@, write);
    let config = SessionView {
        endpoint: value,
        model: value,
        api_key: None,
        system_prompt: None,
        temperature: Single { bits: 0 },
        seed: None,
        last_actual_total_tokens: None,
    };
    law_numbers_are_set(config, n, value, None, Single { bits: 0 });
    law_integers_are_read_back(n as int, value, 0);
}

/// What is said of a temperature tells one that was set from one out of the range and from what is
/// no number.
pub proof fn law_temperatures_are_told(
    text: Seq<char>,
    t: Single,
    current: Single,
    reading: Option<Single>,
    write: spec_fn(Figure) -> Seq<char>,
)
    ensures
        temperature_allowed(t) ==> spoken(
            temperature_lines(Some(text), Some(t), current)[0],
            write,
        ) == "Temperature set to: "@ + write(Figure::Shortest(t)),
        !temperature_allowed(t) ==> spoken(
            temperature_lines(Some(text), Some(t), current)[0],
            write,
        ) == "Temperature must be between 0.0 and 2.0"@,
        spoken(temperature_lines(Some(text), None, current)[0], write)
            == "Invalid temperature value. Use a number between 0.0 and 2.0"@,
        spoken(temperature_lines(None, reading, current)[0], write) == "Current temperature: "@
            + write(Figure::Shortest(current)),
{
    let ink = Ink::Plain;
    let out = Stream::Stdout;
    law_labels_stand_before_values("Temperature set to: "@, text, Figure::Shortest(t), ink, write);
    law_labels_stand_before_values(
        "Current temperature: "@,
        text,
        Figure::Shortest(current),
        ink,
        write,
    );
    law_text_is_said_whole(
        out,
        ink,
        Hue::Cyan,
        "Temperature must be between 0.0 and 2.0"@,
        write,
    );
    law_text_is_said_whole(
        out,
        ink,
        Hue::Cyan,
        "Invalid temperature value. Use a number between 0.0 and 2.0"@,
        write,
    );
}

/// What is only shown is printed line by line, each in its place and none left out.
pub proof fn law_lines_are_printed(lines: Seq<LineView>, list: Seq<Action>, i: int)
    ensures
        printed(lines).len() == lines.len(),
        0 <= i < lines.len() ==> printed(lines)[i] == ActionView::Print(lines[i]),
        actions_of(list).len() == list.len(),
        0 <= i < list.len() ==> actions_of(list)[i] == list[i]@,
{
}

/// A command that asks shows what it asks for, all its lines and nothing else.
pub proof fn law_questions_are_answered(
    config: SessionView,
    messages: Seq<MessageView>,
    max_tokens: usize,
    argument: Option<Seq<char>>,
    reading: Option<Single>,
)
    ensures
        actions_after(config, messages, max_tokens, CommandView::Help, reading) == printed(
            help_lines(),
        ),
        actions_after(config, messages, max_tokens, CommandView::Config, reading) == printed(
            config_lines(config, max_tokens as nat),
        ),
        actions_after(config, messages, max_tokens, CommandView::Info, reading) == printed(
            info_lines(config, messages, max_tokens),
        ),
        actions_after(config, messages, max_tokens, CommandView::Temperature(argument), reading)
            == printed(temperature_lines(argument, reading, config.temperature)),
        actions_after(config, messages, max_tokens, CommandView::Seed(argument), reading) == printed(
            seed_lines(argument, config.seed),
        ),
        actions_after(config, messages, max_tokens, CommandView::Clear, reading) == printed(
            seq![said("Session cleared."@)],
        ),
        actions_after(config, messages, max_tokens, CommandView::Unknown, reading) == printed(
            seq![said("Unknown command. Type /help for available commands."@)],
        ),
        actions_after(config, messages, max_tokens, CommandView::System(argument), reading)
            == printed(
            seq![
                said(
                    if argument is Some {
                        "System prompt set."@
                    } else {
                        "Usage: /system <prompt>"@
                    },
                ),
            ],
        ),
        argument is None ==> temperature_lines(argument, reading, config.temperature).len() == 2
            && temperature_lines(argument, reading, config.temperature)[1] == said(
            "Usage: /temperature <value>"@,
        ),
        argument is Some ==> temperature_lines(argument, reading, config.temperature).len() == 1,
        argument is None ==> seed_lines(argument, config.seed).len() == 2 && seed_lines(
            argument,
            config.seed,
        )[1] == said("Usage: /seed <value> or /seed clear"@),
        argument is Some ==> seed_lines(argument, config.seed).len() == 1,
{
}

/// How a setting is used is told where it is asked for and not saved; nothing more is done than to
/// tell, to look a model up, and to save.
pub proof fn law_usage_is_told(
    value: Seq<char>,
    argument: Option<Seq<char>>,
    key: Option<Seq<char>>,
    given: bool,
    save: bool,
)
    ensures
        endpoint_actions(given, save, value).len() == if save || !given {
            2int
        } else {
            1
        },
        !given && !save ==> endpoint_actions(given, save, value)[1] == ActionView::Print(
            said("Usage: /endpoint <url>"@),
        ),
        model_actions(given, save, value).len() == 1 + (if given {
            1int
        } else {
            0
        }) + if save || !given {
            1int
        } else {
            0
        },
        !given && !save ==> model_actions(given, save, value)[1] == ActionView::Print(
            said("Usage: /model <name> | /save-model <name>"@),
        ),
        api_key_actions(argument, save, key).len() == 1 + (if save {
            1int
        } else {
            0
        }) + if argument is None {
            1int
        } else {
            0
        },
        argument is None ==> api_key_actions(argument, save, key).last() == ActionView::Print(
            said("Usage: /api-key <key> | /api-key clear"@),
        ),
{
}

/// The help tells every command in a line of its own, with what it does behind it.
pub proof fn law_help_tells_every_command(
    command: Seq<char>,
    effect: Seq<char>,
    write: spec_fn(Figure) -> Seq<char>,
)
    ensures
        help_lines().len() == 24,
        help_lines().contains(help_row("/exit"@, "  Exit the program"@)),
        help_lines().contains(
            help_row("/clear"@, "  Clear conversation history (removes all previous messages)"@),
        ),
        help_lines().contains(help_edit()),
        help_lines().contains(
            help_row("/system <prompt>"@, "  Set a system prompt for the conversation"@),
        ),
        help_lines().contains(help_row("/models"@, "  List models available on the endpoint"@)),
        help_lines().contains(help_row("/config"@, "  Show current configuration"@)),
        help_lines().contains(help_row("/info"@, "  Show session info and token usage"@)),
        help_lines().contains(help_row("/help"@, "  Show this help message"@)),
        help_lines().contains(
            help_row(
                "/temperature <value>"@,
                "  Set temperature (0.0-2.0, lower = more deterministic)"@,
            ),
        ),
        help_lines().contains(help_row("/seed <value>"@, "  Set seed for reproducible outputs"@)),
        help_lines().contains(help_row("/seed clear"@, "  Clear the seed (use random generation)"@)),
        help_lines().contains(
            help_row("/endpoint <url>"@, "  Set endpoint for this session (no config change)"@),
        ),
        help_lines().contains(
            help_row("/save-endpoint <url>"@, "  Set endpoint and persist it to config file"@),
        ),
        help_lines().contains(
            help_row("/api-key <key>"@, "  Set API key for this session (no config change)"@),
        ),
        help_lines().contains(
            help_row("/save-api-key <key>"@, "  Set API key and persist it to config file"@),
        ),
        help_lines().contains(
            help_row("/model <name>"@, "  Set model for this session (no config change)"@),
        ),
        help_lines().contains(
            help_row("/save-model <name>"@, "  Set model and persist it to config file"@),
        ),
        spoken(help_row(command, effect), write) == "  "@ + padded(command, 20) + effect,
{
    reveal(help_lines);
    let all = help_lines();
    assert(all[2] == help_row("/exit"@, "  Exit the program"@));
    assert(all[3] == help_row(
        "/clear"@,
        "  Clear conversation history (removes all previous messages)"@,
    ));
    assert(all[4] == help_edit());
    assert(all[5] == help_row("/system <prompt>"@, "  Set a system prompt for the conversation"@));
    assert(all[7] == help_row(
        "/temperature <value>"@,
        "  Set temperature (0.0-2.0, lower = more deterministic)"@,
    ));
    assert(all[9] == help_row("/seed <value>"@, "  Set seed for reproducible outputs"@));
    assert(all[11] == help_row("/seed clear"@, "  Clear the seed (use random generation)"@));
    assert(all[13] == help_row(
        "/endpoint <url>"@,
        "  Set endpoint for this session (no config change)"@,
    ));
    assert(all[14] == help_row(
        "/save-endpoint <url>"@,
        "  Set endpoint and persist it to config file"@,
    ));
    assert(all[15] == help_row(
        "/api-key <key>"@,
        "  Set API key for this session (no config change)"@,
    ));
    assert(all[16] == help_row(
        "/save-api-key <key>"@,
        "  Set API key and persist it to config file"@,
    ));
    assert(all[18] == help_row(
        "/model <name>"@,
        "  Set model for this session (no config change)"@,
    ));
    assert(all[19] == help_row("/save-model <name>"@, "  Set model and persist it to config file"@));
    assert(all[12] == help_row("/config"@, "  Show current configuration"@));
    assert(all[17] == help_row("/models"@, "  List models available on the endpoint"@));
    assert(all[20] == help_row("/info"@, "  Show session info and token usage"@));
    assert(all[21] == help_row("/help"@, "  Show this help message"@));
    let f = Figure::Percent { count: 0, limit: 0 };
    let wide = padded(command, 20);
    law_spans_say_what_they_hold(Ink::Plain, "  "@, f, effect, write);
    law_spans_say_what_they_hold(Ink::Plain, effect, f, effect, write);
    law_spans_say_what_they_hold(Ink::Color(Hue::Cyan), wide, f, effect, write);
    law_lines_say_their_spans(
        Stream::Stdout,
        plain_text("  "@),
        hued_text(Hue::Cyan, wide),
        plain_text(effect),
        write,
    );
}

/// Commands and what they ask for are read as they are.
pub proof fn law_commands_are_read_as_they_are(
    argument: Option<String>,
    save: bool,
    line: Line,
    change: ConfigChange,
)
    ensures
        Command::System(argument)@ == CommandView::System(optional_text(argument)),
        Command::Temperature(argument)@ == CommandView::Temperature(optional_text(argument)),
        Command::Seed(argument)@ == CommandView::Seed(optional_text(argument)),
        (Command::Endpoint { argument, save })@ == (CommandView::Endpoint {
            argument: optional_text(argument),
            save,
        }),
        (Command::ApiKey { argument, save })@ == (CommandView::ApiKey {
            argument: optional_text(argument),
            save,
        }),
        (Command::Model { argument, save })@ == (CommandView::Model {
            argument: optional_text(argument),
            save,
        }),
        Command::Help@ is Help && Command::Exit@ is Exit && Command::Clear@ is Clear
            && Command::Edit@ is Edit && Command::Models@ is Models && Command::Config@ is Config
            && Command::Info@ is Info && Command::Unknown@ is Unknown,
        Action::Print(line)@ == ActionView::Print(line@),
        Action::Persist(change)@ == ActionView::Persist(change@),
        Action::Exit@ is Exit && Action::Edit@ is Edit && Action::ListModels@ is ListModels
            && Action::CheckModel@ is CheckModel,
{
}

} // verus!
