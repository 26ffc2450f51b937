//! How the program starts, and what an input of the user is.
use crate::config::SessionConfig;
#[allow(unused_imports)]
use crate::config::{first_choice, SessionView};
use crate::output::{say, Line};
#[allow(unused_imports)]
use crate::output::{law_text_is_said_whole, lines_of, said, spoken, Figure, LineView, Stream};
#[allow(unused_imports)]
use crate::paint::{Hue, Ink};
use crate::session::{check_context_usage, Message};
#[allow(unused_imports)]
use crate::session::{messages_of, session_length, token_estimate, usage_message};
use crate::text::{concat, starts_with, trim};
#[allow(unused_imports)]
use crate::text::trimmed;
use vstd::prelude::*;

verus! {

/// What the program does when it is started.
#[derive(Clone, Copy, PartialEq, Eq, Structural, Debug)]
pub enum Mode {
    /// It shows its version.
    Version,
    /// It runs a benchmark.
    Benchmark,
    /// It answers the prompt of the command line.
    OneShot,
    /// It answers what is piped into it.
    Piped,
    /// It talks with the user.
    Interactive,
}

/// What the program does: the first of what it is asked for, and otherwise it talks with the user
/// at a terminal or answers what is piped into it.
pub fn choose_mode(version: bool, benchmark: bool, prompt: bool, at_terminal: bool) -> (r: Mode)
    ensures
        r == (if version {
            Mode::Version
        } else if benchmark {
            Mode::Benchmark
        } else if prompt {
            Mode::OneShot
        } else if at_terminal {
            Mode::Interactive
        } else {
            Mode::Piped
        }),
{
    if version {
        Mode::Version
    } else if benchmark {
        Mode::Benchmark
    } else if prompt {
        Mode::OneShot
    } else if !at_terminal {
        Mode::Piped
    } else {
        Mode::Interactive
    }
}

/// What is shown of the version.
pub open spec fn version_lines(
    version: Seq<char>,
    sha: Seq<char>,
    branch: Seq<char>,
    dirty: Seq<char>,
) -> Seq<LineView> {
    seq![
        said("llmchat     "@ + version),
        said("Git SHA:    "@ + sha),
        said("Git Branch: "@ + branch),
        said("Git Dirty:  "@ + dirty),
    ]
}

/// What is shown of the version.
pub fn show_version(version: &str, sha: &str, branch: &str, dirty: &str) -> (r: Vec<Line>)
    ensures
        lines_of(r@) == version_lines(version@, sha@, branch@, dirty@),
{
    let r: Vec<Line> = vec![
        say(concat("llmchat     ", version).as_str()),
        say(concat("Git SHA:    ", sha).as_str()),
        say(concat("Git Branch: ", branch).as_str()),
        say(concat("Git Dirty:  ", dirty).as_str()),
    ];
    assert(lines_of(r@) =~= version_lines(version@, sha@, branch@, dirty@));
    r
}

/// An input of the user.
#[derive(Debug, PartialEq, Eq)]
pub enum Input {
    /// White space alone.
    Nothing,
    /// A command, which begins with a slash.
    Command(String),
    /// A prompt for the model.
    Prompt(String),
}

/// What an input of the user is, without the white space around it.
pub fn read_input(line: &str) -> (r: Input)
    ensures
        match r {
            Input::Nothing => trimmed(line@).len() == 0,
            Input::Command(text) => text@ == trimmed(line@) && "/"@.is_prefix_of(text@),
            Input::Prompt(text) => {
                &&& text@ == trimmed(line@)
                &&& text@.len() > 0
                &&& !"/"@.is_prefix_of(text@)
            },
        },
{
    proof {
        reveal_strlit("/");
    }
    let text = trim(line);
    if text.as_str().is_empty() {
        Input::Nothing
    } else if starts_with(text.as_str(), "/") {
        Input::Command(text)
    } else {
        Input::Prompt(text)
    }
}

/// Takes note of the number of tokens that the endpoint reported for a turn, where it reported
/// one, and returns the message that is due about the context window. The message goes by the
/// number of this turn alone, or else by an estimate.
pub fn end_turn(
    total: Option<usize>,
    messages: &Vec<Message>,
    config: &mut SessionConfig,
    max_tokens: usize,
) -> (r: Option<Line>)
    requires
        total is None ==> session_length(messages_of(messages@), old(config)@.system_prompt)
            <= usize::MAX,
    ensures
        final(config)@ == (SessionView {
            last_actual_total_tokens: first_choice(total, old(config)@.last_actual_total_tokens),
            ..old(config)@
        }),
        ({
            let count = match total {
                Some(n) => n,
                None => token_estimate(
                    messages_of(messages@),
                    old(config)@.system_prompt,
                ) as usize,
            };
            let message = usage_message(count, total is Some, max_tokens);
            &&& r is Some <==> message is Some
            &&& r matches Some(line) ==> message == Some(line@)
        }),
{
    config.note_total(total);
    check_context_usage(messages, max_tokens, total, &config.system_prompt)
}

/// The version is shown in full, a line for each part.
pub proof fn law_version_is_shown_in_full(
    version: Seq<char>,
    sha: Seq<char>,
    branch: Seq<char>,
    dirty: Seq<char>,
    write: spec_fn(Figure) -> Seq<char>,
)
    ensures
        version_lines(version, sha, branch, dirty).len() == 4,
        spoken(version_lines(version, sha, branch, dirty)[0], write) == "llmchat     "@ + version,
        spoken(version_lines(version, sha, branch, dirty)[1], write) == "Git SHA:    "@ + sha,
        spoken(version_lines(version, sha, branch, dirty)[2], write) == "Git Branch: "@ + branch,
        spoken(version_lines(version, sha, branch, dirty)[3], write) == "Git Dirty:  "@ + dirty,
{
    let out = Stream::Stdout;
    law_text_is_said_whole(out, Ink::Plain, Hue::White, "llmchat     "@ + version, write);
    law_text_is_said_whole(out, Ink::Plain, Hue::White, "Git SHA:    "@ + sha, write);
    law_text_is_said_whole(out, Ink::Plain, Hue::White, "Git Branch: "@ + branch, write);
    law_text_is_said_whole(out, Ink::Plain, Hue::White, "Git Dirty:  "@ + dirty, write);
}

} // verus!
