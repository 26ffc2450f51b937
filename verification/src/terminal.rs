//! Decisions about the terminal: its colours, and the editors for longer prompts.
use crate::markdown::ColorScheme;
use crate::text::{chars_of, contains, join, read_lossy, trim};
#[allow(unused_imports)]
use crate::text::{
    contains_word, joined, law_word_is_found_where_it_stands, lossy_text, texts, trimmed,
};
use vstd::prelude::*;

verus! {

/// What the desktop says of its colours.
#[derive(Debug, PartialEq, Eq)]
pub enum Desktop {
    /// The setting `color-scheme` of GNOME's interface.
    Gnome(String),
    /// What macOS answers to the question for `AppleInterfaceStyle`.
    Apple(Vec<u8>),
    /// Nothing is known.
    Unknown,
}

/// Whether a character is the given small ASCII letter, or becomes it in lower case. For `k`
/// that is also the kelvin sign.
pub open spec fn lowers_to(c: char, small: char) -> bool {
    ||| c == small
    ||| c as int == small as int - 32
    ||| small == 'k' && c == '\u{212a}'
}

/// Whether a word is `dark` in lower case.
pub open spec fn is_dark_word(word: Seq<char>) -> bool {
    &&& word.len() == 4
    &&& lowers_to(word[0], 'd')
    &&& lowers_to(word[1], 'a')
    &&& lowers_to(word[2], 'r')
    &&& lowers_to(word[3], 'k')
}

/// Whether the desktop is known to be dark.
pub open spec fn desktop_is_dark(desktop: Desktop) -> bool {
    match desktop {
        Desktop::Gnome(setting) => contains_word(setting@, "dark"@),
        Desktop::Apple(answer) => is_dark_word(trimmed(lossy_text(answer@))),
        Desktop::Unknown => false,
    }
}

/// Whether a character is one of three.
fn is_letter(c: char, small: char, capital: char, other: char) -> (r: bool)
    ensures
        r == (c == small || c == capital || c == other),
{
    c == small || c == capital || c == other
}

/// The colours to go by: those of the terminal where it tells them, or else those of the
/// desktop. A terminal may be dark on a light desktop.
pub fn color_scheme(terminal: Option<ColorScheme>, desktop: &Desktop) -> (r: ColorScheme)
    ensures
        r == match terminal {
            Some(scheme) => scheme,
            None => if desktop_is_dark(*desktop) {
                ColorScheme::Dark
            } else {
                ColorScheme::Light
            },
        },
{
    if let Some(scheme) = terminal {
        return scheme;
    }
    let dark = match desktop {
        Desktop::Gnome(setting) => contains(setting.as_str(), "dark"),
        Desktop::Apple(answer) => {
            let text = read_lossy(answer.as_slice());
            let word = chars_of(trim(text.as_str()).as_str());
            word.len() == 4 && is_letter(word[0], 'd', 'D', 'D') && is_letter(
                word[1],
                'a',
                'A',
                'A',
            ) && is_letter(word[2], 'r', 'R', 'R') && is_letter(word[3], 'k', 'K', '\u{212a}')
        },
        Desktop::Unknown => false,
    };
    if dark {
        ColorScheme::Dark
    } else {
        ColorScheme::Light
    }
}

/// An editor for a prompt.
#[derive(Debug, PartialEq, Eq)]
pub enum EditorChoice {
    /// The editor within the terminal.
    Internal,
    /// The program of the given name.
    External(String),
}

/// The editor to open: the internal one where it is asked for, or else the program that the
/// environment names, or else `vim`.
pub fn open_editor(use_internal: bool, named: Option<String>) -> (r: EditorChoice)
    ensures
        match r {
            EditorChoice::Internal => use_internal,
            EditorChoice::External(program) => !use_internal && program@ == match named {
                Some(name) => name@,
                None => "vim"@,
            },
        },
{
    if use_internal {
        EditorChoice::Internal
    } else {
        EditorChoice::External(
            match named {
                Some(name) => name,
                None => "vim".to_owned(),
            },
        )
    }
}

/// A key as far as the internal editor tells keys apart.
#[derive(Clone, Copy, PartialEq, Eq, Structural, Debug)]
pub enum Key {
    Escape,
    Character(char),
    Other,
}

/// Whether a key ends the internal editor: escape does, and `d` with the control key and no
/// other.
pub fn ends_editing(key: Key, control_alone: bool) -> (r: bool)
    ensures
        r == (key == Key::Escape || (key == Key::Character('d') && control_alone)),
{
    match key {
        Key::Escape => true,
        Key::Character(c) => c == 'd' && control_alone,
        Key::Other => false,
    }
}

/// The prompt that the lines of the internal editor make.
pub fn edited_text(lines: &Vec<String>) -> (r: String)
    ensures
        r@ == joined(texts(lines@), "\n"@),
{
    join(lines, "\n")
}

/// A desktop is dark where its setting holds `dark` anywhere, or where its answer is that word in
/// capitals or small letters, and in no other case.
pub proof fn law_dark_desktops(setting: String, answer: Vec<u8>, word: Seq<char>)
    ensures
        desktop_is_dark(Desktop::Gnome(setting)) <==> exists|a: Seq<char>, b: Seq<char>|
            setting@ == #[trigger] (a + "dark"@ + b),
        desktop_is_dark(Desktop::Apple(answer)) <==> is_dark_word(trimmed(lossy_text(answer@))),
        !desktop_is_dark(Desktop::Unknown),
        is_dark_word(word) <==> word.len() == 4 && (word[0] == 'd' || word[0] == 'D') && (word[1]
            == 'a' || word[1] == 'A') && (word[2] == 'r' || word[2] == 'R') && (word[3] == 'k'
            || word[3] == 'K' || word[3] == '\u{212a}'),
{
    law_word_is_found_where_it_stands(setting@, "dark"@);
}

} // verus!
