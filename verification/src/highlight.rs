//! Syntax highlighting of code blocks.
use crate::text::{complete_lines, concatenated, cut_lines, decimal, texts, unfinished_line};
#[allow(unused_imports)]
use crate::text::{
    ends_with_word, first_of, law_lines_end_with_line_feeds, law_texts_add_up, lemma_first_of,
    lemma_lines_are_all, lemma_lines_of_concat,
};
use syntect::easy::HighlightLines;
use syntect::highlighting::{Color, FontStyle, Style, ThemeSet};
use syntect::parsing::{SyntaxReference, SyntaxSet};
use vstd::prelude::*;

verus! {

/// The set of syntaxes that `syntect` knows.
#[verifier::external_type_specification]
#[verifier::external_body]
pub struct ExSyntaxSet(SyntaxSet);

/// One syntax of a `syntect` set.
#[verifier::external_type_specification]
#[verifier::external_body]
pub struct ExSyntaxReference(SyntaxReference);

/// The themes that `syntect` knows, by name.
#[verifier::external_type_specification]
#[verifier::external_body]
pub struct ExThemeSet(ThemeSet);

/// The `syntect` highlighter of one text, which takes it line by line.
#[verifier::external_type_specification]
#[verifier::external_body]
pub struct ExHighlightLines<'a>(HighlightLines<'a>);

/// A colour by its parts, and how much of what is behind it it covers.
#[derive(Clone, Copy, PartialEq, Eq, Structural, Debug)]
pub struct Shade {
    pub red: u8,
    pub green: u8,
    pub blue: u8,
    pub alpha: u8,
}

/// A part of a line in its colours.
#[derive(Debug, PartialEq, Eq)]
pub struct Styled {
    pub foreground: Shade,
    pub background: Shade,
    pub text: String,
}

/// What a part of a line in its colours is.
pub struct StyledView {
    pub foreground: Shade,
    pub background: Shade,
    pub text: Seq<char>,
}

impl View for Styled {
    type V = StyledView;

    open spec fn view(&self) -> StyledView {
        StyledView {
            foreground: self.foreground,
            background: self.background,
            text: self.text@,
        }
    }
}

/// What each part of a list is.
pub open spec fn styled_parts(list: Seq<Styled>) -> Seq<StyledView> {
    list.map_values(|p: Styled| p@)
}

/// One part of a colour seen through another.
pub open spec fn blended(front: u8, back: u8, alpha: u8) -> nat {
    if alpha == 255 {
        front as nat
    } else {
        ((front * alpha + back * (255 - alpha)) / 255) as nat
    }
}

/// The sequence that selects a colour by its parts, behind `lead`.
pub open spec fn shade_sequence(lead: Seq<char>, red: nat, green: nat, blue: nat) -> Seq<char> {
    "\u{1b}["@ + lead + ";2;"@ + decimal(red) + ";"@ + decimal(green) + ";"@ + decimal(blue) + "m"@
}

/// A part of a line with the terminal's sequences: that of the background where it is asked
/// for, that of the text, and the text.
pub open spec fn escaped_part(part: StyledView, background: bool) -> Seq<char> {
    let front = part.foreground;
    let back = part.background;
    (if background {
        shade_sequence("48"@, back.red as nat, back.green as nat, back.blue as nat)
    } else {
        Seq::empty()
    }) + shade_sequence(
        "38"@,
        blended(front.red, back.red, front.alpha),
        blended(front.green, back.green, front.alpha),
        blended(front.blue, back.blue, front.alpha),
    ) + part.text
}

/// The parts of a line with the terminal's sequences, one after the other.
pub open spec fn escaped(parts: Seq<StyledView>, background: bool) -> Seq<char> {
    concatenated(parts.map_values(|p: StyledView| escaped_part(p, background)))
}

/// What a highlighter was made for, and the lines that it has taken since.
pub struct Highlighting {
    pub syntaxes: SyntaxSet,
    pub syntax: SyntaxReference,
    pub themes: ThemeSet,
    pub theme: Seq<char>,
    pub lines: Seq<Seq<char>>,
}

/// The names of the syntaxes of a set.
pub uninterp spec fn syntax_names(set: SyntaxSet) -> Set<Seq<char>>;

/// The names of the themes of a set.
pub uninterp spec fn theme_names(set: ThemeSet) -> Set<Seq<char>>;

/// The syntax that a set has for a token such as `rust` or `rs`.
pub uninterp spec fn syntax_for_token(set: SyntaxSet, token: Seq<char>) -> Option<SyntaxReference>;

/// The syntax of a set for text without any.
pub uninterp spec fn plain_syntax(set: SyntaxSet) -> SyntaxReference;

/// What a highlighter has taken so far.
pub uninterp spec fn highlighting(h: HighlightLines) -> Highlighting;

/// The last line that a highlighter has taken, in its styled parts.
pub uninterp spec fn highlighted_parts(h: Highlighting) -> Seq<StyledView>;

/// The last line that a highlighter has taken, with the terminal's sequences for its text.
pub open spec fn highlighted_line(h: Highlighting) -> Seq<char> {
    escaped(highlighted_parts(h), false)
}

/// The name of the theme, one that suits a light background.
pub const THEME: &'static str = "InspiredGitHub";

/// The name of the syntax for text without any.
pub const PLAIN_TEXT: &'static str = "Plain Text";

/// The syntax for a code block's language, or the plain one.
pub open spec fn block_syntax(set: SyntaxSet, language: Seq<char>) -> SyntaxReference {
    match syntax_for_token(set, language) {
        Some(syntax) => syntax,
        None => plain_syntax(set),
    }
}

/// A highlighter for a code block that has taken the given lines.
pub open spec fn block_highlighting(
    syntaxes: SyntaxSet,
    themes: ThemeSet,
    language: Seq<char>,
    lines: Seq<Seq<char>>,
) -> Highlighting {
    Highlighting {
        syntaxes,
        syntax: block_syntax(syntaxes, language),
        themes,
        theme: THEME@,
        lines,
    }
}

/// The lines of a code block with their ends; the last one may have none.
pub open spec fn block_lines(code: Seq<char>) -> Seq<Seq<char>> {
    if unfinished_line(code).len() > 0 {
        complete_lines(code).push(unfinished_line(code))
    } else {
        complete_lines(code)
    }
}

/// A code block with the terminal's colour sequences, each line highlighted in the light of
/// those before it.
pub open spec fn highlighted_block(
    syntaxes: SyntaxSet,
    themes: ThemeSet,
    language: Seq<char>,
    code: Seq<char>,
) -> Seq<char> {
    let lines = block_lines(code);
    concatenated(
        Seq::new(
            lines.len(),
            |i: int|
                highlighted_line(
                    block_highlighting(syntaxes, themes, language, lines.take(i + 1)),
                ),
        ),
    )
}

/// Calls `SyntaxSet::load_defaults_newlines`. The set that it loads has the syntax for plain
/// text; nothing more is said of it.
#[verifier::external_body]
pub(crate) fn load_syntaxes() -> (r: SyntaxSet)
    ensures
        syntax_names(r).contains(PLAIN_TEXT@),
{
    SyntaxSet::load_defaults_newlines()
}

/// Calls `ThemeSet::load_defaults`. The set that it loads has the theme `InspiredGitHub`;
/// nothing more is said of it.
#[verifier::external_body]
pub(crate) fn load_themes() -> (r: ThemeSet)
    ensures
        theme_names(r).contains(THEME@),
{
    ThemeSet::load_defaults()
}

/// Calls `SyntaxSet::find_syntax_by_token`, which depends on the set and the token alone.
#[verifier::external_body]
fn find_syntax<'a>(set: &'a SyntaxSet, token: &str) -> (r: Option<&'a SyntaxReference>)
    ensures
        r is Some <==> syntax_for_token(*set, token@) is Some,
        r matches Some(s) ==> syntax_for_token(*set, token@) == Some(*s),
{
    set.find_syntax_by_token(token)
}

/// Calls `SyntaxSet::find_syntax_plain_text`, which depends on the set alone and panics where
/// the set has no syntax of that name.
#[verifier::external_body]
fn find_plain(set: &SyntaxSet) -> (r: &SyntaxReference)
    requires
        syntax_names(*set).contains(PLAIN_TEXT@),
    ensures
        *r == plain_syntax(*set),
{
    set.find_syntax_plain_text()
}

/// Calls `HighlightLines::new` with the theme of the given name, for a syntax that the set
/// itself gave out. The highlighter has taken no line yet.
#[verifier::external_body]
fn start<'a>(set: &SyntaxSet, syntax: &SyntaxReference, themes: &'a ThemeSet, theme: &str) -> (r:
    HighlightLines<'a>)
    requires
        theme_names(*themes).contains(theme@),
        *syntax == plain_syntax(*set) || exists|token: Seq<char>| #[trigger]
            syntax_for_token(*set, token) == Some(*syntax),
    ensures
        highlighting(r) == (Highlighting {
            syntaxes: *set,
            syntax: *syntax,
            themes: *themes,
            theme: theme@,
            lines: Seq::empty(),
        }),
{
    HighlightLines::new(syntax, &themes.themes[theme])
}

/// Calls `HighlightLines::highlight_line`; a line that cannot be highlighted gives no parts.
/// The outcome depends on what the highlighter was made for and on the lines that it took. Of
/// each part's `Style` the two colours are kept, and the font is not.
#[verifier::external_body]
fn take_line(h: &mut HighlightLines, line: &str, set: &SyntaxSet) -> (r: Vec<Styled>)
    requires
        highlighting(*old(h)).syntaxes == *set,
    ensures
        highlighting(*final(h)) == (Highlighting {
            lines: highlighting(*old(h)).lines.push(line@),
            ..highlighting(*old(h))
        }),
        styled_parts(r@) == highlighted_parts(highlighting(*final(h))),
{
    let shade = |c: Color| Shade { red: c.r, green: c.g, blue: c.b, alpha: c.a };
    let ranges = h.highlight_line(line, set).unwrap_or_default();
    ranges
        .into_iter()
        .map(|(s, t)| Styled {
            foreground: shade(s.foreground),
            background: shade(s.background),
            text: t.to_string(),
        })
        .collect()
}

/// Calls `syntect::util::as_24_bit_terminal_escaped`, which writes for each part the sequence
/// of its background where that is asked for, the sequence of its colour as it is seen on the
/// background, and its text. It does not look at the font.
#[verifier::external_body]
fn escape(parts: &Vec<Styled>, background: bool) -> (r: String)
    ensures
        r@ == escaped(styled_parts(parts@), background),
{
    let color = |s: Shade| Color { r: s.red, g: s.green, b: s.blue, a: s.alpha };
    let style = |p: &Styled| Style {
        foreground: color(p.foreground),
        background: color(p.background),
        font_style: FontStyle::empty(),
    };
    let ranges: Vec<(Style, &str)> = parts.iter().map(|p| (style(p), p.text.as_str())).collect();
    syntect::util::as_24_bit_terminal_escaped(&ranges[..], background)
}

/// The lines of a code block with their ends; the last one may have none.
pub fn code_lines(code: &str) -> (r: Vec<String>)
    ensures
        texts(r@) == block_lines(code@),
{
    let (mut list, tail) = cut_lines(code);
    let ghost complete = texts(list@);
    if !tail.as_str().is_empty() {
        list.push(tail);
        assert(texts(list@) =~= complete.push(tail@));
    }
    list
}

/// A code block with the terminal's colour sequences.
pub(crate) fn highlight_block(
    syntaxes: &SyntaxSet,
    themes: &ThemeSet,
    language: &str,
    code: &str,
) -> (r: String)
    requires
        syntax_names(*syntaxes).contains(PLAIN_TEXT@),
        theme_names(*themes).contains(THEME@),
    ensures
        r@ == highlighted_block(*syntaxes, *themes, language@, code@),
{
    let syntax = match find_syntax(syntaxes, language) {
        Some(s) => s,
        None => find_plain(syntaxes),
    };
    let mut h = start(syntaxes, syntax, themes, THEME);
    let list = code_lines(code);
    let ghost lines = block_lines(code@);
    let ghost shown = Seq::new(
        lines.len(),
        |i: int|
            highlighted_line(block_highlighting(*syntaxes, *themes, language@, lines.take(i + 1))),
    );
    let mut r = String::new();
    let mut i: usize = 0;
    assert(lines.take(0) =~= Seq::empty());
    while i < list.len()
        invariant
            i <= list@.len(),
            texts(list@) == lines,
            list@.len() == lines.len(),
            highlighting(h) == block_highlighting(
                *syntaxes,
                *themes,
                language@,
                lines.take(i as int),
            ),
            shown == Seq::new(
                lines.len(),
                |i: int|
                    highlighted_line(
                        block_highlighting(*syntaxes, *themes, language@, lines.take(i + 1)),
                    ),
            ),
            r@ == concatenated(shown.take(i as int)),
        decreases list@.len() - i,
    {
        let parts = take_line(&mut h, list[i].as_str(), syntaxes);
        let line = escape(&parts, false);
        proof {
            assert(list@[i as int]@ == lines[i as int]);
            assert(lines.take(i as int).push(lines[i as int]) =~= lines.take(i + 1));
            assert(shown[i as int] == line@);
            assert(shown.take(i + 1).drop_last() =~= shown.take(i as int));
        }
        r.append(line.as_str());
        i = i + 1;
    }
    assert(shown.take(lines.len() as int) =~= shown);
    r
}

/// The lines of a code block are all of it: together they are the code, none of them is empty, and
/// each but the last ends with the only line feed that it holds.
pub proof fn law_block_is_cut_without_loss(line: Seq<char>, rest: Seq<char>, code: Seq<char>)
    requires
        !line.contains('\n'),
    ensures
        concatenated(block_lines(code)) == code,
        block_lines(Seq::empty()).len() == 0,
        line.len() > 0 ==> block_lines(line) == seq![line],
        block_lines(line + seq!['\n'] + rest) == seq![line + seq!['\n']] + block_lines(rest),
{
    lemma_lines_are_all(code);
    law_texts_add_up(complete_lines(code), Seq::empty(), unfinished_line(code));
    assert(concatenated(block_lines(code)) =~= code);
    law_lines_end_with_line_feeds(line, rest);
    assert(!Seq::<char>::empty().contains('\n'));
    law_lines_end_with_line_feeds(Seq::empty(), rest);
    assert(block_lines(line + seq!['\n'] + rest) =~= seq![line + seq!['\n']] + block_lines(rest));
    if line.len() > 0 {
        assert(block_lines(line) =~= seq![line]);
    }
}

/// A code block is shown line by line: a line more is shown behind those before it, in the light of
/// them all. The syntax is that of the block's language where there is one for it, and the theme
/// the one for light backgrounds.
pub proof fn law_block_is_shown_line_by_line(
    syntaxes: SyntaxSet,
    themes: ThemeSet,
    language: Seq<char>,
    code: Seq<char>,
    line: Seq<char>,
)
    requires
        code.len() > 0 ==> code[code.len() - 1] == '\n',
        line.len() > 0,
        !line.contains('\n'),
    ensures
        highlighted_block(syntaxes, themes, language, Seq::empty()).len() == 0,
        block_lines(code + line) == block_lines(code).push(line),
        highlighted_block(syntaxes, themes, language, code + line) == highlighted_block(
            syntaxes,
            themes,
            language,
            code,
        ) + highlighted_line(
            block_highlighting(syntaxes, themes, language, block_lines(code).push(line)),
        ),
        block_lines(code + line + seq!['\n']) == block_lines(code).push(line + seq!['\n']),
        highlighted_block(syntaxes, themes, language, code + line + seq!['\n'])
            == highlighted_block(syntaxes, themes, language, code) + highlighted_line(
            block_highlighting(
                syntaxes,
                themes,
                language,
                block_lines(code).push(line + seq!['\n']),
            ),
        ),
        syntax_for_token(syntaxes, language) matches Some(syntax) ==> block_highlighting(
            syntaxes,
            themes,
            language,
            block_lines(code),
        ).syntax == syntax,
        syntax_for_token(syntaxes, language) is None ==> block_highlighting(
            syntaxes,
            themes,
            language,
            block_lines(code),
        ).syntax == plain_syntax(syntaxes),
        block_highlighting(syntaxes, themes, language, block_lines(code)).theme
            == "InspiredGitHub"@,
        block_highlighting(syntaxes, themes, language, block_lines(code)).lines == block_lines(code),
        block_highlighting(syntaxes, themes, language, block_lines(code)).syntaxes == syntaxes,
        block_highlighting(syntaxes, themes, language, block_lines(code)).themes == themes,
{
    let none = Seq::<char>::empty();
    assert(!none.contains('\n'));
    law_lines_end_with_line_feeds(none, none);
    assert(block_lines(none) =~= Seq::<Seq<char>>::empty());
    lemma_lines_of_concat(code, line);
    lemma_lines_of_concat(code, line + seq!['\n']);
    lemma_ends_with_line(code);
    law_lines_end_with_line_feeds(line, none);
    assert(none + line =~= line);
    assert(none + (line + seq!['\n']) =~= line + seq!['\n']);
    assert(line + seq!['\n'] + none =~= line + seq!['\n']);
    assert(code + line + seq!['\n'] =~= code + (line + seq!['\n']));
    assert(block_lines(code + line) =~= block_lines(code).push(line));
    assert(block_lines(code + line + seq!['\n']) =~= block_lines(code).push(line + seq!['\n']));
    lemma_line_more(syntaxes, themes, language, code, code + line, line);
    lemma_line_more(
        syntaxes,
        themes,
        language,
        code,
        code + line + seq!['\n'],
        line + seq!['\n'],
    );
}

proof fn lemma_ends_with_line(code: Seq<char>)
    requires
        code.len() > 0 ==> code[code.len() - 1] == '\n',
    ensures
        unfinished_line(code).len() == 0,
    decreases code.len(),
{
    let k = first_of(code, '\n') as int;
    lemma_first_of(code, '\n');
    if code.len() > 0 {
        assert(k < code.len());
        let rest = code.skip(k + 1);
        if rest.len() > 0 {
            assert(rest[rest.len() - 1] == code[code.len() - 1]);
        }
        lemma_ends_with_line(rest);
    }
}

proof fn lemma_line_more(
    syntaxes: SyntaxSet,
    themes: ThemeSet,
    language: Seq<char>,
    code: Seq<char>,
    longer: Seq<char>,
    line: Seq<char>,
)
    requires
        block_lines(longer) == block_lines(code).push(line),
    ensures
        highlighted_block(syntaxes, themes, language, longer) == highlighted_block(
            syntaxes,
            themes,
            language,
            code,
        ) + highlighted_line(
            block_highlighting(syntaxes, themes, language, block_lines(code).push(line)),
        ),
{
    let lines = block_lines(code);
    let more = block_lines(longer);
    let a = Seq::new(
        lines.len(),
        |i: int|
            highlighted_line(block_highlighting(syntaxes, themes, language, lines.take(i + 1))),
    );
    let b = Seq::new(
        more.len(),
        |i: int|
            highlighted_line(block_highlighting(syntaxes, themes, language, more.take(i + 1))),
    );
    let last = highlighted_line(block_highlighting(syntaxes, themes, language, more));
    assert forall|i: int| 0 <= i < lines.len() implies a[i] == b[i] by {
        assert(lines.take(i + 1) =~= more.take(i + 1));
    }
    assert(more.take(more.len() as int) =~= more);
    assert(b =~= a.push(last));
    law_texts_add_up(a, Seq::empty(), last);
}

/// A line is shown with all its parts: each with its colours, and its text whole behind them.
pub proof fn law_parts_are_shown_whole(parts: Seq<StyledView>, part: StyledView, h: Highlighting)
    ensures
        escaped(Seq::empty(), false).len() == 0,
        escaped(parts.push(part), false) == escaped(parts, false) + escaped_part(part, false),
        ends_with_word(escaped_part(part, false), part.text),
        highlighted_line(h) == escaped(highlighted_parts(h), false),
{
    let f = |p: StyledView| escaped_part(p, false);
    law_texts_add_up(parts.map_values(f), Seq::empty(), f(part));
    assert(parts.push(part).map_values(f) =~= parts.map_values(f).push(f(part)));
    let shown = escaped_part(part, false);
    assert(shown.skip(shown.len() - part.text.len()) =~= part.text);
}

} // verus!
