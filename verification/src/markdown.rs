//! Markdown that arrives token by token, shown line by line.
use crate::highlight::{highlight_block, load_syntaxes, load_themes};
#[allow(unused_imports)]
use crate::highlight::{highlighted_block, syntax_names, theme_names, PLAIN_TEXT, THEME};
use crate::paint::{paint, Hue, Ink, Palette};
#[allow(unused_imports)]
use crate::paint::{ink_codes, inked, law_ink_surrounds_text, law_ink_within_ink, lemma_no_escape_no_reset, reset, style_of, PaletteView};
use crate::text::{
    complete_lines, concat, concatenated, cut_lines, joined, lemma_lines_are_all,
    lemma_lines_of_concat, lemma_split_is_all, split, split_on, strip_prefix, texts, trim,
    trim_start, trimmed, trimmed_start, unfinished_line,
};
#[allow(unused_imports)]
use crate::text::{
    first_of, is_whitespace, law_white_space, law_lines_end_with_line_feeds,
    law_text_is_split_at_separators, law_texts_add_up, law_trimmed_start_is_the_rest,
    lemma_first_of,
};
use syntect::highlighting::ThemeSet;
use syntect::parsing::SyntaxSet;
use vstd::prelude::*;

verus! {

/// Whether the terminal's background is light or dark.
#[derive(Clone, Copy, PartialEq, Eq, Structural, Debug)]
pub enum ColorScheme {
    Light,
    Dark,
}

/// A part of a line of text: inline code, or the text around it.
#[derive(Debug, PartialEq, Eq)]
pub struct Segment {
    pub code: bool,
    pub text: String,
}

/// What a segment is.
pub struct SegmentView {
    pub code: bool,
    pub text: Seq<char>,
}

impl View for Segment {
    type V = SegmentView;

    open spec fn view(&self) -> SegmentView {
        SegmentView { code: self.code, text: self.text@ }
    }
}

/// Something that is to be shown.
#[derive(Debug, PartialEq, Eq)]
pub enum Output {
    /// A part of a code block's fence.
    Fence(String),
    /// The end of a line.
    Break,
    /// The content of a code block.
    Block { language: String, code: String },
    /// A heading.
    Heading(String),
    /// A line of text.
    Line(Vec<Segment>),
    /// The unfinished last line of a code block.
    Tail(String),
}

/// What is to be shown.
pub enum OutputView {
    Fence(Seq<char>),
    Break,
    Block { language: Seq<char>, code: Seq<char> },
    Heading(Seq<char>),
    Line(Seq<SegmentView>),
    Tail(Seq<char>),
}

impl View for Output {
    type V = OutputView;

    open spec fn view(&self) -> OutputView {
        match self {
            Output::Fence(t) => OutputView::Fence(t@),
            Output::Break => OutputView::Break,
            Output::Block { language, code } => OutputView::Block {
                language: language@,
                code: code@,
            },
            Output::Heading(t) => OutputView::Heading(t@),
            Output::Line(list) => OutputView::Line(segments(list@)),
            Output::Tail(t) => OutputView::Tail(t@),
        }
    }
}

/// What each segment of a list is.
pub open spec fn segments(list: Seq<Segment>) -> Seq<SegmentView> {
    list.map_values(|s: Segment| s@)
}

/// What each output of a list is.
pub open spec fn outputs(list: Seq<Output>) -> Seq<OutputView> {
    list.map_values(|o: Output| o@)
}

/// What the streamer holds between two tokens.
pub struct StreamerView {
    /// The line that has not ended yet.
    pub buffer: Seq<char>,
    pub in_code_block: bool,
    pub code_language: Seq<char>,
    /// The lines of the open code block.
    pub code_buffer: Seq<char>,
}

/// The marker at the start of a line that opens or closes a code block.
pub open spec fn fence() -> Seq<char> {
    "```"@
}

/// The parts of `text` between backticks. Every second part is code, but what follows the
/// last backtick never is.
pub open spec fn inline_segments_of(text: Seq<char>) -> Seq<SegmentView> {
    let parts = split_on(text, '`');
    Seq::new(
        parts.len(),
        |i: int| SegmentView { code: i % 2 == 1 && i + 1 < parts.len(), text: parts[i] },
    )
}

/// A line outside code blocks: a heading of one of three levels, or text.
pub open spec fn formatted(line: Seq<char>) -> OutputView {
    if "### "@.is_prefix_of(line) {
        OutputView::Heading(trimmed(line.skip("### "@.len() as int)))
    } else if "## "@.is_prefix_of(line) {
        OutputView::Heading(trimmed(line.skip("## "@.len() as int)))
    } else if "# "@.is_prefix_of(line) {
        OutputView::Heading(trimmed(line.skip("# "@.len() as int)))
    } else {
        OutputView::Line(inline_segments_of(line))
    }
}

/// A fence in its parts: the marker, and what stands behind it.
pub open spec fn fence_outputs(behind: Seq<char>) -> Seq<OutputView> {
    if behind.len() > 0 {
        seq![OutputView::Fence(fence()), OutputView::Fence(behind)]
    } else {
        seq![OutputView::Fence(fence())]
    }
}

/// What a line changes, and what is shown for it.
pub open spec fn after_line(state: StreamerView, line: Seq<char>) -> (
    StreamerView,
    Seq<OutputView>,
) {
    let body = trimmed_start(line);
    if fence().is_prefix_of(body) {
        let behind = body.skip(fence().len() as int);
        if state.in_code_block {
            let block = OutputView::Block { language: state.code_language, code: state.code_buffer };
            (
                StreamerView {
                    in_code_block: false,
                    code_language: Seq::empty(),
                    code_buffer: Seq::empty(),
                    ..state
                },
                if state.code_buffer.len() > 0 {
                    seq![block] + fence_outputs(behind)
                } else {
                    fence_outputs(behind)
                },
            )
        } else {
            let language = trimmed(behind);
            (
                StreamerView { in_code_block: true, code_language: language, ..state },
                fence_outputs(language).push(OutputView::Break),
            )
        }
    } else if state.in_code_block {
        (StreamerView { code_buffer: state.code_buffer + line, ..state }, Seq::empty())
    } else {
        (state, seq![formatted(line)])
    }
}

/// What several lines change, one after the other, and what is shown for them.
pub open spec fn after_lines(state: StreamerView, lines: Seq<Seq<char>>) -> (
    StreamerView,
    Seq<OutputView>,
)
    decreases lines.len(),
{
    if lines.len() == 0 {
        (state, Seq::empty())
    } else {
        let (before, shown) = after_lines(state, lines.drop_last());
        let (after, more) = after_line(before, lines.last());
        (after, shown + more)
    }
}

/// What a token changes, and what is shown for it: the lines that it completes.
pub open spec fn after_token(state: StreamerView, token: Seq<char>) -> (
    StreamerView,
    Seq<OutputView>,
) {
    let text = state.buffer + token;
    after_lines(
        StreamerView { buffer: unfinished_line(text), ..state },
        complete_lines(text),
    )
}

/// What is shown at the end of the stream of a code block that was not closed: the lines that
/// were kept of it.
pub open spec fn kept_block(state: StreamerView) -> Seq<OutputView> {
    if state.in_code_block && state.code_buffer.len() > 0 {
        seq![OutputView::Block { language: state.code_language, code: state.code_buffer }]
    } else {
        Seq::empty()
    }
}

/// What is shown at the end of the stream of the line that has not ended.
pub open spec fn last_line(state: StreamerView) -> Seq<OutputView> {
    if state.buffer.len() == 0 {
        Seq::empty()
    } else if state.in_code_block {
        seq![OutputView::Tail(state.buffer)]
    } else {
        seq![formatted(state.buffer)]
    }
}

/// What the end of the stream changes, and what is shown for it: all that is still kept, first
/// the lines of a code block that was not closed, then the line that has not ended.
pub open spec fn after_end(state: StreamerView) -> (StreamerView, Seq<OutputView>) {
    (
        StreamerView {
            buffer: Seq::empty(),
            code_buffer: if state.in_code_block {
                Seq::empty()
            } else {
                state.code_buffer
            },
            ..state
        },
        kept_block(state) + last_line(state),
    )
}

/// Nothing is kept of a code block that is closed.
pub open spec fn keeps_no_closed_block(state: StreamerView) -> bool {
    !state.in_code_block ==> state.code_language.len() == 0 && state.code_buffer.len() == 0
}

/// The ink of ordinary text.
pub open spec fn body_ink(scheme: ColorScheme) -> Ink {
    match scheme {
        ColorScheme::Dark => Ink::Color(Hue::White),
        ColorScheme::Light => Ink::Color(Hue::Black),
    }
}

/// A segment as it is shown: code in its ink, and the text around it as it is.
pub open spec fn segment_text(segment: SegmentView, palette: PaletteView) -> Seq<char> {
    inked(segment.text, if segment.code { Ink::Code } else { Ink::Plain }, palette)
}

/// Segments as they are shown, one after the other.
pub open spec fn segments_text(list: Seq<SegmentView>, palette: PaletteView) -> Seq<char> {
    concatenated(list.map_values(|s: SegmentView| segment_text(s, palette)))
}

/// A heading as it is shown: blue and bold within the ink of ordinary text.
pub open spec fn heading_text(
    heading: Seq<char>,
    scheme: ColorScheme,
    palette: PaletteView,
) -> Seq<char> {
    inked(inked(heading, Ink::Bold(Hue::Blue), palette) + "\n"@, body_ink(scheme), palette)
}

/// A line of text as it is shown: its segments within the ink of ordinary text.
pub open spec fn line_text(
    list: Seq<SegmentView>,
    scheme: ColorScheme,
    palette: PaletteView,
) -> Seq<char> {
    inked(segments_text(list, palette), body_ink(scheme), palette)
}

/// An output as a terminal of the given scheme shows it. Code blocks have their colours whether
/// colours are on or off.
pub open spec fn output_text(
    syntaxes: SyntaxSet,
    themes: ThemeSet,
    scheme: ColorScheme,
    palette: PaletteView,
    output: OutputView,
) -> Seq<char> {
    match output {
        OutputView::Fence(t) => inked(t, Ink::Fence, palette),
        OutputView::Break => "\n"@,
        OutputView::Block { language, code } => highlighted_block(
            syntaxes,
            themes,
            language,
            code,
        ),
        OutputView::Heading(t) => heading_text(t, scheme, palette),
        OutputView::Line(list) => line_text(list, scheme, palette),
        OutputView::Tail(t) => inked(t, Ink::Color(Hue::Black), palette),
    }
}

/// State machine for streaming markdown rendering.
pub struct MarkdownStreamer {
    buffer: String,
    in_code_block: bool,
    code_language: String,
    code_buffer: String,
    syntax_set: SyntaxSet,
    theme_set: ThemeSet,
    color_scheme: ColorScheme,
}

impl View for MarkdownStreamer {
    type V = StreamerView;

    closed spec fn view(&self) -> StreamerView {
        StreamerView {
            buffer: self.buffer@,
            in_code_block: self.in_code_block,
            code_language: self.code_language@,
            code_buffer: self.code_buffer@,
        }
    }
}

/// The parts of `text` between backticks.
pub fn inline_segments(text: &str) -> (r: Vec<Segment>)
    ensures
        segments(r@) == inline_segments_of(text@),
{
    let parts = split(text, '`');
    let ghost all = split_on(text@, '`');
    let total = parts.len();
    let mut r: Vec<Segment> = Vec::new();
    let mut i: usize = 0;
    while i < total
        invariant
            i <= total,
            total == parts@.len(),
            texts(parts@) == all,
            total == all.len(),
            r@.len() == i,
            forall|k: int|
                0 <= k < i ==> (#[trigger] r@[k])@ == (SegmentView {
                    code: k % 2 == 1 && k + 1 < total,
                    text: all[k],
                }),
        decreases total - i,
    {
        assert(all[i as int] == parts@[i as int]@);
        r.push(Segment { code: i % 2 == 1 && i < total - 1, text: parts[i].clone() });
        i = i + 1;
    }
    assert(segments(r@) =~= inline_segments_of(text@));
    r
}

/// The segments one after the other, code in its ink.
pub fn show_segments(list: &Vec<Segment>, palette: &Palette) -> (r: String)
    ensures
        r@ == segments_text(segments(list@), palette@),
{
    let ghost all = segments(list@);
    let ghost pieces = all.map_values(|s: SegmentView| segment_text(s, palette@));
    let mut r = String::new();
    let mut i: usize = 0;
    while i < list.len()
        invariant
            i <= list@.len(),
            all == segments(list@),
            pieces == all.map_values(|s: SegmentView| segment_text(s, palette@)),
            r@ == concatenated(pieces.take(i as int)),
        decreases list@.len() - i,
    {
        let ink = if list[i].code { Ink::Code } else { Ink::Plain };
        let shown = paint(ink, list[i].text.as_str(), palette);
        r.append(shown.as_str());
        proof {
            assert(all[i as int] == list@[i as int]@);
            assert(pieces[i as int] == shown@);
            assert(pieces.take(i + 1).drop_last() =~= pieces.take(i as int));
        }
        i = i + 1;
    }
    assert(pieces.take(i as int) =~= pieces);
    r
}

/// `text` with its inline code in the ink of code.
pub fn highlight_inline_code(text: &str, palette: &Palette) -> (r: String)
    ensures
        r@ == segments_text(inline_segments_of(text@), palette@),
{
    let list = inline_segments(text);
    show_segments(&list, palette)
}

/// What is shown for a line outside code blocks.
pub fn format_line(line: &str) -> (r: Output)
    ensures
        r@ == formatted(line@),
{
    if let Some(rest) = strip_prefix(line, "### ") {
        Output::Heading(trim(rest.as_str()))
    } else if let Some(rest) = strip_prefix(line, "## ") {
        Output::Heading(trim(rest.as_str()))
    } else if let Some(rest) = strip_prefix(line, "# ") {
        Output::Heading(trim(rest.as_str()))
    } else {
        Output::Line(inline_segments(line))
    }
}

/// Adds a fence in its parts.
fn push_fence(out: &mut Vec<Output>, behind: String)
    ensures
        outputs(final(out)@) == outputs(old(out)@) + fence_outputs(behind@),
{
    let marker = Output::Fence("```".to_owned());
    out.push(marker);
    if !behind.as_str().is_empty() {
        out.push(Output::Fence(behind));
    }
    assert(outputs(out@) =~= outputs(old(out)@) + fence_outputs(behind@));
}

impl MarkdownStreamer {
    /// The syntaxes for code blocks.
    pub closed spec fn syntaxes(self) -> SyntaxSet {
        self.syntax_set
    }

    /// The themes for code blocks.
    pub closed spec fn themes(self) -> ThemeSet {
        self.theme_set
    }

    /// The scheme of the terminal.
    pub closed spec fn scheme(self) -> ColorScheme {
        self.color_scheme
    }

    /// Code blocks can be highlighted, and nothing is kept of a block that is closed.
    pub closed spec fn well_formed(self) -> bool {
        &&& syntax_names(self.syntax_set).contains(PLAIN_TEXT@)
        &&& theme_names(self.theme_set).contains(THEME@)
        &&& keeps_no_closed_block(self@)
    }

    /// Everything that stays the same while tokens arrive.
    pub open spec fn same_setting(self, other: MarkdownStreamer) -> bool {
        &&& self.syntaxes() == other.syntaxes()
        &&& self.themes() == other.themes()
        &&& self.scheme() == other.scheme()
    }

    /// A streamer that has seen nothing yet.
    pub fn new(color_scheme: ColorScheme) -> (r: MarkdownStreamer)
        ensures
            r.well_formed(),
            r.scheme() == color_scheme,
            r@ == (StreamerView {
                buffer: Seq::empty(),
                in_code_block: false,
                code_language: Seq::empty(),
                code_buffer: Seq::empty(),
            }),
    {
        MarkdownStreamer {
            buffer: String::new(),
            in_code_block: false,
            code_language: String::new(),
            code_buffer: String::new(),
            syntax_set: load_syntaxes(),
            theme_set: load_themes(),
            color_scheme,
        }
    }

    /// Takes a token and returns what is to be shown for the lines that it completes.
    pub fn process_token(&mut self, token: &str) -> (r: Vec<Output>)
        requires
            old(self).well_formed(),
        ensures
            final(self).well_formed(),
            final(self).same_setting(*old(self)),
            final(self)@ == after_token(old(self)@, token@).0,
            outputs(r@) == after_token(old(self)@, token@).1,
    {
        let text = concat(self.buffer.as_str(), token);
        let (list, rest) = cut_lines(text.as_str());
        let ghost lines = complete_lines(text@);
        self.buffer = rest;
        let ghost start = self@;
        let mut r: Vec<Output> = Vec::new();
        let mut i: usize = 0;
        assert(lines.take(0) =~= Seq::empty());
        assert(outputs(r@) =~= after_lines(start, lines.take(0)).1);
        while i < list.len()
            invariant
                i <= list@.len(),
                texts(list@) == lines,
                list@.len() == lines.len(),
                self.well_formed(),
                self.same_setting(*old(self)),
                self@ == after_lines(start, lines.take(i as int)).0,
                outputs(r@) == after_lines(start, lines.take(i as int)).1,
            decreases list@.len() - i,
        {
            let ghost before = self@;
            let ghost shown = outputs(r@);
            let mut more = self.process_line(list[i].as_str());
            let ghost added = outputs(more@);
            r.append(&mut more);
            proof {
                assert(list@[i as int]@ == lines[i as int]);
                assert(lines.take(i + 1).drop_last() =~= lines.take(i as int));
                assert(outputs(r@) =~= shown + added);
            }
            i = i + 1;
        }
        assert(lines.take(lines.len() as int) =~= lines);
        r
    }

    /// Takes a whole line and returns what is to be shown for it.
    pub fn process_line(&mut self, line: &str) -> (r: Vec<Output>)
        requires
            old(self).well_formed(),
        ensures
            final(self).well_formed(),
            final(self).same_setting(*old(self)),
            final(self)@ == after_line(old(self)@, line@).0,
            outputs(r@) == after_line(old(self)@, line@).1,
    {
        let mut r: Vec<Output> = Vec::new();
        assert(outputs(r@) =~= Seq::empty());
        let body = trim_start(line);
        if let Some(behind) = strip_prefix(body.as_str(), "```") {
            if self.in_code_block {
                if !self.code_buffer.as_str().is_empty() {
                    r.push(
                        Output::Block {
                            language: self.code_language.clone(),
                            code: self.code_buffer.clone(),
                        },
                    );
                }
                let ghost shown = outputs(r@);
                push_fence(&mut r, behind);
                self.in_code_block = false;
                self.code_language = String::new();
                self.code_buffer = String::new();
                assert(outputs(r@) =~= after_line(old(self)@, line@).1);
            } else {
                let language = trim(behind.as_str());
                push_fence(&mut r, language.clone());
                let ghost shown = outputs(r@);
                r.push(Output::Break);
                self.in_code_block = true;
                self.code_language = language;
                assert(outputs(r@) =~= shown.push(OutputView::Break));
                assert(outputs(r@) =~= after_line(old(self)@, line@).1);
            }
        } else if self.in_code_block {
            self.code_buffer = concat(self.code_buffer.as_str(), line);
        } else {
            r.push(format_line(line));
            assert(outputs(r@) =~= after_line(old(self)@, line@).1);
        }
        r
    }

    /// Takes the end of the stream and returns what is to be shown of all that is still kept:
    /// the lines of a code block that was not closed, and the line that has not ended.
    pub fn flush(&mut self) -> (r: Vec<Output>)
        requires
            old(self).well_formed(),
        ensures
            final(self).well_formed(),
            final(self).same_setting(*old(self)),
            final(self)@ == after_end(old(self)@).0,
            outputs(r@) == after_end(old(self)@).1,
    {
        let mut r: Vec<Output> = Vec::new();
        if self.in_code_block {
            if !self.code_buffer.as_str().is_empty() {
                r.push(
                    Output::Block {
                        language: self.code_language.clone(),
                        code: self.code_buffer.clone(),
                    },
                );
            }
            self.code_buffer = String::new();
        }
        assert(outputs(r@) =~= kept_block(old(self)@));
        if !self.buffer.as_str().is_empty() {
            let remaining = self.buffer.clone();
            self.buffer = String::new();
            if self.in_code_block {
                r.push(Output::Tail(remaining));
            } else {
                r.push(format_line(remaining.as_str()));
            }
        }
        assert(self@.buffer =~= Seq::empty());
        assert(self@.code_buffer =~= after_end(old(self)@).0.code_buffer);
        assert(outputs(r@) =~= after_end(old(self)@).1);
        r
    }

    /// An output as a terminal shows it.
    pub fn render(&self, output: &Output, palette: &Palette) -> (r: String)
        requires
            self.well_formed(),
        ensures
            r@ == output_text(
                self.syntaxes(),
                self.themes(),
                self.scheme(),
                palette@,
                output@,
            ),
    {
        let body = match self.color_scheme {
            ColorScheme::Dark => Ink::Color(Hue::White),
            ColorScheme::Light => Ink::Color(Hue::Black),
        };
        match output {
            Output::Fence(t) => paint(Ink::Fence, t.as_str(), palette),
            Output::Break => "\n".to_owned(),
            Output::Block { language, code } => highlight_block(
                &self.syntax_set,
                &self.theme_set,
                language.as_str(),
                code.as_str(),
            ),
            Output::Heading(t) => {
                let heading = paint(Ink::Bold(Hue::Blue), t.as_str(), palette);
                paint(body, concat(heading.as_str(), "\n").as_str(), palette)
            },
            Output::Line(list) => paint(body, show_segments(list, palette).as_str(), palette),
            Output::Tail(t) => paint(Ink::Color(Hue::Black), t.as_str(), palette),
        }
    }
}

proof fn lemma_after_lines_join(state: StreamerView, a: Seq<Seq<char>>, b: Seq<Seq<char>>)
    ensures
        after_lines(state, a + b).0 == after_lines(after_lines(state, a).0, b).0,
        after_lines(state, a + b).1 == after_lines(state, a).1 + after_lines(
            after_lines(state, a).0,
            b,
        ).1,
    decreases b.len(),
{
    let middle = after_lines(state, a).0;
    if b.len() == 0 {
        assert(a + b =~= a);
        assert(after_lines(state, a).1 + after_lines(middle, b).1 =~= after_lines(state, a).1);
    } else {
        lemma_after_lines_join(state, a, b.drop_last());
        assert((a + b).drop_last() =~= a + b.drop_last());
        assert((a + b).last() == b.last());
        assert(after_lines(state, a + b).1 =~= after_lines(state, a).1 + after_lines(middle, b).1);
    }
}

proof fn lemma_buffer_plays_no_part(
    state: StreamerView,
    buffer: Seq<char>,
    lines: Seq<Seq<char>>,
)
    ensures
        after_lines(StreamerView { buffer, ..state }, lines).0 == (StreamerView {
            buffer,
            ..after_lines(state, lines).0
        }),
        after_lines(StreamerView { buffer, ..state }, lines).1 == after_lines(state, lines).1,
        after_lines(state, lines).0.buffer == state.buffer,
    decreases lines.len(),
{
    if lines.len() > 0 {
        lemma_buffer_plays_no_part(state, buffer, lines.drop_last());
    }
}

/// It does not matter where a stream is cut into tokens: two tokens in a row leave the same
/// state, and show the same, as both in one.
pub proof fn law_tokens_join(state: StreamerView, a: Seq<char>, b: Seq<char>)
    ensures
        after_token(state, a + b).0 == after_token(after_token(state, a).0, b).0,
        after_token(state, a + b).1 == after_token(state, a).1 + after_token(
            after_token(state, a).0,
            b,
        ).1,
{
    let text = state.buffer + a;
    let rest = unfinished_line(text);
    let first = complete_lines(text);
    let second = complete_lines(rest + b);
    let tail = unfinished_line(rest + b);
    assert(state.buffer + (a + b) =~= text + b);
    lemma_lines_of_concat(text, b);
    lemma_after_lines_join(StreamerView { buffer: tail, ..state }, first, second);
    lemma_buffer_plays_no_part(state, rest, first);
    lemma_buffer_plays_no_part(state, tail, first);
    let middle = after_token(state, a).0;
    assert(middle.buffer == rest);
    lemma_buffer_plays_no_part(middle, tail, second);
    assert(StreamerView { buffer: tail, ..middle } == after_lines(
        StreamerView { buffer: tail, ..state },
        first,
    ).0);
}

/// No character of a stream is lost or taken twice: the lines that a token completes and the
/// line that it leaves open are what was open before and the token.
pub proof fn law_no_character_lost(state: StreamerView, token: Seq<char>)
    ensures
        concatenated(complete_lines(state.buffer + token)) + after_token(state, token).0.buffer
            == state.buffer + token,
{
    lemma_lines_are_all(state.buffer + token);
    lemma_buffer_plays_no_part(
        StreamerView { buffer: unfinished_line(state.buffer + token), ..state },
        Seq::empty(),
        complete_lines(state.buffer + token),
    );
}

/// The end of a stream is taken once: a second one shows nothing more and changes nothing.
pub proof fn law_end_is_final(state: StreamerView)
    ensures
        after_end(after_end(state).0).1 == Seq::<OutputView>::empty(),
        after_end(after_end(state).0).0 == after_end(state).0,
{
    assert(after_end(after_end(state).0).1 =~= Seq::empty());
}

/// After the end of a stream nothing is kept that has not been shown, and the lines of a code
/// block that was not closed are shown first.
pub proof fn law_end_shows_all(state: StreamerView)
    requires
        keeps_no_closed_block(state),
    ensures
        after_end(state).0.buffer.len() == 0,
        after_end(state).0.code_buffer.len() == 0,
        state.code_buffer.len() > 0 ==> after_end(state).1.first() == (OutputView::Block {
            language: state.code_language,
            code: state.code_buffer,
        }),
        state.buffer.len() > 0 ==> after_end(state).1.last() == (if state.in_code_block {
            OutputView::Tail(state.buffer)
        } else {
            formatted(state.buffer)
        }),
        after_end(state).1.len() == (if state.code_buffer.len() > 0 {
            1int
        } else {
            0
        }) + (if state.buffer.len() > 0 {
            1int
        } else {
            0
        }),
{
}

proof fn lemma_lines_keep_no_closed_block(state: StreamerView, lines: Seq<Seq<char>>)
    requires
        keeps_no_closed_block(state),
    ensures
        keeps_no_closed_block(after_lines(state, lines).0),
    decreases lines.len(),
{
    if lines.len() > 0 {
        lemma_lines_keep_no_closed_block(state, lines.drop_last());
    }
}

/// Nothing is ever kept of a code block that is closed: whatever arrives, a line, a token or the
/// end of the stream.
pub proof fn law_closed_block_is_forgotten(state: StreamerView, text: Seq<char>)
    requires
        keeps_no_closed_block(state),
    ensures
        keeps_no_closed_block(after_line(state, text).0),
        keeps_no_closed_block(after_token(state, text).0),
        keeps_no_closed_block(after_end(state).0),
{
    let whole = state.buffer + text;
    lemma_lines_keep_no_closed_block(
        StreamerView { buffer: unfinished_line(whole), ..state },
        complete_lines(whole),
    );
}

/// A line inside a code block shows nothing until the block is closed; the block is then
/// shown with all its lines.
pub proof fn law_block_keeps_lines(state: StreamerView, lines: Seq<Seq<char>>)
    requires
        state.in_code_block,
        forall|i: int|
            0 <= i < lines.len() ==> !fence().is_prefix_of(trimmed_start(#[trigger] lines[i])),
    ensures
        after_lines(state, lines).1 == Seq::<OutputView>::empty(),
        after_lines(state, lines).0 == (StreamerView {
            code_buffer: state.code_buffer + concatenated(lines),
            ..state
        }),
    decreases lines.len(),
{
    if lines.len() == 0 {
        assert(state.code_buffer + concatenated(lines) =~= state.code_buffer);
    } else {
        assert forall|i: int| 0 <= i < lines.drop_last().len() implies !fence().is_prefix_of(
            trimmed_start(#[trigger] lines.drop_last()[i]),
        ) by {
            assert(lines.drop_last()[i] == lines[i]);
        }
        law_block_keeps_lines(state, lines.drop_last());
        assert(lines[lines.len() - 1] == lines.last());
        assert(state.code_buffer + concatenated(lines.drop_last()) + lines.last()
            =~= state.code_buffer + concatenated(lines));
        assert(after_lines(state, lines).1 =~= Seq::empty());
    }
}

/// Inline code is told from the text around it without loss: only the backticks go.
pub proof fn law_inline_code_keeps_text(text: Seq<char>)
    ensures
        joined(
            inline_segments_of(text).map_values(|s: SegmentView| s.text),
            seq!['`'],
        ) == text,
{
    lemma_split_is_all(text, '`');
    assert(inline_segments_of(text).map_values(|s: SegmentView| s.text) =~= split_on(text, '`'));
}

/// Where colours are off, all but code blocks shows as its text alone.
pub proof fn law_without_colors_text_is_bare(
    syntaxes: SyntaxSet,
    themes: ThemeSet,
    scheme: ColorScheme,
    palette: PaletteView,
    output: OutputView,
)
    requires
        !palette.on,
        !(output is Block),
    ensures
        output_text(syntaxes, themes, scheme, palette, output) == match output {
            OutputView::Fence(t) => t,
            OutputView::Heading(t) => t + "\n"@,
            OutputView::Line(list) => concatenated(list.map_values(|s: SegmentView| s.text)),
            OutputView::Tail(t) => t,
            _ => "\n"@,
        },
{
    if let OutputView::Line(list) = output {
        assert(list.map_values(|s: SegmentView| segment_text(s, palette)) =~= list.map_values(
            |s: SegmentView| s.text,
        ));
    }
}

/// Whether a line begins with `marks` number signs and a space.
pub open spec fn begins_heading(line: Seq<char>, marks: int) -> bool {
    &&& line.len() > marks
    &&& line[marks] == ' '
    &&& forall|i: int| 0 <= i < marks ==> #[trigger] line[i] == '#'
}

/// Whether a line is a heading: it begins with one to three number signs and a space.
pub open spec fn is_heading(line: Seq<char>) -> bool {
    begins_heading(line, 1) || begins_heading(line, 2) || begins_heading(line, 3)
}

proof fn lemma_marks(line: Seq<char>)
    ensures
        "# "@.is_prefix_of(line) <==> begins_heading(line, 1),
        "## "@.is_prefix_of(line) <==> begins_heading(line, 2),
        "### "@.is_prefix_of(line) <==> begins_heading(line, 3),
        "# "@.len() == 2,
        "## "@.len() == 3,
        "### "@.len() == 4,
{
    reveal_strlit("# ");
    reveal_strlit("## ");
    reveal_strlit("### ");
    if begins_heading(line, 1) {
        assert(line[0] == '#');
        assert("# "@ =~= line.subrange(0, 2));
    }
    if begins_heading(line, 2) {
        assert(line[0] == '#' && line[1] == '#');
        assert("## "@ =~= line.subrange(0, 3));
    }
    if begins_heading(line, 3) {
        assert(line[0] == '#' && line[1] == '#' && line[2] == '#');
        assert("### "@ =~= line.subrange(0, 4));
    }
    if "# "@.is_prefix_of(line) {
        assert("# "@[0] == line[0] && "# "@[1] == line[1]);
    }
    if "## "@.is_prefix_of(line) {
        assert("## "@[0] == line[0] && "## "@[1] == line[1] && "## "@[2] == line[2]);
    }
    if "### "@.is_prefix_of(line) {
        assert("### "@[0] == line[0] && "### "@[1] == line[1] && "### "@[2] == line[2] && "### "@[3]
            == line[3]);
    }
}

/// Every line has one form: a heading shows what stands behind its number signs, without the white
/// space around it, and any other line is shown whole, with its inline code.
pub proof fn law_lines_have_one_form(line: Seq<char>, marks: int)
    ensures
        1 <= marks <= 3 && begins_heading(line, marks) ==> formatted(line) == OutputView::Heading(
            trimmed(line.skip(marks + 1)),
        ),
        !is_heading(line) ==> formatted(line) == OutputView::Line(inline_segments_of(line)) && joined(
            formatted(line)->Line_0.map_values(|s: SegmentView| s.text),
            seq!['`'],
        ) == line,
{
    lemma_marks(line);
    law_inline_code_keeps_text(line);
    if begins_heading(line, 1) && begins_heading(line, 2) {
        law_heading_has_one_level(line, 1, 2);
    }
    if begins_heading(line, 1) && begins_heading(line, 3) {
        law_heading_has_one_level(line, 1, 3);
    }
    if begins_heading(line, 2) && begins_heading(line, 3) {
        law_heading_has_one_level(line, 2, 3);
    }
}

/// Outside a code block every line that is no fence is shown, by exactly one output, and changes
/// nothing. A heading shows what stands behind its number signs, without the white space around
/// it. Any other line, be it empty or not, is shown whole, up to and with its end.
pub proof fn law_every_line_is_shown(state: StreamerView, line: Seq<char>)
    requires
        !state.in_code_block,
        !"```"@.is_prefix_of(trimmed_start(line)),
    ensures
        after_line(state, line).0 == state,
        after_line(state, line).1.len() == 1,
        is_heading(line) ==> exists|marks: int|
            1 <= marks <= 3 && #[trigger] begins_heading(line, marks) && after_line(state, line).1[0]
                == OutputView::Heading(trimmed(line.skip(marks + 1))),
        !is_heading(line) ==> after_line(state, line).1[0] == OutputView::Line(
            inline_segments_of(line),
        ) && joined(
            after_line(state, line).1[0]->Line_0.map_values(|s: SegmentView| s.text),
            seq!['`'],
        ) == line,
{
    lemma_marks(line);
    law_inline_code_keeps_text(line);
}

/// What follows the number signs of a heading is decided by their number alone.
pub proof fn law_heading_has_one_level(line: Seq<char>, a: int, b: int)
    requires
        0 <= a,
        0 <= b,
        begins_heading(line, a),
        begins_heading(line, b),
    ensures
        a == b,
{
    if a < b {
        assert(line[a] == '#');
    }
    if b < a {
        assert(line[b] == '#');
    }
}

proof fn lemma_one_line(state: StreamerView, line: Seq<char>)
    ensures
        after_lines(state, seq![line]).0 == after_line(state, line).0,
        after_lines(state, seq![line]).1 == after_line(state, line).1,
{
    let none = Seq::<Seq<char>>::empty();
    assert(seq![line].drop_last() =~= none);
    assert(after_lines(state, none).1 =~= Seq::<OutputView>::empty());
    assert(after_lines(state, seq![line]).1 =~= after_line(state, line).1);
}

/// What a terminal shows for outputs, one after the other.
pub open spec fn outputs_text(
    syntaxes: SyntaxSet,
    themes: ThemeSet,
    scheme: ColorScheme,
    palette: PaletteView,
    list: Seq<OutputView>,
) -> Seq<char> {
    concatenated(
        list.map_values(|o: OutputView| output_text(syntaxes, themes, scheme, palette, o)),
    )
}

proof fn lemma_outputs_text_join(
    syntaxes: SyntaxSet,
    themes: ThemeSet,
    scheme: ColorScheme,
    palette: PaletteView,
    a: Seq<OutputView>,
    b: Seq<OutputView>,
    one: OutputView,
)
    ensures
        outputs_text(syntaxes, themes, scheme, palette, Seq::empty()).len() == 0,
        outputs_text(syntaxes, themes, scheme, palette, seq![one]) == output_text(
            syntaxes,
            themes,
            scheme,
            palette,
            one,
        ),
        outputs_text(syntaxes, themes, scheme, palette, a + b) == outputs_text(
            syntaxes,
            themes,
            scheme,
            palette,
            a,
        ) + outputs_text(syntaxes, themes, scheme, palette, b),
{
    let f = |o: OutputView| output_text(syntaxes, themes, scheme, palette, o);
    law_texts_add_up(a.map_values(f), b.map_values(f), f(one));
    assert((a + b).map_values(f) =~= a.map_values(f) + b.map_values(f));
    assert(seq![one].map_values(f) =~= seq![f(one)]);
}

proof fn lemma_no_backtick_no_fence(line: Seq<char>)
    requires
        !line.contains('`'),
    ensures
        !"```"@.is_prefix_of(trimmed_start(line)),
        inline_segments_of(line) == seq![SegmentView { code: false, text: line }],
{
    reveal_strlit("```");
    let k = law_trimmed_start_is_the_rest(line);
    if "```"@.is_prefix_of(trimmed_start(line)) {
        assert("```"@[0] == trimmed_start(line)[0]);
        assert(line[k] == '`');
    }
    law_text_is_split_at_separators(line, Seq::empty(), '`');
    assert(inline_segments_of(line) =~= seq![SegmentView { code: false, text: line }]);
}

/// Where colours are off, lines without backticks that are no headings show as they came: every
/// character of every line, in their order.
pub proof fn law_plain_lines_show_as_they_came(
    syntaxes: SyntaxSet,
    themes: ThemeSet,
    scheme: ColorScheme,
    palette: PaletteView,
    state: StreamerView,
    lines: Seq<Seq<char>>,
)
    requires
        !palette.on,
        !state.in_code_block,
        forall|i: int|
            0 <= i < lines.len() ==> !(#[trigger] lines[i]).contains('`') && !is_heading(lines[i]),
    ensures
        after_lines(state, lines).0 == state,
        outputs_text(syntaxes, themes, scheme, palette, after_lines(state, lines).1)
            == concatenated(lines),
    decreases lines.len(),
{
    let none = Seq::<OutputView>::empty();
    if lines.len() == 0 {
        lemma_outputs_text_join(syntaxes, themes, scheme, palette, none, none, OutputView::Break);
        assert(outputs_text(syntaxes, themes, scheme, palette, none) =~= concatenated(lines));
    } else {
        let line = lines.last();
        assert(lines[lines.len() - 1] == line);
        assert forall|i: int| 0 <= i < lines.drop_last().len() implies !(
        #[trigger] lines.drop_last()[i]).contains('`') && !is_heading(lines.drop_last()[i]) by {
            assert(lines.drop_last()[i] == lines[i]);
        }
        law_plain_lines_show_as_they_came(
            syntaxes,
            themes,
            scheme,
            palette,
            state,
            lines.drop_last(),
        );
        lemma_no_backtick_no_fence(line);
        lemma_marks(line);
        let shown = OutputView::Line(seq![SegmentView { code: false, text: line }]);
        assert(after_line(state, line).1 =~= seq![shown]);
        lemma_outputs_text_join(
            syntaxes,
            themes,
            scheme,
            palette,
            after_lines(state, lines.drop_last()).1,
            seq![shown],
            shown,
        );
        law_without_colors_text_is_bare(syntaxes, themes, scheme, palette, shown);
        let one = seq![SegmentView { code: false, text: line }];
        assert(one.map_values(|s: SegmentView| s.text) =~= seq![line]);
        law_texts_add_up(Seq::empty(), Seq::empty(), line);
    }
}

proof fn lemma_lines_hold_what_text_holds(text: Seq<char>, c: char)
    requires
        !text.contains(c),
    ensures
        forall|i: int|
            0 <= i < complete_lines(text).len() ==> !(#[trigger] complete_lines(text)[i]).contains(c),
        !unfinished_line(text).contains(c),
    decreases text.len(),
{
    let k = first_of(text, '\n') as int;
    lemma_first_of(text, '\n');
    if k < text.len() {
        let rest = text.skip(k + 1);
        assert forall|i: int| 0 <= i < rest.len() implies rest[i] != c by {
            assert(text.contains(text[i + k + 1]));
        }
        lemma_lines_hold_what_text_holds(rest, c);
        let all = complete_lines(text);
        assert forall|i: int| 0 <= i < all.len() implies !(#[trigger] all[i]).contains(c) by {
            if i == 0 {
                assert forall|j: int| 0 <= j < all[0].len() implies all[0][j] != c by {
                    assert(text.contains(text[j]));
                }
            } else {
                assert(all[i] == complete_lines(rest)[i - 1]);
            }
        }
    }
}

/// Where colours are off, a reply without backticks and number signs shows as its text: nothing
/// of it is lost, added or changed, from its first token to the end of the stream.
pub proof fn law_plain_reply_shows_as_its_text(
    syntaxes: SyntaxSet,
    themes: ThemeSet,
    scheme: ColorScheme,
    palette: PaletteView,
    state: StreamerView,
    text: Seq<char>,
)
    requires
        !palette.on,
        !state.in_code_block,
        state.buffer.len() == 0,
        !text.contains('`'),
        !text.contains('#'),
    ensures
        outputs_text(
            syntaxes,
            themes,
            scheme,
            palette,
            after_token(state, text).1 + after_end(after_token(state, text).0).1,
        ) == text,
{
    assert(state.buffer + text =~= text);
    let lines = complete_lines(text);
    let tail = unfinished_line(text);
    lemma_lines_hold_what_text_holds(text, '`');
    lemma_lines_hold_what_text_holds(text, '#');
    assert forall|i: int| 0 <= i < lines.len() implies !(#[trigger] lines[i]).contains('`')
        && !is_heading(lines[i]) by {
        if is_heading(lines[i]) {
            assert(lines[i][0] == '#');
        }
    }
    let begun = StreamerView { buffer: tail, ..state };
    law_plain_lines_show_as_they_came(syntaxes, themes, scheme, palette, begun, lines);
    let out = after_token(state, text).1;
    let rest = after_end(begun).1;
    lemma_outputs_text_join(syntaxes, themes, scheme, palette, out, rest, OutputView::Break);
    lemma_lines_are_all(text);
    if tail.len() > 0 {
        if is_heading(tail) {
            assert(tail[0] == '#');
        }
        assert forall|i: int| 0 <= i < seq![tail].len() implies !(#[trigger] seq![tail][i]).contains(
            '`',
        ) && !is_heading(seq![tail][i]) by {}
        law_plain_lines_show_as_they_came(syntaxes, themes, scheme, palette, begun, seq![tail]);
        lemma_no_backtick_no_fence(tail);
        lemma_one_line(begun, tail);
        assert(after_lines(begun, seq![tail]).1 =~= seq![formatted(tail)]);
        assert(rest =~= seq![formatted(tail)]);
        law_texts_add_up(Seq::empty(), Seq::empty(), tail);
    } else {
        assert(rest =~= Seq::<OutputView>::empty());
        lemma_outputs_text_join(syntaxes, themes, scheme, palette, rest, rest, OutputView::Break);
        assert(outputs_text(syntaxes, themes, scheme, palette, rest) =~= tail);
    }
}

/// A fence outside a code block opens one in the language behind it, and shows the marker, the
/// language and the end of the line.
pub proof fn law_fence_opens_block(
    syntaxes: SyntaxSet,
    themes: ThemeSet,
    scheme: ColorScheme,
    palette: PaletteView,
    state: StreamerView,
    behind: Seq<char>,
    before: Seq<char>,
)
    requires
        !state.in_code_block,
        forall|i: int| 0 <= i < before.len() ==> is_whitespace(#[trigger] before[i]),
    ensures
        after_line(state, before + "```"@ + behind).0 == (StreamerView {
            in_code_block: true,
            code_language: trimmed(behind),
            ..state
        }),
        !palette.on ==> outputs_text(
            syntaxes,
            themes,
            scheme,
            palette,
            after_line(state, before + "```"@ + behind).1,
        ) == "```"@ + trimmed(behind) + "\n"@,
        forall|i: int|
            0 <= i < after_line(state, before + "```"@ + behind).1.len() ==> {
                let output = #[trigger] after_line(state, before + "```"@ + behind).1[i];
                output is Fence || output is Break
            },
{
    let line = before + "```"@ + behind;
    lemma_fence_line(before, behind);
    let language = trimmed(behind);
    let out = after_line(state, line).1;
    if !palette.on {
        lemma_outputs_text_join(
            syntaxes,
            themes,
            scheme,
            palette,
            fence_outputs(language),
            seq![OutputView::Break],
            OutputView::Break,
        );
        assert(out =~= fence_outputs(language) + seq![OutputView::Break]);
        lemma_fence_text(syntaxes, themes, scheme, palette, language);
    }
}

proof fn lemma_fence_line(before: Seq<char>, behind: Seq<char>)
    requires
        forall|i: int| 0 <= i < before.len() ==> is_whitespace(#[trigger] before[i]),
    ensures
        "```"@.is_prefix_of(trimmed_start(before + "```"@ + behind)),
        trimmed_start(before + "```"@ + behind) == "```"@ + behind,
        trimmed_start(before + "```"@ + behind).skip("```"@.len() as int) == behind,
{
    reveal_strlit("```");
    let line = before + "```"@ + behind;
    let k = law_trimmed_start_is_the_rest(line);
    assert(line[before.len() as int] == '`');
    law_white_space('`');
    if k < before.len() {
        assert(line[k] == before[k]);
    }
    if k > before.len() {
        assert(is_whitespace(line[before.len() as int]));
    }
    assert(line.skip(k) =~= "```"@ + behind);
    assert(("```"@ + behind).take(3) =~= "```"@);
    assert(("```"@ + behind).skip(3) =~= behind);
}

proof fn lemma_fence_text(
    syntaxes: SyntaxSet,
    themes: ThemeSet,
    scheme: ColorScheme,
    palette: PaletteView,
    behind: Seq<char>,
)
    requires
        !palette.on,
    ensures
        outputs_text(syntaxes, themes, scheme, palette, fence_outputs(behind)) == "```"@ + behind,
{
    let mark = OutputView::Fence("```"@);
    let name = OutputView::Fence(behind);
    lemma_outputs_text_join(syntaxes, themes, scheme, palette, seq![mark], seq![name], mark);
    lemma_outputs_text_join(syntaxes, themes, scheme, palette, seq![mark], seq![name], name);
    if behind.len() > 0 {
        assert(fence_outputs(behind) =~= seq![mark] + seq![name]);
    } else {
        assert(fence_outputs(behind) =~= seq![mark]);
        assert("```"@ + behind =~= "```"@);
    }
}

/// A fence within a code block closes it: the block is shown first with all that was kept of it,
/// where that is anything, and then the fence as it stands, with what follows it.
pub proof fn law_fence_closes_block(
    syntaxes: SyntaxSet,
    themes: ThemeSet,
    scheme: ColorScheme,
    palette: PaletteView,
    state: StreamerView,
    before: Seq<char>,
    behind: Seq<char>,
)
    requires
        state.in_code_block,
        forall|i: int| 0 <= i < before.len() ==> is_whitespace(#[trigger] before[i]),
    ensures
        ({
            let (next, out) = after_line(state, before + "```"@ + behind);
            let kept: int = if state.code_buffer.len() > 0 {
                1
            } else {
                0
            };
            &&& !next.in_code_block
            &&& next.code_language.len() == 0
            &&& next.code_buffer.len() == 0
            &&& next.buffer == state.buffer
            &&& kept <= out.len()
            &&& kept == 1 ==> out[0] == (OutputView::Block {
                language: state.code_language,
                code: state.code_buffer,
            })
            &&& forall|i: int| kept <= i < out.len() ==> #[trigger] out[i] is Fence
            &&& !palette.on ==> outputs_text(syntaxes, themes, scheme, palette, out.skip(kept))
                == "```"@ + behind
        }),
{
    lemma_fence_line(before, behind);
    let (next, out) = after_line(state, before + "```"@ + behind);
    if state.code_buffer.len() > 0 {
        assert(out.skip(1) =~= fence_outputs(behind));
    } else {
        assert(out.skip(0) =~= fence_outputs(behind));
    }
    if !palette.on {
        lemma_fence_text(syntaxes, themes, scheme, palette, behind);
    }
}

/// A code block is shown whole: between a fence that opens it and one that closes it, all lines
/// are kept as they came, and shown as one block in the language behind the first fence.
pub proof fn law_code_block_is_shown_whole(
    state: StreamerView,
    language: Seq<char>,
    lines: Seq<Seq<char>>,
    behind: Seq<char>,
)
    requires
        !state.in_code_block,
        keeps_no_closed_block(state),
        concatenated(lines).len() > 0,
        forall|i: int|
            0 <= i < lines.len() ==> !"```"@.is_prefix_of(trimmed_start(#[trigger] lines[i])),
    ensures
        ({
            let (next, out) = after_lines(
                state,
                seq!["```"@ + language] + lines + seq!["```"@ + behind],
            );
            let block = OutputView::Block { language: trimmed(language), code: concatenated(lines) };
            &&& next == state
            &&& exists|i: int| 0 <= i < out.len() && #[trigger] out[i] == block
            &&& forall|i: int| 0 <= i < out.len() && #[trigger] out[i] is Block ==> out[i] == block
        }),
{
    let none = Seq::<char>::empty();
    let first = "```"@ + language;
    let last = "```"@ + behind;
    let block = OutputView::Block { language: trimmed(language), code: concatenated(lines) };
    assert(none + "```"@ + language =~= first);
    assert(none + "```"@ + behind =~= last);
    lemma_fence_line(none, language);
    lemma_fence_line(none, behind);
    lemma_after_lines_join(state, seq![first] + lines, seq![last]);
    lemma_after_lines_join(state, seq![first], lines);
    lemma_one_line(state, first);
    let opened = after_lines(state, seq![first]).0;
    assert(opened == after_line(state, first).0);
    law_block_keeps_lines(opened, lines);
    let full = after_lines(opened, lines).0;
    assert(full.code_buffer =~= concatenated(lines));
    lemma_one_line(full, last);
    let (next, out) = after_lines(state, seq![first] + lines + seq![last]);
    let begin = after_line(state, first).1;
    let end = after_line(full, last).1;
    assert(after_lines(state, seq![first]).1 =~= begin);
    assert(after_lines(full, seq![last]).1 =~= end);
    assert(out =~= begin + end);
    assert(end[0] == block);
    assert(out[begin.len() as int] == block);
    assert forall|i: int| 0 <= i < out.len() && #[trigger] out[i] is Block implies out[i] == block by {
        if i < begin.len() {
            assert(out[i] == begin[i]);
        } else {
            assert(out[i] == end[i - begin.len()]);
        }
    }
    assert(next.code_language =~= state.code_language);
    assert(next.code_buffer =~= state.code_buffer);
}

/// What stands between two backticks is code, and what stands before and behind them is text. A
/// backtick that no other one follows makes no code.
pub proof fn law_code_stands_between_backticks(a: Seq<char>, b: Seq<char>, c: Seq<char>)
    requires
        !a.contains('`'),
        !b.contains('`'),
    ensures
        inline_segments_of(a) == seq![SegmentView { code: false, text: a }],
        inline_segments_of(a + seq!['`'] + b) == seq![
            SegmentView { code: false, text: a },
            SegmentView { code: false, text: b },
        ],
        inline_segments_of(a + seq!['`'] + b + seq!['`'] + c) == seq![
            SegmentView { code: false, text: a },
            SegmentView { code: true, text: b },
        ] + inline_segments_of(c),
{
    let tick = seq!['`'];
    law_text_is_split_at_separators(a, b, '`');
    law_text_is_split_at_separators(b, c, '`');
    law_text_is_split_at_separators(a, b + tick + c, '`');
    assert(a + tick + b + tick + c =~= a + tick + (b + tick + c));
    lemma_split_is_all(c, '`');
    assert(inline_segments_of(a) =~= seq![SegmentView { code: false, text: a }]);
    assert(inline_segments_of(a + tick + b) =~= seq![
        SegmentView { code: false, text: a },
        SegmentView { code: false, text: b },
    ]);
    let parts = split_on(a + tick + b + tick + c, '`');
    assert(parts =~= seq![a, b] + split_on(c, '`'));
    assert(inline_segments_of(a + tick + b + tick + c) =~= seq![
        SegmentView { code: false, text: a },
        SegmentView { code: true, text: b },
    ] + inline_segments_of(c));
}

/// A line waits for its end: a token without a line feed shows nothing and is kept, and the line
/// feed completes the line with all that was kept.
pub proof fn law_line_waits_for_its_end(state: StreamerView, token: Seq<char>)
    requires
        !state.buffer.contains('\n'),
        !token.contains('\n'),
    ensures
        after_token(state, token).0 == (StreamerView { buffer: state.buffer + token, ..state }),
        after_token(state, token).1.len() == 0,
        after_token(state, token + seq!['\n']) == after_line(
            StreamerView { buffer: Seq::empty(), ..state },
            state.buffer + token + seq!['\n'],
        ),
{
    let text = state.buffer + token;
    assert forall|i: int| 0 <= i < text.len() implies text[i] != '\n' by {
        if i < state.buffer.len() {
            assert(state.buffer.contains(state.buffer[i]));
        } else {
            assert(token.contains(token[i - state.buffer.len()]));
        }
    }
    let none = Seq::<char>::empty();
    law_lines_end_with_line_feeds(text, none);
    law_lines_end_with_line_feeds(none, none);
    let line = text + seq!['\n'];
    assert(state.buffer + (token + seq!['\n']) =~= line + none);
    assert(line + none =~= line);
    assert(complete_lines(line) =~= seq![line]);
    assert(unfinished_line(line) =~= none);
    let start = StreamerView { buffer: none, ..state };
    lemma_one_line(start, line);
}

proof fn lemma_blue_and_bold(palette: PaletteView)
    ensures
        style_of(ink_codes(Ink::Bold(Hue::Blue), palette)) == "\u{1b}[1;34m"@,
        !ink_codes(Ink::Bold(Hue::Blue), palette).contains('\u{1b}'),
        ink_codes(Ink::Bold(Hue::Blue), palette).len() > 0,
        ink_codes(Ink::Bold(Hue::Blue), palette)[0] == '1',
{
    reveal_strlit("\u{1b}[");
    reveal_strlit("1;");
    reveal_strlit("34");
    reveal_strlit("m");
    reveal_strlit("\u{1b}[1;34m");
    assert(style_of(ink_codes(Ink::Bold(Hue::Blue), palette)) =~= "\u{1b}[1;34m"@);
}

/// Where colours are on, a heading is blue and bold within the ink of ordinary text: white on a
/// dark terminal, and black on a light one. Inline code is black on its grey, and the text around
/// it in the ink of the line alone.
pub proof fn law_text_has_its_inks(
    palette: PaletteView,
    text: Seq<char>,
    list: Seq<SegmentView>,
    scheme: ColorScheme,
)
    requires
        palette.on,
        !text.contains('\u{1b}'),
    ensures
        body_ink(ColorScheme::Dark) == Ink::Color(Hue::White),
        body_ink(ColorScheme::Light) == Ink::Color(Hue::Black),
        heading_text(text, scheme, palette) == style_of(ink_codes(body_ink(scheme), palette))
            + "\u{1b}[1;34m"@ + text + "\u{1b}[0m"@ + style_of(ink_codes(body_ink(scheme), palette))
            + "\n"@ + "\u{1b}[0m"@,
        segments_text(list.push(SegmentView { code: false, text }), palette) == segments_text(
            list,
            palette,
        ) + text,
        segments_text(list.push(SegmentView { code: true, text }), palette) == segments_text(
            list,
            palette,
        ) + "\u{1b}["@ + ink_codes(Ink::Code, palette) + "m"@ + text + "\u{1b}[0m"@,
        line_text(seq![SegmentView { code: false, text }], scheme, palette) == "\u{1b}["@ + ink_codes(
            body_ink(scheme),
            palette,
        ) + "m"@ + text + "\u{1b}[0m"@,
{
    lemma_blue_and_bold(palette);
    reveal_strlit("\n");
    law_ink_within_ink(text, "\n"@, Ink::Bold(Hue::Blue), body_ink(scheme), palette);
    lemma_no_escape_no_reset(text);
    law_ink_surrounds_text(text, Seq::empty(), Ink::Code, palette);
    law_ink_surrounds_text(text, Seq::empty(), body_ink(scheme), palette);
    let f = |s: SegmentView| segment_text(s, palette);
    let p = SegmentView { code: false, text };
    let q = SegmentView { code: true, text };
    law_texts_add_up(list.map_values(f), Seq::empty(), f(p));
    law_texts_add_up(list.map_values(f), Seq::empty(), f(q));
    assert(list.push(p).map_values(f) =~= list.map_values(f).push(f(p)));
    assert(list.push(q).map_values(f) =~= list.map_values(f).push(f(q)));
    assert(seq![p].map_values(f) =~= seq![f(p)]);
    assert(segments_text(list.push(q), palette) =~= segments_text(list, palette) + "\u{1b}["@
        + ink_codes(Ink::Code, palette) + "m"@ + text + "\u{1b}[0m"@);
}

/// Each output is shown in its own way, whatever it holds: fences in their grey, headings and lines
/// in the inks of text, blocks highlighted, and what is left of an open block in black.
pub proof fn law_outputs_are_shown_in_their_way(
    syntaxes: SyntaxSet,
    themes: ThemeSet,
    scheme: ColorScheme,
    palette: PaletteView,
    text: Seq<char>,
    list: Seq<SegmentView>,
    language: Seq<char>,
)
    ensures
        output_text(syntaxes, themes, scheme, palette, OutputView::Fence(text)) == inked(
            text,
            Ink::Fence,
            palette,
        ),
        output_text(syntaxes, themes, scheme, palette, OutputView::Break) == "\n"@,
        output_text(
            syntaxes,
            themes,
            scheme,
            palette,
            OutputView::Block { language, code: text },
        ) == highlighted_block(syntaxes, themes, language, text),
        output_text(syntaxes, themes, scheme, palette, OutputView::Heading(text)) == inked(
            inked(text, Ink::Bold(Hue::Blue), palette) + "\n"@,
            body_ink(scheme),
            palette,
        ),
        output_text(syntaxes, themes, scheme, palette, OutputView::Line(list)) == inked(
            segments_text(list, palette),
            body_ink(scheme),
            palette,
        ),
        output_text(syntaxes, themes, scheme, palette, OutputView::Tail(text)) == inked(
            text,
            Ink::Color(Hue::Black),
            palette,
        ),
        segments_text(Seq::empty(), palette).len() == 0,
        segments_text(list.push(SegmentView { code: true, text }), palette) == segments_text(
            list,
            palette,
        ) + inked(text, Ink::Code, palette),
        segments_text(list.push(SegmentView { code: false, text }), palette) == segments_text(
            list,
            palette,
        ) + text,
{
    let f = |s: SegmentView| segment_text(s, palette);
    let p = SegmentView { code: false, text };
    let q = SegmentView { code: true, text };
    law_texts_add_up(list.map_values(f), Seq::empty(), f(p));
    law_texts_add_up(list.map_values(f), Seq::empty(), f(q));
    assert(list.push(p).map_values(f) =~= list.map_values(f).push(f(p)));
    assert(list.push(q).map_values(f) =~= list.map_values(f).push(f(q)));
}

/// The end of the stream leaves whether a code block is open, and its language, as they are.
pub proof fn law_end_closes_no_block(state: StreamerView)
    ensures
        after_end(state).0.in_code_block == state.in_code_block,
        after_end(state).0.code_language == state.code_language,
        state.in_code_block && state.code_buffer.len() == 0 && state.buffer.len() == 0 ==> after_end(
            state,
        ).1.len() == 0,
{
}

/// Outputs and segments are read as they are: each in its place and with its whole text.
pub proof fn law_outputs_are_read_as_they_are(
    list: Seq<Output>,
    parts: Seq<Segment>,
    i: int,
    text: String,
    code: String,
    line: Vec<Segment>,
)
    ensures
        outputs(list).len() == list.len(),
        0 <= i < list.len() ==> outputs(list)[i] == list[i]@,
        segments(parts).len() == parts.len(),
        0 <= i < parts.len() ==> segments(parts)[i].code == parts[i].code && segments(parts)[i].text
            == parts[i].text@,
        Output::Fence(text)@ == OutputView::Fence(text@),
        Output::Break@ == OutputView::Break,
        (Output::Block { language: text, code })@ == (OutputView::Block {
            language: text@,
            code: code@,
        }),
        Output::Heading(text)@ == OutputView::Heading(text@),
        Output::Line(line)@ == OutputView::Line(segments(line@)),
        Output::Tail(text)@ == OutputView::Tail(text@),
{
}

/// What stays the same while tokens arrive is the scheme, the syntaxes and the themes.
pub proof fn law_setting_stays(a: MarkdownStreamer, b: MarkdownStreamer)
    requires
        a.same_setting(b),
    ensures
        a.scheme() == b.scheme(),
        a.syntaxes() == b.syntaxes(),
        a.themes() == b.themes(),
{
}

} // verus!
