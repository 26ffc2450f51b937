//! Lines for the terminal: text in inks, with figures still to be written out.
use crate::paint::{Hue, Ink};
use vstd::prelude::*;

verus! {

/// Where a line goes.
#[derive(Clone, Copy, PartialEq, Eq, Structural, Debug)]
pub enum Stream {
    Stdout,
    Stderr,
}

/// A single-precision number by its IEEE 754 bits.
#[derive(Clone, Copy, PartialEq, Eq, Structural, Debug)]
pub struct Single {
    pub bits: u32,
}

/// A double-precision number by its IEEE 754 bits.
#[derive(Clone, Copy, PartialEq, Eq, Structural, Debug)]
pub struct Double {
    pub bits: u64,
}

/// A length of time.
#[derive(Clone, Copy, PartialEq, Eq, Structural, Debug)]
pub struct Timing {
    pub seconds: u64,
    pub nanos: u32,
}

/// A number that is written out where the line is printed.
#[derive(Clone, Copy, PartialEq, Eq, Structural, Debug)]
pub enum Figure {
    /// In the shortest form.
    Shortest(Single),
    /// With the given number of decimal places.
    Single(Single, u8),
    /// With the given number of decimal places.
    Double(Double, u8),
    /// In seconds, with two decimal places.
    Seconds(Timing),
    /// `count` in percent of `limit`, with one decimal place.
    Percent { count: usize, limit: usize },
    /// Watt-seconds as watt-hours, with two decimal places.
    WattHours(Single),
}

/// A part of a line: text, or a figure.
#[derive(Debug, PartialEq, Eq)]
pub enum Piece {
    Text(String),
    Figure(Figure),
}

/// What a part of a line is.
pub enum PieceView {
    Text(Seq<char>),
    Figure(Figure),
}

impl View for Piece {
    type V = PieceView;

    open spec fn view(&self) -> PieceView {
        match self {
            Piece::Text(t) => PieceView::Text(t@),
            Piece::Figure(f) => PieceView::Figure(*f),
        }
    }
}

/// Parts of a line in one ink.
#[derive(Debug, PartialEq, Eq)]
pub struct Span {
    pub ink: Ink,
    pub pieces: Vec<Piece>,
}

/// What parts in one ink are.
pub struct SpanView {
    pub ink: Ink,
    pub pieces: Seq<PieceView>,
}

impl View for Span {
    type V = SpanView;

    open spec fn view(&self) -> SpanView {
        SpanView { ink: self.ink, pieces: pieces(self.pieces@) }
    }
}

/// A line to print.
#[derive(Debug, PartialEq, Eq)]
pub struct Line {
    pub stream: Stream,
    pub spans: Vec<Span>,
}

/// What a line to print is.
pub struct LineView {
    pub stream: Stream,
    pub spans: Seq<SpanView>,
}

impl View for Line {
    type V = LineView;

    open spec fn view(&self) -> LineView {
        LineView { stream: self.stream, spans: spans(self.spans@) }
    }
}

/// What each part of a list is.
pub open spec fn pieces(list: Seq<Piece>) -> Seq<PieceView> {
    list.map_values(|p: Piece| p@)
}

/// What each span of a list is.
pub open spec fn spans(list: Seq<Span>) -> Seq<SpanView> {
    list.map_values(|s: Span| s@)
}

/// What each line of a list is.
pub open spec fn lines_of(list: Seq<Line>) -> Seq<LineView> {
    list.map_values(|l: Line| l@)
}

/// Text in an ink.
pub open spec fn text_in(ink: Ink, text: Seq<char>) -> SpanView {
    SpanView { ink, pieces: seq![PieceView::Text(text)] }
}

/// Text as it is.
pub open spec fn plain_text(text: Seq<char>) -> SpanView {
    text_in(Ink::Plain, text)
}

/// Text in a colour.
pub open spec fn hued_text(hue: Hue, text: Seq<char>) -> SpanView {
    text_in(Ink::Color(hue), text)
}

/// A figure in an ink.
pub open spec fn figure_in(ink: Ink, figure: Figure) -> SpanView {
    SpanView { ink, pieces: seq![PieceView::Figure(figure)] }
}

/// A figure between two texts, all in one ink.
pub open spec fn framed_in(ink: Ink, before: Seq<char>, figure: Figure, after: Seq<char>) -> SpanView {
    SpanView {
        ink,
        pieces: seq![PieceView::Text(before), PieceView::Figure(figure), PieceView::Text(after)],
    }
}

/// A line of one span.
pub open spec fn line_of(stream: Stream, a: SpanView) -> LineView {
    LineView { stream, spans: seq![a] }
}

/// A line of two spans.
pub open spec fn line_of_two(stream: Stream, a: SpanView, b: SpanView) -> LineView {
    LineView { stream, spans: seq![a, b] }
}

/// A line of three spans.
pub open spec fn line_of_three(stream: Stream, a: SpanView, b: SpanView, c: SpanView) -> LineView {
    LineView { stream, spans: seq![a, b, c] }
}

/// A line of plain text for the standard output.
pub open spec fn said(text: Seq<char>) -> LineView {
    line_of(Stream::Stdout, plain_text(text))
}

/// A plain line of several parts for the standard output.
pub open spec fn written(list: Seq<PieceView>) -> LineView {
    line_of(Stream::Stdout, SpanView { ink: Ink::Plain, pieces: list })
}

/// A heading: text in a colour and bold, for the standard output.
pub open spec fn headed(hue: Hue, text: Seq<char>) -> LineView {
    line_of(Stream::Stdout, text_in(Ink::Bold(hue), text))
}

/// Text in an ink.
pub fn ink_text(ink: Ink, text: &str) -> (r: Span)
    ensures
        r@ == text_in(ink, text@),
{
    let r = Span { ink, pieces: vec![Piece::Text(text.to_owned())] };
    assert(r@.pieces =~= seq![PieceView::Text(text@)]);
    r
}

/// Text as it is.
pub fn plain(text: &str) -> (r: Span)
    ensures
        r@ == plain_text(text@),
{
    ink_text(Ink::Plain, text)
}

/// Text in a colour.
pub fn hued(hue: Hue, text: &str) -> (r: Span)
    ensures
        r@ == hued_text(hue, text@),
{
    ink_text(Ink::Color(hue), text)
}

/// A figure in an ink.
pub fn ink_figure(ink: Ink, figure: Figure) -> (r: Span)
    ensures
        r@ == figure_in(ink, figure),
{
    let r = Span { ink, pieces: vec![Piece::Figure(figure)] };
    assert(r@.pieces =~= seq![PieceView::Figure(figure)]);
    r
}

/// A figure between two texts, all in one ink.
pub fn framed(ink: Ink, before: &str, figure: Figure, after: &str) -> (r: Span)
    ensures
        r@ == framed_in(ink, before@, figure, after@),
{
    let r = Span {
        ink,
        pieces: vec![
            Piece::Text(before.to_owned()),
            Piece::Figure(figure),
            Piece::Text(after.to_owned()),
        ],
    };
    assert(r@.pieces =~= framed_in(ink, before@, figure, after@).pieces);
    r
}

/// A line of one span.
pub fn one(stream: Stream, a: Span) -> (r: Line)
    ensures
        r@ == line_of(stream, a@),
{
    let r = Line { stream, spans: vec![a] };
    assert(r@.spans =~= seq![a@]);
    r
}

/// A line of two spans.
pub fn two(stream: Stream, a: Span, b: Span) -> (r: Line)
    ensures
        r@ == line_of_two(stream, a@, b@),
{
    let r = Line { stream, spans: vec![a, b] };
    assert(r@.spans =~= seq![a@, b@]);
    r
}

/// A line of three spans.
pub fn three(stream: Stream, a: Span, b: Span, c: Span) -> (r: Line)
    ensures
        r@ == line_of_three(stream, a@, b@, c@),
{
    let r = Line { stream, spans: vec![a, b, c] };
    assert(r@.spans =~= seq![a@, b@, c@]);
    r
}

/// A line of plain text for the standard output.
pub fn say(text: &str) -> (r: Line)
    ensures
        r@ == said(text@),
{
    one(Stream::Stdout, plain(text))
}

/// A plain line of several parts for the standard output.
pub fn write_parts(list: Vec<Piece>) -> (r: Line)
    ensures
        r@ == written(pieces(list@)),
{
    one(Stream::Stdout, Span { ink: Ink::Plain, pieces: list })
}

/// A heading: text in a colour and bold, for the standard output.
pub fn head(hue: Hue, text: &str) -> (r: Line)
    ensures
        r@ == headed(hue, text@),
{
    one(Stream::Stdout, ink_text(Ink::Bold(hue), text))
}

/// Adds lines behind others.
pub fn append_lines(list: &mut Vec<Line>, more: Vec<Line>)
    ensures
        lines_of(final(list)@) == lines_of(old(list)@) + lines_of(more@),
{
    let mut more = more;
    let ghost added = more@;
    list.append(&mut more);
    assert(lines_of(list@) =~= lines_of(old(list)@) + lines_of(added));
}

/// What a part of a line says, with figures written out by `write`.
pub open spec fn piece_text(piece: PieceView, write: spec_fn(Figure) -> Seq<char>) -> Seq<char> {
    match piece {
        PieceView::Text(t) => t,
        PieceView::Figure(f) => write(f),
    }
}

/// What the parts of a line from the given one on say.
pub open spec fn pieces_from(
    list: Seq<PieceView>,
    from: nat,
    write: spec_fn(Figure) -> Seq<char>,
) -> Seq<char>
    decreases list.len() - from,
{
    if from >= list.len() {
        Seq::empty()
    } else {
        piece_text(list[from as int], write) + pieces_from(list, from + 1, write)
    }
}

/// What the spans of a line from the given one on say.
pub open spec fn spans_from(
    list: Seq<SpanView>,
    from: nat,
    write: spec_fn(Figure) -> Seq<char>,
) -> Seq<char>
    decreases list.len() - from,
{
    if from >= list.len() {
        Seq::empty()
    } else {
        pieces_from(list[from as int].pieces, 0, write) + spans_from(list, from + 1, write)
    }
}

/// What a line says, whatever its inks, with figures written out by `write`.
pub open spec fn spoken(line: LineView, write: spec_fn(Figure) -> Seq<char>) -> Seq<char> {
    spans_from(line.spans, 0, write)
}

/// A text or a figure in an ink says itself, and nothing else.
pub proof fn law_spans_say_what_they_hold(
    ink: Ink,
    text: Seq<char>,
    figure: Figure,
    after: Seq<char>,
    write: spec_fn(Figure) -> Seq<char>,
)
    ensures
        pieces_from(text_in(ink, text).pieces, 0, write) == text,
        pieces_from(figure_in(ink, figure).pieces, 0, write) == write(figure),
        pieces_from(framed_in(ink, text, figure, after).pieces, 0, write) == text + write(figure)
            + after,
        text_in(ink, text).ink == ink,
        figure_in(ink, figure).ink == ink,
        framed_in(ink, text, figure, after).ink == ink,
{
    reveal_with_fuel(pieces_from, 5);
    assert(pieces_from(text_in(ink, text).pieces, 0, write) =~= text);
    assert(pieces_from(figure_in(ink, figure).pieces, 0, write) =~= write(figure));
    assert(pieces_from(framed_in(ink, text, figure, after).pieces, 0, write) =~= text + write(
        figure,
    ) + after);
}

/// A line says what its spans say, one after the other.
pub proof fn law_lines_say_their_spans(
    stream: Stream,
    a: SpanView,
    b: SpanView,
    c: SpanView,
    write: spec_fn(Figure) -> Seq<char>,
)
    ensures
        spoken(line_of(stream, a), write) == pieces_from(a.pieces, 0, write),
        spoken(line_of_two(stream, a, b), write) == pieces_from(a.pieces, 0, write) + pieces_from(
            b.pieces,
            0,
            write,
        ),
        spoken(line_of_three(stream, a, b, c), write) == pieces_from(a.pieces, 0, write)
            + pieces_from(b.pieces, 0, write) + pieces_from(c.pieces, 0, write),
        line_of(stream, a).stream == stream,
        line_of_two(stream, a, b).stream == stream,
        line_of_three(stream, a, b, c).stream == stream,
{
    reveal_with_fuel(spans_from, 5);
    assert(spoken(line_of(stream, a), write) =~= pieces_from(a.pieces, 0, write));
    assert(spoken(line_of_two(stream, a, b), write) =~= pieces_from(a.pieces, 0, write)
        + pieces_from(b.pieces, 0, write));
    assert(spoken(line_of_three(stream, a, b, c), write) =~= pieces_from(a.pieces, 0, write)
        + pieces_from(b.pieces, 0, write) + pieces_from(c.pieces, 0, write));
}

/// What is said, and what is a heading, goes to the standard output whole.
pub proof fn law_text_is_said_whole(
    stream: Stream,
    ink: Ink,
    hue: Hue,
    text: Seq<char>,
    write: spec_fn(Figure) -> Seq<char>,
)
    ensures
        spoken(said(text), write) == text,
        said(text).stream == Stream::Stdout,
        spoken(headed(hue, text), write) == text,
        headed(hue, text).stream == Stream::Stdout,
        spoken(line_of(stream, text_in(ink, text)), write) == text,
        spoken(line_of(stream, hued_text(hue, text)), write) == text,
        spoken(line_of(stream, plain_text(text)), write) == text,
{
    let figure = Figure::Percent { count: 0, limit: 0 };
    let p = text_in(ink, text);
    let q = hued_text(hue, text);
    let r = plain_text(text);
    law_spans_say_what_they_hold(ink, text, figure, text, write);
    law_spans_say_what_they_hold(Ink::Color(hue), text, figure, text, write);
    law_spans_say_what_they_hold(Ink::Bold(hue), text, figure, text, write);
    law_spans_say_what_they_hold(Ink::Plain, text, figure, text, write);
    law_lines_say_their_spans(stream, p, p, p, write);
    law_lines_say_their_spans(stream, q, q, q, write);
    law_lines_say_their_spans(stream, r, r, r, write);
    law_lines_say_their_spans(Stream::Stdout, r, r, r, write);
    let h = text_in(Ink::Bold(hue), text);
    law_lines_say_their_spans(Stream::Stdout, h, h, h, write);
}

/// The parts of a line say what they say, one after the other.
pub proof fn law_pieces_join(
    a: Seq<PieceView>,
    b: Seq<PieceView>,
    from: nat,
    write: spec_fn(Figure) -> Seq<char>,
)
    requires
        from <= a.len(),
    ensures
        pieces_from(a + b, from, write) == pieces_from(a, from, write) + pieces_from(b, 0, write),
    decreases a.len() - from,
{
    if from < a.len() {
        law_pieces_join(a, b, from + 1, write);
        assert((a + b)[from as int] == a[from as int]);
        assert(pieces_from(a + b, from, write) =~= pieces_from(a, from, write) + pieces_from(
            b,
            0,
            write,
        ));
    } else {
        lemma_pieces_behind(a, b, from, write);
        assert(pieces_from(a + b, from, write) =~= pieces_from(a, from, write) + pieces_from(
            b,
            0,
            write,
        ));
    }
}

proof fn lemma_pieces_behind(
    a: Seq<PieceView>,
    b: Seq<PieceView>,
    from: nat,
    write: spec_fn(Figure) -> Seq<char>,
)
    requires
        a.len() <= from,
    ensures
        pieces_from(a + b, from, write) == pieces_from(b, (from - a.len()) as nat, write),
    decreases a.len() + b.len() - from,
{
    if from < a.len() + b.len() {
        lemma_pieces_behind(a, b, from + 1, write);
        assert((a + b)[from as int] == b[from - a.len()]);
    }
}

/// Lines are read as they are: each in its place, with its spans and their parts.
pub proof fn law_lines_are_read_as_they_are(
    list: Seq<Line>,
    i: int,
    j: int,
    k: int,
    hue: Hue,
    text: Seq<char>,
)
    ensures
        lines_of(list).len() == list.len(),
        0 <= i < list.len() ==> {
            let line = lines_of(list)[i];
            &&& line.stream == list[i].stream
            &&& line.spans.len() == list[i].spans@.len()
            &&& 0 <= j < line.spans.len() ==> {
                let span = list[i].spans@[j];
                &&& line.spans[j].ink == span.ink
                &&& line.spans[j].pieces.len() == span.pieces@.len()
                &&& 0 <= k < span.pieces@.len() ==> line.spans[j].pieces[k] == (
                match span.pieces@[k] {
                    Piece::Text(t) => PieceView::Text(t@),
                    Piece::Figure(f) => PieceView::Figure(f),
                })
            }
        },
        said(text).spans[0].ink == Ink::Plain,
        headed(hue, text).spans[0].ink == Ink::Bold(hue),
        hued_text(hue, text).ink == Ink::Color(hue),
        plain_text(text).ink == Ink::Plain,
{
}

} // verus!
