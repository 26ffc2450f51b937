//! A reply that arrives as a stream of events.
use crate::benchmark::PromptMetrics;
use crate::digest::fingerprint;
#[allow(unused_imports)]
use crate::digest::fingerprint_of;
use crate::json::{parse_json, Json};
#[allow(unused_imports)]
use crate::json::{json_document, JsonModel, JsonNumber};
use crate::markdown::{ColorScheme, MarkdownStreamer, Output};
#[allow(unused_imports)]
use crate::markdown::{
    after_end, after_token, law_tokens_join, output_text, outputs, OutputView, StreamerView,
};
use crate::output::{one, say, Double, Figure, Line, Piece, Span, Stream, Timing};
#[allow(unused_imports)]
use crate::output::{
    law_lines_say_their_spans, law_pieces_join, line_of, lines_of, pieces, pieces_from, said, spoken, LineView,
    PieceView, SpanView,
};
use crate::paint::{Ink, Palette};
use crate::prompt::silence_failure;
#[allow(unused_imports)]
use crate::prompt::silence_lines;
use crate::report::show_tokens;
#[allow(unused_imports)]
use crate::report::token_text;
use crate::session::{count_bytes, Message};
#[allow(unused_imports)]
use crate::session::{byte_count, messages_of, MessageView};
use crate::text::{concat, lines, read_lossy, same_text, strip_prefix};
#[allow(unused_imports)]
use crate::text::{
    concatenated, decimal, law_texts_add_up, lemma_text_lines_of_concat, lossy_text, text_lines,
    texts,
};
use syntect::highlighting::ThemeSet;
use syntect::parsing::SyntaxSet;
#[allow(unused_imports)]
use vstd::utf8::{decode_utf8, encode_utf8, valid_utf8};
use vstd::prelude::*;

verus! {

/// Something to do while a reply arrives.
#[derive(Debug, PartialEq, Eq)]
pub enum ReplyAction {
    /// The first token is there.
    FirstToken,
    /// Something is to be shown.
    Show(Output),
}

/// What there is to do while a reply arrives.
pub enum ReplyActionView {
    FirstToken,
    Show(OutputView),
}

impl View for ReplyAction {
    type V = ReplyActionView;

    open spec fn view(&self) -> ReplyActionView {
        match self {
            ReplyAction::FirstToken => ReplyActionView::FirstToken,
            ReplyAction::Show(output) => ReplyActionView::Show(output@),
        }
    }
}

/// What each action of a list is.
pub open spec fn reply_actions(list: Seq<ReplyAction>) -> Seq<ReplyActionView> {
    list.map_values(|a: ReplyAction| a@)
}

/// What is known of a reply that has arrived so far.
pub struct ReplyView {
    pub tokens: Seq<Seq<char>>,
    /// Whether any event has arrived.
    pub received_any_data: bool,
    /// The number of tokens that the endpoint reported.
    pub actual_token_count: Option<usize>,
    pub streamer: StreamerView,
}

/// A reply of which nothing has arrived.
pub open spec fn awaited() -> ReplyView {
    ReplyView {
        tokens: Seq::empty(),
        received_any_data: false,
        actual_token_count: None,
        streamer: StreamerView {
            buffer: Seq::empty(),
            in_code_block: false,
            code_language: Seq::empty(),
            code_buffer: Seq::empty(),
        },
    }
}

/// The number of tokens that a document reports.
pub open spec fn reported_total(doc: JsonModel) -> Option<u64> {
    match doc.member("usage"@) {
        Some(usage) => match usage.member("total_tokens"@) {
            Some(total) => total.unsigned(),
            None => None,
        },
        None => None,
    }
}

/// The token that a document brings: the content of the first choice's delta.
pub open spec fn brought_token(doc: JsonModel) -> Option<Seq<char>> {
    match doc.member("choices"@) {
        Some(choices) => match choices.item(0) {
            Some(choice) => match choice.member("delta"@) {
                Some(delta) => match delta.member("content"@) {
                    Some(content) => content.text(),
                    None => None,
                },
                None => None,
            },
            None => None,
        },
        None => None,
    }
}

/// The outputs as things to do.
pub open spec fn shown(list: Seq<OutputView>) -> Seq<ReplyActionView> {
    list.map_values(|o: OutputView| ReplyActionView::Show(o))
}

/// What a token changes, and what there is to do for it.
pub open spec fn after_brought(state: ReplyView, token: Seq<char>) -> (
    ReplyView,
    Seq<ReplyActionView>,
) {
    let (streamer, list) = after_token(state.streamer, token);
    (
        ReplyView { tokens: state.tokens.push(token), streamer, ..state },
        if state.tokens.len() == 0 {
            seq![ReplyActionView::FirstToken] + shown(list)
        } else {
            shown(list)
        },
    )
}

/// What a document changes, and what there is to do for it.
pub open spec fn after_document(state: ReplyView, doc: JsonModel) -> (
    ReplyView,
    Seq<ReplyActionView>,
) {
    let counted = match reported_total(doc) {
        Some(total) => ReplyView { actual_token_count: Some(total as usize), ..state },
        None => state,
    };
    match brought_token(doc) {
        Some(token) => after_brought(counted, token),
        None => (counted, Seq::empty()),
    }
}

/// What stands before the content of an event.
pub open spec fn event_prefix() -> Seq<char> {
    "data: "@
}

/// A line that says that the stream is done.
pub open spec fn is_done(line: Seq<char>) -> bool {
    event_prefix().is_prefix_of(line) && line.skip(event_prefix().len() as int) == "[DONE]"@
}

/// What a line changes, and what there is to do for it. A line that holds no event is passed
/// over, and so is the content of an event that is no document.
pub open spec fn after_event(state: ReplyView, line: Seq<char>) -> (
    ReplyView,
    Seq<ReplyActionView>,
) {
    if !event_prefix().is_prefix_of(line) {
        (state, Seq::empty())
    } else {
        let heard = ReplyView { received_any_data: true, ..state };
        if is_done(line) {
            (heard, Seq::empty())
        } else {
            match json_document(line.skip(event_prefix().len() as int)) {
                Some(doc) => after_document(heard, doc),
                None => (heard, Seq::empty()),
            }
        }
    }
}

/// What lines change, one after the other, and what there is to do for them. What follows the
/// line that says that the stream is done is passed over.
pub open spec fn after_events(state: ReplyView, list: Seq<Seq<char>>) -> (
    ReplyView,
    Seq<ReplyActionView>,
)
    decreases list.len(),
{
    if list.len() == 0 {
        (state, Seq::empty())
    } else {
        let (next, first) = after_event(state, list[0]);
        if is_done(list[0]) {
            (next, first)
        } else {
            let (end, rest) = after_events(next, list.skip(1));
            (end, first + rest)
        }
    }
}

/// A reply that arrives.
pub struct Reply {
    tokens: Vec<String>,
    received_any_data: bool,
    actual_token_count: Option<usize>,
    streamer: MarkdownStreamer,
}

impl View for Reply {
    type V = ReplyView;

    closed spec fn view(&self) -> ReplyView {
        ReplyView {
            tokens: texts(self.tokens@),
            received_any_data: self.received_any_data,
            actual_token_count: self.actual_token_count,
            streamer: self.streamer@,
        }
    }
}

/// The number of tokens that a document reports.
fn total_in(doc: &Json) -> (r: Option<u64>)
    ensures
        r == reported_total(doc.model()),
{
    match doc.get("usage") {
        Some(usage) => match usage.get("total_tokens") {
            Some(total) => total.as_u64(),
            None => None,
        },
        None => None,
    }
}

/// The token that a document brings.
fn token_in(doc: &Json) -> (r: Option<&str>)
    ensures
        r is Some <==> brought_token(doc.model()) is Some,
        r matches Some(t) ==> brought_token(doc.model()) == Some(t@),
{
    match doc.get("choices") {
        Some(choices) => match choices.at(0) {
            Some(choice) => match choice.get("delta") {
                Some(delta) => match delta.get("content") {
                    Some(content) => content.as_str(),
                    None => None,
                },
                None => None,
            },
            None => None,
        },
        None => None,
    }
}

/// Adds outputs to what there is to do.
fn push_shown(list: &mut Vec<ReplyAction>, more: Vec<Output>)
    ensures
        reply_actions(final(list)@) == reply_actions(old(list)@) + shown(outputs(more@)),
{
    let ghost all = more@;
    let ghost front = reply_actions(list@);
    for output in it: more
        invariant
            it.seq() == all,
            reply_actions(list@) == front + shown(outputs(all.take(it.index() as int))),
    {
        let ghost before = reply_actions(list@);
        list.push(ReplyAction::Show(output));
        proof {
            let k = it.index() as int;
            assert(reply_actions(list@) =~= before.push(ReplyActionView::Show(output@)));
            assert(shown(outputs(all.take(k + 1))) =~= shown(outputs(all.take(k))).push(
                ReplyActionView::Show(output@),
            ));
            assert(before.push(ReplyActionView::Show(output@)) =~= front + shown(
                outputs(all.take(k + 1)),
            ));
        }
    }
    assert(all.take(all.len() as int) =~= all);
}

impl Reply {
    /// The syntaxes for code blocks.
    pub closed spec fn syntaxes(self) -> SyntaxSet {
        self.streamer.syntaxes()
    }

    /// The themes for code blocks.
    pub closed spec fn themes(self) -> ThemeSet {
        self.streamer.themes()
    }

    /// The scheme of the terminal.
    pub closed spec fn scheme(self) -> ColorScheme {
        self.streamer.scheme()
    }

    /// What is to be shown can be.
    pub closed spec fn well_formed(self) -> bool {
        self.streamer.well_formed()
    }

    /// Everything that stays the same while the reply arrives.
    pub open spec fn same_setting(self, other: Reply) -> bool {
        &&& self.syntaxes() == other.syntaxes()
        &&& self.themes() == other.themes()
        &&& self.scheme() == other.scheme()
    }

    /// A reply of which nothing has arrived.
    pub fn new(color_scheme: ColorScheme) -> (r: Reply)
        ensures
            r.well_formed(),
            r.scheme() == color_scheme,
            r@ == awaited(),
    {
        let r = Reply {
            tokens: Vec::new(),
            received_any_data: false,
            actual_token_count: None,
            streamer: MarkdownStreamer::new(color_scheme),
        };
        assert(r@.tokens =~= Seq::empty());
        r
    }

    /// Takes a document and returns what there is to do for it.
    pub fn take_document(&mut self, doc: &Json) -> (r: Vec<ReplyAction>)
        requires
            old(self).well_formed(),
        ensures
            final(self).well_formed(),
            final(self).same_setting(*old(self)),
            final(self)@ == after_document(old(self)@, doc.model()).0,
            reply_actions(r@) == after_document(old(self)@, doc.model()).1,
    {
        let mut r: Vec<ReplyAction> = Vec::new();
        if let Some(total) = total_in(doc) {
            self.actual_token_count = Some(total as usize);
        }
        if let Some(token) = token_in(doc) {
            let ghost before = self@.tokens;
            if self.tokens.len() == 0 {
                r.push(ReplyAction::FirstToken);
            }
            let ghost first = reply_actions(r@);
            assert(first =~= if before.len() == 0 {
                seq![ReplyActionView::FirstToken]
            } else {
                Seq::empty()
            });
            let list = self.streamer.process_token(token);
            push_shown(&mut r, list);
            self.tokens.push(token.to_owned());
            assert(self@.tokens =~= before.push(token@));
            assert(reply_actions(r@) =~= after_document(old(self)@, doc.model()).1);
        } else {
            assert(reply_actions(r@) =~= Seq::empty());
        }
        r
    }

    /// Takes a line and returns what there is to do for it, and whether it says that the stream
    /// is done.
    pub fn take_line(&mut self, line: &str) -> (r: (Vec<ReplyAction>, bool))
        requires
            old(self).well_formed(),
        ensures
            final(self).well_formed(),
            final(self).same_setting(*old(self)),
            final(self)@ == after_event(old(self)@, line@).0,
            reply_actions(r.0@) == after_event(old(self)@, line@).1,
            r.1 == is_done(line@),
    {
        let none: Vec<ReplyAction> = Vec::new();
        assert(reply_actions(none@) =~= Seq::empty());
        match strip_prefix(line, "data: ") {
            None => (none, false),
            Some(payload) => {
                self.received_any_data = true;
                if same_text(payload.as_str(), "[DONE]") {
                    return (none, true);
                }
                match parse_json(payload.as_str()) {
                    Some(doc) => (self.take_document(&doc), false),
                    None => (none, false),
                }
            },
        }
    }

    /// Takes a piece of text and returns what there is to do for its lines.
    pub fn take_text(&mut self, text: &str) -> (r: Vec<ReplyAction>)
        requires
            old(self).well_formed(),
        ensures
            final(self).well_formed(),
            final(self).same_setting(*old(self)),
            final(self)@ == after_events(old(self)@, text_lines(text@)).0,
            reply_actions(r@) == after_events(old(self)@, text_lines(text@)).1,
    {
        let list = lines(text);
        let ghost all = text_lines(text@);
        let ghost start = self@;
        let mut r: Vec<ReplyAction> = Vec::new();
        let mut i: usize = 0;
        assert(all.skip(0) =~= all);
        assert(reply_actions(r@) =~= Seq::empty());
        assert(after_events(start, all).1 =~= reply_actions(r@) + after_events(start, all).1);
        while i < list.len()
            invariant
                i <= list@.len(),
                texts(list@) == all,
                list@.len() == all.len(),
                self.well_formed(),
                self.same_setting(*old(self)),
                after_events(start, all).0 == after_events(self@, all.skip(i as int)).0,
                after_events(start, all).1 == reply_actions(r@) + after_events(
                    self@,
                    all.skip(i as int),
                ).1,
                start == old(self)@,
                all == text_lines(text@),
            decreases list@.len() - i,
        {
            let ghost before = reply_actions(r@);
            let ghost state = self@;
            let (mut more, done) = self.take_line(list[i].as_str());
            let ghost added = reply_actions(more@);
            r.append(&mut more);
            proof {
                assert(list@[i as int]@ == all[i as int]);
                assert(all.skip(i as int)[0] == all[i as int]);
                assert(all.skip(i as int).skip(1) =~= all.skip(i + 1));
                assert(reply_actions(r@) =~= before + added);
                let rest = after_events(self@, all.skip(i + 1)).1;
                assert(before + (added + rest) =~= (before + added) + rest);
            }
            if done {
                return r;
            }
            i = i + 1;
        }
        assert(all.skip(i as int) =~= Seq::empty());
        assert(reply_actions(r@) + Seq::<ReplyActionView>::empty() =~= reply_actions(r@));
        r
    }

    /// Takes a chunk of bytes as it came and returns what there is to do for its lines.
    pub fn take_chunk(&mut self, chunk: &[u8]) -> (r: Vec<ReplyAction>)
        requires
            old(self).well_formed(),
        ensures
            final(self).well_formed(),
            final(self).same_setting(*old(self)),
            final(self)@ == after_events(old(self)@, text_lines(lossy_text(chunk@))).0,
            reply_actions(r@) == after_events(old(self)@, text_lines(lossy_text(chunk@))).1,
            valid_utf8(chunk@) ==> lossy_text(chunk@) == decode_utf8(chunk@),
    {
        let text = read_lossy(chunk);
        self.take_text(text.as_str())
    }

    /// Takes the end of the stream and returns what is still to be shown.
    pub fn end(&mut self) -> (r: Vec<Output>)
        requires
            old(self).well_formed(),
        ensures
            final(self).well_formed(),
            final(self).same_setting(*old(self)),
            final(self)@ == (ReplyView { streamer: after_end(old(self)@.streamer).0, ..old(self)@ }),
            outputs(r@) == after_end(old(self)@.streamer).1,
    {
        self.streamer.flush()
    }

    /// An output as a terminal shows it.
    pub fn render(&self, output: &Output, palette: &Palette) -> (r: String)
        requires
            self.well_formed(),
        ensures
            r@ == output_text(
                self.syntaxes(),
                self.themes(),
                self.scheme(),
                palette@,
                output@,
            ),
    {
        self.streamer.render(output, palette)
    }

    /// The text of the reply as far as it has arrived.
    pub fn text(&self) -> (r: String)
        ensures
            r@ == concatenated(self@.tokens),
    {
        let ghost all = self@.tokens;
        let mut r = String::new();
        let mut i: usize = 0;
        while i < self.tokens.len()
            invariant
                i <= self.tokens@.len(),
                all == texts(self.tokens@),
                r@ == concatenated(all.take(i as int)),
            decreases self.tokens@.len() - i,
        {
            assert(all.take(i + 1).drop_last() =~= all.take(i as int));
            assert(all[i as int] == self.tokens@[i as int]@);
            r.append(self.tokens[i].as_str());
            i = i + 1;
        }
        assert(all.take(i as int) =~= all);
        r
    }

    /// Whether anything has arrived.
    pub fn heard(&self) -> (r: bool)
        ensures
            r == was_heard(self@),
    {
        self.received_any_data || !self.text().as_str().is_empty()
    }

    /// Whether a token has come.
    pub fn has_tokens(&self) -> (r: bool)
        ensures
            r == (self@.tokens.len() > 0),
    {
        self.tokens.len() > 0
    }

    /// The number of tokens: as the endpoint reported it, or as they were counted.
    pub fn token_count(&self) -> (r: usize)
        ensures
            r == token_count_of(self@),
    {
        match self.actual_token_count {
            Some(n) => n,
            None => self.tokens.len(),
        }
    }

    /// Ends the turn. A reply of which nothing was heard is a failure, with what is said of it
    /// and the error that the prompt ends with. Any other is taken into the conversation; what
    /// is said of it comes back, with what was measured of the prompt where a token came, and
    /// the number of tokens that the endpoint reported. `first_token` is the time to the first
    /// token, and `rate` the number of tokens per second where any time passed after it.
    pub fn finish(
        &self,
        url: &str,
        first_token: Option<Timing>,
        total_time: Timing,
        rate: Option<Double>,
        messages: &mut Vec<Message>,
    ) -> (r: Result<(Vec<Line>, Option<PromptMetrics>, Option<usize>), (Vec<Line>, String)>)
        requires
            self@.tokens.len() > 0 ==> first_token is Some && old(messages)@.len() > 0,
        ensures
            r is Ok <==> was_heard(self@),
            r matches Err(failure) ==> {
                &&& *final(messages) == *old(messages)
                &&& lines_of(failure.0@) == silence_lines(url@)
                &&& failure.1@ == "No response data received"@
            },
            r matches Ok(turn) ==> {
                let ttft = ttft_of(self@, first_token);
                &&& messages_of(final(messages)@) == messages_of(old(messages)@).push(
                    assistant_message(concatenated(self@.tokens)),
                )
                &&& lines_of(turn.0@) == seq![
                    said(""@),
                    stats_line(self@, ttft, total_time, rate),
                ]
                &&& turn.1 is Some <==> self@.tokens.len() > 0
                &&& turn.1 matches Some(m) ==> are_metrics_of(
                    m,
                    self@,
                    old(messages)@.last().content@,
                    first_token->0,
                    total_time,
                    rate,
                )
                &&& turn.2 == self@.actual_token_count
            },
    {
        if !self.heard() {
            return Err(silence_failure(url));
        }
        let reply = self.text();
        let tokens = self.token_count();
        let tokens_actual = self.actual_token_count.is_some();
        let ttft = if self.tokens.len() > 0 {
            first_token
        } else {
            None
        };
        let speed = match rate {
            Some(n) => if ttft.is_some() && tokens > 0 {
                Some(n)
            } else {
                None
            },
            None => None,
        };
        let list: Vec<Line> = vec![
            say(""),
            show_stats(ttft, total_time, tokens, tokens_actual, speed),
        ];
        assert(lines_of(list@) =~= seq![said(""@), stats_line(self@, ttft, total_time, rate)]);
        let metrics = match ttft {
            Some(first) => {
                let last = messages.len() - 1;
                Some(
                    PromptMetrics {
                        prompt: messages[last].content.clone(),
                        ttft: first,
                        total_time,
                        tokens,
                        tokens_actual,
                        speed: match speed {
                            Some(n) => n,
                            None => Double { bits: 0 },
                        },
                        response_length: count_bytes(reply.as_str()),
                        response_hash: fingerprint(reply.as_str().as_bytes()),
                    },
                )
            },
            None => None,
        };
        messages.push(Message { role: "assistant".to_owned(), content: reply });
        assert(messages_of(messages@) =~= messages_of(old(messages)@).push(
            assistant_message(concatenated(self@.tokens)),
        ));
        Ok((list, metrics, self.actual_token_count))
    }
}

/// Whether anything of a reply has arrived.
pub open spec fn was_heard(state: ReplyView) -> bool {
    state.received_any_data || concatenated(state.tokens).len() > 0
}

/// The time to the first token, where a token came.
pub open spec fn ttft_of(state: ReplyView, first_token: Option<Timing>) -> Option<Timing> {
    if state.tokens.len() > 0 {
        first_token
    } else {
        None
    }
}

/// A message of the model.
pub open spec fn assistant_message(content: Seq<char>) -> MessageView {
    MessageView { role: "assistant"@, content }
}

/// The number of tokens: as the endpoint reported it, or as they were counted.
pub open spec fn token_count_of(state: ReplyView) -> usize {
    match state.actual_token_count {
        Some(n) => n,
        None => state.tokens.len() as usize,
    }
}

/// The number of tokens per second, where a token arrived and any time passed after the first.
pub open spec fn speed_of(
    state: ReplyView,
    ttft: Option<Timing>,
    rate: Option<Double>,
) -> Option<Double> {
    if ttft is Some && token_count_of(state) > 0 {
        rate
    } else {
        None
    }
}

/// The statistics of a reply.
pub open spec fn stats_pieces(
    ttft: Option<Timing>,
    total_time: Timing,
    tokens: Seq<char>,
    speed: Option<Double>,
) -> Seq<PieceView> {
    let before = match ttft {
        Some(first) => seq![
            PieceView::Text("[TTFT: "@),
            PieceView::Figure(Figure::Seconds(first)),
            PieceView::Text("s | Total: "@),
        ],
        None => seq![PieceView::Text("[Total: "@)],
    };
    let after = match speed {
        Some(n) => seq![
            PieceView::Text(" | Speed: "@),
            PieceView::Figure(Figure::Double(n, 1)),
            PieceView::Text(" tok/s]"@),
        ],
        None => seq![PieceView::Text("]"@)],
    };
    before + seq![
        PieceView::Figure(Figure::Seconds(total_time)),
        PieceView::Text("s | Tokens: "@ + tokens),
    ] + after
}

/// The line that gives the statistics of a reply.
pub open spec fn stats_line(
    state: ReplyView,
    ttft: Option<Timing>,
    total_time: Timing,
    rate: Option<Double>,
) -> LineView {
    line_of(
        Stream::Stdout,
        SpanView {
            ink: Ink::Dimmed,
            pieces: stats_pieces(
                ttft,
                total_time,
                token_text(token_count_of(state) as nat, state.actual_token_count is Some),
                speed_of(state, ttft, rate),
            ),
        },
    )
}

/// `m` is what was measured of a prompt by its reply. Without a speed it counts as zero.
pub open spec fn are_metrics_of(
    m: PromptMetrics,
    state: ReplyView,
    prompt: Seq<char>,
    ttft: Timing,
    total_time: Timing,
    rate: Option<Double>,
) -> bool {
    let reply = concatenated(state.tokens);
    &&& m.prompt@ == prompt
    &&& m.ttft == ttft
    &&& m.total_time == total_time
    &&& m.tokens == token_count_of(state)
    &&& m.tokens_actual == (state.actual_token_count is Some)
    &&& m.speed == match speed_of(state, Some(ttft), rate) {
        Some(n) => n,
        None => Double { bits: 0 },
    }
    &&& m.response_length == byte_count(reply)
    &&& m.response_hash@ == fingerprint_of(encode_utf8(reply))
}

/// The line that gives the statistics of a reply.
fn show_stats(
    ttft: Option<Timing>,
    total_time: Timing,
    tokens: usize,
    tokens_actual: bool,
    speed: Option<Double>,
) -> (r: Line)
    ensures
        r@ == line_of(
            Stream::Stdout,
            SpanView {
                ink: Ink::Dimmed,
                pieces: stats_pieces(
                    ttft,
                    total_time,
                    token_text(tokens as nat, tokens_actual),
                    speed,
                ),
            },
        ),
{
    let mut list: Vec<Piece> = Vec::new();
    match ttft {
        Some(first) => {
            list.push(Piece::Text("[TTFT: ".to_owned()));
            list.push(Piece::Figure(Figure::Seconds(first)));
            list.push(Piece::Text("s | Total: ".to_owned()));
        },
        None => {
            list.push(Piece::Text("[Total: ".to_owned()));
        },
    }
    let shown_tokens = show_tokens(tokens, tokens_actual);
    list.push(Piece::Figure(Figure::Seconds(total_time)));
    list.push(Piece::Text(concat("s | Tokens: ", shown_tokens.as_str())));
    match speed {
        Some(n) => {
            list.push(Piece::Text(" | Speed: ".to_owned()));
            list.push(Piece::Figure(Figure::Double(n, 1)));
            list.push(Piece::Text(" tok/s]".to_owned()));
        },
        None => {
            list.push(Piece::Text("]".to_owned()));
        },
    }
    assert(pieces(list@) =~= stats_pieces(
        ttft,
        total_time,
        token_text(tokens as nat, tokens_actual),
        speed,
    ));
    one(Stream::Stdout, Span { ink: Ink::Dimmed, pieces: list })
}

/// No line of the list says that the stream is done.
pub open spec fn goes_on(list: Seq<Seq<char>>) -> bool {
    forall|i: int| 0 <= i < list.len() ==> !is_done(#[trigger] list[i])
}

/// Lines in two parts do what they do in one, where the first part does not say that the stream
/// is done.
pub proof fn law_events_join(state: ReplyView, a: Seq<Seq<char>>, b: Seq<Seq<char>>)
    requires
        goes_on(a),
    ensures
        after_events(state, a + b).0 == after_events(after_events(state, a).0, b).0,
        after_events(state, a + b).1 == after_events(state, a).1 + after_events(
            after_events(state, a).0,
            b,
        ).1,
    decreases a.len(),
{
    if a.len() == 0 {
        assert(a + b =~= b);
        assert(Seq::<ReplyActionView>::empty() + after_events(state, b).1 =~= after_events(
            state,
            b,
        ).1);
    } else {
        let next = after_event(state, a[0]).0;
        assert forall|i: int| 0 <= i < a.skip(1).len() implies !is_done(#[trigger] a.skip(1)[i]) by {
            assert(a.skip(1)[i] == a[i + 1]);
        }
        law_events_join(next, a.skip(1), b);
        assert((a + b)[0] == a[0]);
        assert((a + b).skip(1) =~= a.skip(1) + b);
        assert(after_events(state, a + b).1 =~= after_events(state, a).1 + after_events(
            after_events(state, a).0,
            b,
        ).1);
    }
}

/// It does not matter where the stream is cut between lines: two texts in a row leave the same
/// reply, with the same to do, as both in one, where the first one ends with a line and does not
/// say that the stream is done.
pub proof fn law_texts_join(state: ReplyView, a: Seq<char>, b: Seq<char>)
    requires
        a.len() > 0 ==> a.last() == '\n',
        goes_on(text_lines(a)),
    ensures
        after_events(state, text_lines(a + b)).0 == after_events(
            after_events(state, text_lines(a)).0,
            text_lines(b),
        ).0,
        after_events(state, text_lines(a + b)).1 == after_events(state, text_lines(a)).1
            + after_events(after_events(state, text_lines(a)).0, text_lines(b)).1,
{
    lemma_text_lines_of_concat(a, b);
    law_events_join(state, text_lines(a), text_lines(b));
}

/// What follows the line that says that the stream is done plays no part.
pub proof fn law_done_ends_a_chunk(
    state: ReplyView,
    before: Seq<Seq<char>>,
    line: Seq<char>,
    behind: Seq<Seq<char>>,
)
    requires
        goes_on(before),
        is_done(line),
    ensures
        after_events(state, before + seq![line] + behind) == after_events(
            state,
            before + seq![line],
        ),
{
    assert(before + seq![line] + behind =~= before + (seq![line] + behind));
    law_events_join(state, before, seq![line] + behind);
    law_events_join(state, before, seq![line]);
    assert((seq![line] + behind)[0] == line);
}

/// The streamer has seen the text of the reply, and nothing else.
pub open spec fn follows_text(state: ReplyView) -> bool {
    state.streamer == after_token(awaited().streamer, concatenated(state.tokens)).0
}

/// What has been shown of a reply.
pub open spec fn shown_so_far(state: ReplyView) -> Seq<OutputView> {
    after_token(awaited().streamer, concatenated(state.tokens)).1
}

/// What there is to do between two states of a reply: to take note of the first token where it
/// arrived, and to show what has been completed since.
pub open spec fn due_between(start: ReplyView, end: ReplyView) -> Seq<ReplyActionView> {
    let first = if start.tokens.len() == 0 && end.tokens.len() > 0 {
        seq![ReplyActionView::FirstToken]
    } else {
        Seq::empty()
    };
    first + shown(shown_so_far(end).skip(shown_so_far(start).len() as int))
}

proof fn lemma_brought(state: ReplyView, token: Seq<char>)
    requires
        follows_text(state),
    ensures
        follows_text(after_brought(state, token).0),
        after_brought(state, token).1 == due_between(state, after_brought(state, token).0),
        shown_so_far(state).is_prefix_of(shown_so_far(after_brought(state, token).0)),
{
    let text = concatenated(state.tokens);
    let end = after_brought(state, token).0;
    assert(end.tokens.drop_last() =~= state.tokens);
    assert(concatenated(end.tokens) == text + token);
    law_tokens_join(awaited().streamer, text, token);
    let more = after_token(state.streamer, token).1;
    assert(shown_so_far(end) == shown_so_far(state) + more);
    assert(shown_so_far(end).skip(shown_so_far(state).len() as int) =~= more);
    assert(shown_so_far(end).take(shown_so_far(state).len() as int) =~= shown_so_far(state));
    assert(after_brought(state, token).1 =~= due_between(state, end));
}

proof fn lemma_nothing_due(state: ReplyView, end: ReplyView)
    requires
        state.tokens == end.tokens,
    ensures
        due_between(state, end) == Seq::<ReplyActionView>::empty(),
{
    assert(shown_so_far(end).skip(shown_so_far(state).len() as int) =~= Seq::empty());
    assert(due_between(state, end) =~= Seq::empty());
}

/// A line leaves a reply that follows its text, and what there is to do for it is exactly what
/// has become due.
proof fn lemma_event_follows_text(state: ReplyView, line: Seq<char>)
    requires
        follows_text(state),
    ensures
        follows_text(after_event(state, line).0),
        after_event(state, line).1 == due_between(state, after_event(state, line).0),
        shown_so_far(state).is_prefix_of(shown_so_far(after_event(state, line).0)),
        state.tokens.is_prefix_of(after_event(state, line).0.tokens),
{
    let end = after_event(state, line).0;
    if end.tokens == state.tokens {
        lemma_nothing_due(state, end);
    }
    if event_prefix().is_prefix_of(line) && !is_done(line) {
        if let Some(doc) = json_document(line.skip(event_prefix().len() as int)) {
            let heard = ReplyView { received_any_data: true, ..state };
            let counted = match reported_total(doc) {
                Some(total) => ReplyView { actual_token_count: Some(total as usize), ..heard },
                None => heard,
            };
            if let Some(token) = brought_token(doc) {
                lemma_brought(counted, token);
                assert(end.tokens.take(state.tokens.len() as int) =~= state.tokens);
                assert(due_between(counted, end) == due_between(state, end));
            }
        }
    }
    assert(shown_so_far(state).take(shown_so_far(state).len() as int) =~= shown_so_far(state));
    assert(state.tokens.take(state.tokens.len() as int) =~= state.tokens);
}

/// What is shown of a reply is what its text calls for, however the text is cut into tokens,
/// events and chunks: while lines arrive, exactly what they complete becomes due, the first
/// token is noted once and before anything is shown, and no token is lost.
pub proof fn law_reply_is_shown(state: ReplyView, list: Seq<Seq<char>>)
    requires
        follows_text(state),
    ensures
        follows_text(after_events(state, list).0),
        after_events(state, list).1 == due_between(state, after_events(state, list).0),
        state.tokens.is_prefix_of(after_events(state, list).0.tokens),
        shown_so_far(state).is_prefix_of(shown_so_far(after_events(state, list).0)),
    decreases list.len(),
{
    if list.len() == 0 {
        lemma_nothing_due(state, state);
        assert(shown_so_far(state).take(shown_so_far(state).len() as int) =~= shown_so_far(state));
        assert(state.tokens.take(state.tokens.len() as int) =~= state.tokens);
    } else {
        let next = after_event(state, list[0]).0;
        lemma_event_follows_text(state, list[0]);
        if !is_done(list[0]) {
            let end = after_events(next, list.skip(1)).0;
            law_reply_is_shown(next, list.skip(1));
            let a = shown_so_far(state);
            let b = shown_so_far(next);
            let c = shown_so_far(end);
            assert(c.take(a.len() as int) =~= b.take(a.len() as int));
            assert(c.skip(a.len() as int) =~= b.skip(a.len() as int) + c.skip(b.len() as int));
            assert(end.tokens.take(state.tokens.len() as int) =~= next.tokens.take(
                state.tokens.len() as int,
            ));
            if state.tokens.len() == 0 && next.tokens.len() == 0 {
                assert(concatenated(state.tokens) == concatenated(next.tokens));
                assert(b.skip(a.len() as int) =~= Seq::empty());
            }
            assert(due_between(state, next) + due_between(next, end) =~= due_between(state, end));
        }
    }
}

/// A reply of which nothing has arrived follows its text.
pub proof fn law_awaited_reply_follows_text()
    ensures
        follows_text(awaited()),
        shown_so_far(awaited()) == Seq::<OutputView>::empty(),
{
    assert(concatenated(awaited().tokens) =~= Seq::empty());
    assert(awaited().streamer.buffer + concatenated(awaited().tokens) =~= Seq::empty());
}

/// What texts change, one after the other, and what there is to do for them.
pub open spec fn after_texts(state: ReplyView, list: Seq<Seq<char>>) -> (
    ReplyView,
    Seq<ReplyActionView>,
)
    decreases list.len(),
{
    if list.len() == 0 {
        (state, Seq::empty())
    } else {
        let (before, done) = after_texts(state, list.drop_last());
        let (end, more) = after_events(before, text_lines(list.last()));
        (end, done + more)
    }
}

/// Among the things to do between two states of a reply the first token is noted where it came,
/// before anything is shown, and nowhere else.
pub open spec fn notes_first_token(
    start: ReplyView,
    end: ReplyView,
    actions: Seq<ReplyActionView>,
) -> bool {
    &&& start.tokens.len() <= end.tokens.len()
    &&& actions.contains(ReplyActionView::FirstToken) <==> start.tokens.len() == 0
        && end.tokens.len() > 0
    &&& forall|i: int| 0 < i < actions.len() ==> !(#[trigger] actions[i] is FirstToken)
    &&& start.tokens.len() == end.tokens.len() ==> actions.len() == 0
}

proof fn lemma_event_notes_first_token(state: ReplyView, line: Seq<char>)
    ensures
        notes_first_token(state, after_event(state, line).0, after_event(state, line).1),
{
    let (end, actions) = after_event(state, line);
    if event_prefix().is_prefix_of(line) && !is_done(line) {
        if let Some(doc) = json_document(line.skip(event_prefix().len() as int)) {
            if let Some(token) = brought_token(doc) {
                let list = shown(after_token(state.streamer, token).1);
                assert forall|i: int| 0 <= i < list.len() implies !(#[trigger] list[i]
                    is FirstToken) by {}
                if state.tokens.len() == 0 {
                    assert(actions == seq![ReplyActionView::FirstToken] + list);
                    assert(actions[0] is FirstToken);
                    assert forall|i: int| 0 < i < actions.len() implies !(#[trigger] actions[i]
                        is FirstToken) by {
                        assert(actions[i] == list[i - 1]);
                    }
                } else {
                    assert(actions == list);
                }
            }
        }
    }
}

proof fn lemma_notes_join(
    start: ReplyView,
    middle: ReplyView,
    end: ReplyView,
    a: Seq<ReplyActionView>,
    b: Seq<ReplyActionView>,
)
    requires
        notes_first_token(start, middle, a),
        notes_first_token(middle, end, b),
    ensures
        notes_first_token(start, end, a + b),
{
    let all = a + b;
    let first = ReplyActionView::FirstToken;
    assert forall|i: int| 0 < i < all.len() implies !(#[trigger] all[i] is FirstToken) by {
        if i < a.len() {
            assert(all[i] == a[i]);
        } else {
            assert(all[i] == b[i - a.len()]);
            if i == a.len() && b[0] is FirstToken {
                assert(b.contains(first));
            }
        }
    }
    if a.contains(first) {
        let i = choose|i: int| 0 <= i < a.len() && a[i] == first;
        assert(all[i] == first);
    }
    if b.contains(first) {
        let i = choose|i: int| 0 <= i < b.len() && b[i] == first;
        assert(all[a.len() + i] == first);
    }
    if all.contains(first) {
        let i = choose|i: int| 0 <= i < all.len() && all[i] == first;
        if i < a.len() {
            assert(a[i] == first);
        } else {
            assert(b[i - a.len()] == first);
        }
    }
}

proof fn lemma_events_note_first_token(state: ReplyView, list: Seq<Seq<char>>)
    ensures
        notes_first_token(state, after_events(state, list).0, after_events(state, list).1),
    decreases list.len(),
{
    if list.len() > 0 {
        let (next, first) = after_event(state, list[0]);
        lemma_event_notes_first_token(state, list[0]);
        if !is_done(list[0]) {
            let (end, rest) = after_events(next, list.skip(1));
            lemma_events_note_first_token(next, list.skip(1));
            lemma_notes_join(state, next, end, first, rest);
        }
    }
}

/// However a stream is cut into texts, the first token is noted if and only if a token came, once
/// and before anything is shown.
pub proof fn law_first_token_is_noted(state: ReplyView, list: Seq<Seq<char>>)
    ensures
        notes_first_token(state, after_texts(state, list).0, after_texts(state, list).1),
    decreases list.len(),
{
    if list.len() > 0 {
        let (before, done) = after_texts(state, list.drop_last());
        let (end, more) = after_events(before, text_lines(list.last()));
        law_first_token_is_noted(state, list.drop_last());
        lemma_events_note_first_token(before, text_lines(list.last()));
        lemma_notes_join(state, before, end, done, more);
    }
}

/// A document reports a number of tokens where it has an object under `usage` with an unsigned
/// integer under `total_tokens`, whatever else it has. The number is then the one reported last;
/// after any other document it is what it was.
pub proof fn law_reported_usage_is_taken(
    state: ReplyView,
    doc: JsonModel,
    usage: JsonModel,
    n: u64,
)
    ensures
        doc.member("usage"@) == Some(usage) && usage.member("total_tokens"@) == Some(
            JsonModel::Number(JsonNumber::Unsigned(n)),
        ) ==> after_document(state, doc).0.actual_token_count == Some(n as usize),
        doc.member("usage"@) is None ==> after_document(state, doc).0.actual_token_count
            == state.actual_token_count,
        doc.member("usage"@) == Some(usage) && usage.member("total_tokens"@) is None
            ==> after_document(state, doc).0.actual_token_count == state.actual_token_count,
        doc.member("usage"@) == Some(usage) && usage.member("total_tokens"@) is Some
            && usage.member("total_tokens"@)->0.unsigned() is None ==> after_document(
            state,
            doc,
        ).0.actual_token_count == state.actual_token_count,
{
}

/// A document brings a token where its first choice has a delta with a text as its content,
/// whatever else it has and whatever the text is. The token is taken whole, behind those before
/// it, and shown; any other document brings none and shows nothing.
pub proof fn law_every_token_is_taken(
    state: ReplyView,
    doc: JsonModel,
    choices: Seq<JsonModel>,
    delta: JsonModel,
    token: Seq<char>,
)
    ensures
        doc.member("choices"@) == Some(JsonModel::Array(choices)) && choices.len() > 0
            && choices[0].member("delta"@) == Some(delta) && delta.member("content"@) == Some(
            JsonModel::Text(token),
        ) ==> {
            let (next, actions) = after_document(state, doc);
            let (streamer, outs) = after_token(state.streamer, token);
            let first: int = if state.tokens.len() == 0 {
                1
            } else {
                0
            };
            &&& next.tokens == state.tokens.push(token)
            &&& concatenated(next.tokens) == concatenated(state.tokens) + token
            &&& next.streamer == streamer
            &&& next.received_any_data == state.received_any_data
            &&& actions.len() == first + outs.len()
            &&& first == 1 ==> actions[0] is FirstToken
            &&& forall|i: int|
                0 <= i < outs.len() ==> #[trigger] actions[first + i] == ReplyActionView::Show(
                    outs[i],
                )
        },
        !(doc.member("choices"@) matches Some(list) && list.item(0) matches Some(choice)
            && choice.member("delta"@) matches Some(d) && d.member("content"@) matches Some(content)
            && content is Text) ==> {
            &&& after_document(state, doc).0.tokens == state.tokens
            &&& after_document(state, doc).0.streamer == state.streamer
            &&& after_document(state, doc).0.received_any_data == state.received_any_data
            &&& after_document(state, doc).1.len() == 0
        },
{
    assert(state.tokens.push(token).drop_last() =~= state.tokens);
}

/// An event is a line with `data: ` and its content. A document in it is taken; `[DONE]` and what
/// is no document change nothing but that something was heard; and a line that is no event changes
/// nothing at all.
pub proof fn law_events_are_told_by_their_prefix(
    state: ReplyView,
    content: Seq<char>,
    doc: JsonModel,
    line: Seq<char>,
)
    ensures
        after_event(state, "data: "@ + content).0.received_any_data,
        was_heard(after_event(state, "data: "@ + content).0),
        content != "[DONE]"@ && json_document(content) == Some(doc) ==> after_event(
            state,
            "data: "@ + content,
        ) == after_document(ReplyView { received_any_data: true, ..state }, doc),
        content == "[DONE]"@ || json_document(content) is None ==> after_event(
            state,
            "data: "@ + content,
        ).0 == (ReplyView { received_any_data: true, ..state }) && after_event(
            state,
            "data: "@ + content,
        ).1.len() == 0,
        is_done("data: "@ + content) <==> content == "[DONE]"@,
        !"data: "@.is_prefix_of(line) ==> after_event(state, line).0 == state && after_event(
            state,
            line,
        ).1.len() == 0 && !is_done(line),
{
    let whole = "data: "@ + content;
    assert(whole.take("data: "@.len() as int) =~= "data: "@);
    assert(whole.skip("data: "@.len() as int) =~= content);
    if content != "[DONE]"@ {
        if let Some(found) = json_document(content) {
            let heard = ReplyView { received_any_data: true, ..state };
            assert(after_document(heard, found).0.received_any_data);
        }
    }
}

/// A single line does what the event in it does, and no line does nothing.
pub proof fn law_lines_are_events(state: ReplyView, line: Seq<char>)
    ensures
        after_events(state, Seq::empty()).0 == state,
        after_events(state, Seq::empty()).1.len() == 0,
        after_events(state, seq![line]).0 == after_event(state, line).0,
        after_events(state, seq![line]).1 == after_event(state, line).1,
{
    let none = Seq::<Seq<char>>::empty();
    assert(seq![line].skip(1) =~= none);
    assert(seq![line][0] == line);
    let next = after_event(state, line).0;
    assert(after_events(next, none).1 =~= Seq::<ReplyActionView>::empty());
    assert(after_events(state, seq![line]).1 =~= after_event(state, line).1);
}

/// A reply of which nothing has arrived was not heard; one is heard by an event or by a text.
pub proof fn law_silence_is_told(state: ReplyView)
    ensures
        !was_heard(awaited()),
        awaited().tokens.len() == 0,
        awaited().actual_token_count is None,
        state.received_any_data ==> was_heard(state),
        !state.received_any_data && state.tokens.len() == 0 ==> !was_heard(state),
        (exists|i: int| 0 <= i < state.tokens.len() && #[trigger] state.tokens[i].len() > 0)
            ==> was_heard(state),
{
    if exists|i: int| 0 <= i < state.tokens.len() && #[trigger] state.tokens[i].len() > 0 {
        let i = choose|i: int| 0 <= i < state.tokens.len() && #[trigger] state.tokens[i].len() > 0;
        let all = state.tokens;
        law_texts_add_up(all.take(i), all.skip(i), all[i]);
        assert(all.take(i) + all.skip(i) =~= all);
        law_texts_add_up(seq![all[i]], all.skip(i + 1), all[i]);
        assert(all.skip(i) =~= seq![all[i]] + all.skip(i + 1));
    }
}

/// What was measured of a prompt is of its whole reply: the number of tokens is the reported one
/// or else that of the tokens that came, the length is that of the whole text in bytes, and the
/// fingerprint that of the whole text. The speed is the given rate where any token counts.
pub proof fn law_measurements_are_of_the_whole_reply(
    m: PromptMetrics,
    state: ReplyView,
    prompt: Seq<char>,
    ttft: Timing,
    total_time: Timing,
    rate: Option<Double>,
)
    requires
        are_metrics_of(m, state, prompt, ttft, total_time, rate),
    ensures
        m.prompt@ == prompt,
        m.ttft == ttft,
        m.total_time == total_time,
        m.tokens_actual <==> state.actual_token_count is Some,
        state.actual_token_count matches Some(n) ==> m.tokens == n,
        state.actual_token_count is None ==> m.tokens == state.tokens.len() as usize,
        m.tokens > 0 && rate is Some ==> m.speed == rate->0,
        m.tokens == 0 || rate is None ==> m.speed.bits == 0,
        m.response_length == encode_utf8(concatenated(state.tokens)).len(),
        m.response_hash@ == fingerprint_of(encode_utf8(concatenated(state.tokens))),
{
}

/// The statistics of a reply give the time to the first token where there is one, the total time,
/// the number of tokens as it was reported, or else as it was counted and marked with a tilde, and
/// the speed where any token counts and the rate is known.
pub proof fn law_statistics_tell_all(
    state: ReplyView,
    ttft: Option<Timing>,
    total_time: Timing,
    rate: Option<Double>,
    write: spec_fn(Figure) -> Seq<char>,
)
    ensures
        stats_line(state, ttft, total_time, rate).stream == Stream::Stdout,
        stats_line(state, ttft, total_time, rate).spans.len() == 1,
        stats_line(state, ttft, total_time, rate).spans[0].ink == Ink::Dimmed,
        spoken(stats_line(state, ttft, total_time, rate), write) == "["@ + (match ttft {
            Some(first) => "TTFT: "@ + write(Figure::Seconds(first)) + "s | "@,
            None => Seq::empty(),
        }) + "Total: "@ + write(Figure::Seconds(total_time)) + "s | Tokens: "@ + (
        match state.actual_token_count {
            Some(n) => decimal(n as nat),
            None => "~"@ + decimal(state.tokens.len() as usize as nat),
        }) + (match rate {
            Some(n) => if ttft is Some && (state.actual_token_count matches Some(count) && count > 0
                || state.actual_token_count is None && state.tokens.len() as usize > 0) {
                " | Speed: "@ + write(Figure::Double(n, 1)) + " tok/s"@
            } else {
                Seq::empty()
            },
            None => Seq::empty(),
        }) + "]"@,
{
    reveal_strlit("[TTFT: ");
    reveal_strlit("[Total: ");
    reveal_strlit("[");
    reveal_strlit("TTFT: ");
    reveal_strlit("Total: ");
    reveal_strlit("s | Total: ");
    reveal_strlit("s | ");
    reveal_strlit(" tok/s]");
    reveal_strlit(" tok/s");
    reveal_strlit("]");
    assert("[TTFT: "@ =~= "["@ + "TTFT: "@);
    assert("[Total: "@ =~= "["@ + "Total: "@);
    assert("s | Total: "@ =~= "s | "@ + "Total: "@);
    assert(" tok/s]"@ =~= " tok/s"@ + "]"@);
    let tokens = token_text(token_count_of(state) as nat, state.actual_token_count is Some);
    let speed = speed_of(state, ttft, rate);
    let list = stats_pieces(ttft, total_time, tokens, speed);
    lemma_stats_text(ttft, total_time, tokens, speed, write);
    let span = SpanView { ink: Ink::Dimmed, pieces: list };
    law_lines_say_their_spans(Stream::Stdout, span, span, span, write);
}

proof fn lemma_stats_text(
    ttft: Option<Timing>,
    total_time: Timing,
    tokens: Seq<char>,
    speed: Option<Double>,
    write: spec_fn(Figure) -> Seq<char>,
)
    requires
        "[TTFT: "@ == "["@ + "TTFT: "@,
        "[Total: "@ == "["@ + "Total: "@,
        "s | Total: "@ == "s | "@ + "Total: "@,
        " tok/s]"@ == " tok/s"@ + "]"@,
    ensures
        pieces_from(stats_pieces(ttft, total_time, tokens, speed), 0, write) == "["@ + (match ttft {
            Some(first) => "TTFT: "@ + write(Figure::Seconds(first)) + "s | "@,
            None => Seq::empty(),
        }) + "Total: "@ + write(Figure::Seconds(total_time)) + "s | Tokens: "@ + tokens + (
        match speed {
            Some(n) => " | Speed: "@ + write(Figure::Double(n, 1)) + " tok/s"@,
            None => Seq::empty(),
        }) + "]"@,
{
    reveal_with_fuel(pieces_from, 4);
    let start = "["@ + (match ttft {
        Some(first) => "TTFT: "@ + write(Figure::Seconds(first)) + "s | "@,
        None => Seq::empty(),
    }) + "Total: "@;
    let end = (match speed {
        Some(n) => " | Speed: "@ + write(Figure::Double(n, 1)) + " tok/s"@,
        None => Seq::empty(),
    }) + "]"@;
    let before = match ttft {
        Some(first) => seq![
            PieceView::Text("[TTFT: "@),
            PieceView::Figure(Figure::Seconds(first)),
            PieceView::Text("s | Total: "@),
        ],
        None => seq![PieceView::Text("[Total: "@)],
    };
    let after = match speed {
        Some(n) => seq![
            PieceView::Text(" | Speed: "@),
            PieceView::Figure(Figure::Double(n, 1)),
            PieceView::Text(" tok/s]"@),
        ],
        None => seq![PieceView::Text("]"@)],
    };
    let middle = seq![
        PieceView::Figure(Figure::Seconds(total_time)),
        PieceView::Text("s | Tokens: "@ + tokens),
    ];
    assert(pieces_from(before, 0, write) =~= start);
    assert(pieces_from(after, 0, write) =~= end);
    let core = write(Figure::Seconds(total_time)) + ("s | Tokens: "@ + tokens);
    assert(pieces_from(middle, 0, write) =~= core);
    law_pieces_join(before + middle, after, 0, write);
    law_pieces_join(before, middle, 0, write);
    assert(stats_pieces(ttft, total_time, tokens, speed) == before + middle + after);
    lemma_regroup(start, write(Figure::Seconds(total_time)), "s | Tokens: "@, tokens, match speed {
        Some(n) => " | Speed: "@ + write(Figure::Double(n, 1)) + " tok/s"@,
        None => Seq::empty(),
    }, "]"@);
}

proof fn lemma_regroup(
    a: Seq<char>,
    b: Seq<char>,
    c: Seq<char>,
    d: Seq<char>,
    e: Seq<char>,
    f: Seq<char>,
)
    ensures
        a + (b + (c + d)) + (e + f) == a + b + c + d + e + f,
{
    assert(a + (b + (c + d)) + (e + f) =~= a + b + c + d + e + f);
}

/// The time to the first token counts where a token came, and only there. The reply is taken into
/// the conversation as the assistant's, whole.
pub proof fn law_reply_is_taken_whole(
    state: ReplyView,
    first_token: Option<Timing>,
    content: Seq<char>,
    list: Seq<ReplyAction>,
    i: int,
    output: Output,
)
    ensures
        state.tokens.len() > 0 ==> ttft_of(state, first_token) == first_token,
        state.tokens.len() == 0 ==> ttft_of(state, first_token) is None,
        assistant_message(content).role == "assistant"@,
        assistant_message(content).content == content,
        state.actual_token_count matches Some(n) ==> token_count_of(state) == n,
        state.actual_token_count is None ==> token_count_of(state) == state.tokens.len() as usize,
        reply_actions(list).len() == list.len(),
        0 <= i < list.len() ==> reply_actions(list)[i] == list[i]@,
        ReplyAction::Show(output)@ == ReplyActionView::Show(output@),
        ReplyAction::FirstToken@ == ReplyActionView::FirstToken,
{
}

/// What stays the same while a reply arrives is the scheme, the syntaxes and the themes.
pub proof fn law_setting_stays(a: Reply, b: Reply)
    requires
        a.same_setting(b),
    ensures
        a.scheme() == b.scheme(),
        a.syntaxes() == b.syntaxes(),
        a.themes() == b.themes(),
{
}

/// Whether a line is an event with a document that brings the given token.
pub open spec fn brings(line: Seq<char>, token: Seq<char>) -> bool {
    exists|content: Seq<char>, doc: JsonModel, choices: Seq<JsonModel>, delta: JsonModel|
        {
            &&& line == "data: "@ + content
            &&& content != "[DONE]"@
            &&& #[trigger] json_document(content) == Some(doc)
            &&& #[trigger] doc.member("choices"@) == Some(JsonModel::Array(choices))
            &&& choices.len() > 0
            &&& #[trigger] choices[0].member("delta"@) == Some(delta)
            &&& #[trigger] delta.member("content"@) == Some(JsonModel::Text(token))
        }
}

/// The text of a reply is that of all its tokens: where each line brings one, all of them are
/// taken, whole and in their order, and nothing else.
pub proof fn law_reply_is_all_its_tokens(
    state: ReplyView,
    lines: Seq<Seq<char>>,
    tokens: Seq<Seq<char>>,
)
    requires
        lines.len() == tokens.len(),
        forall|i: int| 0 <= i < lines.len() ==> brings(#[trigger] lines[i], tokens[i]),
    ensures
        after_events(state, lines).0.tokens == state.tokens + tokens,
        concatenated(after_events(state, lines).0.tokens) == concatenated(state.tokens)
            + concatenated(tokens),
    decreases lines.len(),
{
    law_texts_add_up(state.tokens, tokens, Seq::empty());
    if lines.len() == 0 {
        assert(state.tokens + tokens =~= state.tokens);
    } else {
        assert(brings(lines[0], tokens[0]));
        let (content, doc, choices, delta) = choose|
            content: Seq<char>,
            doc: JsonModel,
            choices: Seq<JsonModel>,
            delta: JsonModel,
        |
            {
                &&& lines[0] == "data: "@ + content
                &&& content != "[DONE]"@
                &&& #[trigger] json_document(content) == Some(doc)
                &&& #[trigger] doc.member("choices"@) == Some(JsonModel::Array(choices))
                &&& choices.len() > 0
                &&& #[trigger] choices[0].member("delta"@) == Some(delta)
                &&& #[trigger] delta.member("content"@) == Some(JsonModel::Text(tokens[0]))
            };
        law_events_are_told_by_their_prefix(state, content, doc, lines[0]);
        let heard = ReplyView { received_any_data: true, ..state };
        law_every_token_is_taken(heard, doc, choices, delta, tokens[0]);
        let next = after_event(state, lines[0]).0;
        let rest = lines.skip(1);
        assert forall|i: int| 0 <= i < rest.len() implies brings(
            #[trigger] rest[i],
            tokens.skip(1)[i],
        ) by {
            assert(brings(lines[i + 1], tokens[i + 1]));
        }
        law_reply_is_all_its_tokens(next, rest, tokens.skip(1));
        assert(next.tokens + tokens.skip(1) =~= state.tokens + tokens);
    }
}

} // verus!
