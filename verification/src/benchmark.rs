//! Benchmarks: a list of prompts, what was measured of each, and what it all comes to.
use crate::config::SessionConfig;
#[allow(unused_imports)]
use crate::config::SessionView;
use crate::digest::fingerprint;
#[allow(unused_imports)]
use crate::digest::fingerprint_of;
use crate::output::{
    head, hued, ink_figure, ink_text, one, plain, say, Double, Figure, Line, Single, Stream,
    Timing,
};
#[allow(unused_imports)]
use crate::output::{
    figure_in, headed, hued_text, law_text_is_said_whole, line_of, lines_of, pieces_from, plain_text,
    said, spans_from, spoken, text_in, LineView,
};
use crate::paint::{Hue, Ink};
#[allow(unused_imports)]
use crate::session::optional_text;
use crate::text::{concat, decimal_text, repeat, signed_decimal_text};
#[allow(unused_imports)]
use crate::text::{concatenated, decimal, law_texts_add_up, repeated, signed_decimal, texts};
#[allow(unused_imports)]
use vstd::utf8::encode_utf8;
use vstd::prelude::*;

verus! {

/// The width of a rule across the terminal.
pub const RULE_WIDTH: usize = 80;

/// What a benchmark runs.
#[derive(Debug, PartialEq, Eq)]
pub struct BenchmarkConfig {
    pub name: String,
    pub temperature: Single,
    pub seed: Option<i64>,
    pub prompts: Vec<String>,
}

/// What was measured of one prompt.
#[derive(Debug, PartialEq, Eq)]
pub struct PromptMetrics {
    pub prompt: String,
    /// The time to the first token.
    pub ttft: Timing,
    pub total_time: Timing,
    pub tokens: usize,
    /// Whether the endpoint reported the number of tokens.
    pub tokens_actual: bool,
    /// Tokens per second.
    pub speed: Double,
    /// The number of bytes of the response.
    pub response_length: usize,
    pub response_hash: String,
}

/// How numbers spread.
#[derive(Clone, Copy, PartialEq, Eq, Structural, Debug)]
pub struct Spread {
    pub avg: Double,
    pub median: Double,
    pub min: Double,
    pub max: Double,
    pub stddev: Double,
}

/// What the measurements of all prompts come to.
#[derive(Debug, PartialEq, Eq)]
pub struct BenchmarkSummary {
    pub total_prompts: usize,
    pub total_time: Double,
    pub total_tokens: usize,
    pub total_tokens_all_actual: bool,
    pub responses_hash: String,
    pub ttft: Spread,
    pub speed: Spread,
}

/// The number of tokens of all prompts.
pub open spec fn token_sum(metrics: Seq<PromptMetrics>) -> nat
    decreases metrics.len(),
{
    if metrics.len() == 0 {
        0
    } else {
        token_sum(metrics.drop_last()) + metrics.last().tokens as nat
    }
}

/// Whether the endpoint reported every number of tokens.
pub open spec fn all_actual(metrics: Seq<PromptMetrics>) -> bool {
    forall|i: int| 0 <= i < metrics.len() ==> (#[trigger] metrics[i]).tokens_actual
}

/// The fingerprints of the responses.
pub open spec fn hashes(metrics: Seq<PromptMetrics>) -> Seq<Seq<char>> {
    metrics.map_values(|m: PromptMetrics| m.response_hash@)
}

proof fn lemma_token_sum_grows(metrics: Seq<PromptMetrics>, k: int)
    requires
        0 <= k <= metrics.len(),
    ensures
        token_sum(metrics.take(k)) <= token_sum(metrics),
    decreases metrics.len() - k,
{
    if k == metrics.len() {
        assert(metrics.take(k) =~= metrics);
    } else {
        lemma_token_sum_grows(metrics, k + 1);
        assert(metrics.take(k + 1).drop_last() =~= metrics.take(k));
    }
}

/// What the measurements of all prompts come to. The fingerprint of all responses is that of
/// their fingerprints, one after the other. The figures in double precision are given.
pub fn calculate_summary(
    metrics: &Vec<PromptMetrics>,
    total_time: Double,
    ttft: Spread,
    speed: Spread,
) -> (r: BenchmarkSummary)
    requires
        token_sum(metrics@) <= usize::MAX,
    ensures
        r.total_prompts == metrics@.len(),
        r.total_tokens == token_sum(metrics@),
        r.total_tokens_all_actual == all_actual(metrics@),
        r.responses_hash@ == fingerprint_of(encode_utf8(concatenated(hashes(metrics@)))),
        r.total_time == total_time,
        r.ttft == ttft,
        r.speed == speed,
{
    let ghost all = hashes(metrics@);
    let mut total_tokens: usize = 0;
    let mut total_tokens_all_actual = true;
    let mut text = String::new();
    let mut i: usize = 0;
    while i < metrics.len()
        invariant
            i <= metrics@.len(),
            all == hashes(metrics@),
            token_sum(metrics@) <= usize::MAX,
            total_tokens == token_sum(metrics@.take(i as int)),
            total_tokens_all_actual == all_actual(metrics@.take(i as int)),
            text@ == concatenated(all.take(i as int)),
        decreases metrics@.len() - i,
    {
        proof {
            lemma_token_sum_grows(metrics@, i + 1);
            assert(metrics@.take(i + 1).drop_last() =~= metrics@.take(i as int));
            assert(all.take(i + 1).drop_last() =~= all.take(i as int));
            assert(metrics@.take(i + 1)[i as int] == metrics@[i as int]);
            assert forall|k: int| 0 <= k < i implies metrics@.take(i as int)[k]
                == #[trigger] metrics@.take(i + 1)[k] by {}
        }
        total_tokens = total_tokens + metrics[i].tokens;
        total_tokens_all_actual = total_tokens_all_actual && metrics[i].tokens_actual;
        text.append(metrics[i].response_hash.as_str());
        i = i + 1;
    }
    assert(metrics@.take(i as int) =~= metrics@);
    assert(all.take(i as int) =~= all);
    BenchmarkSummary {
        total_prompts: metrics.len(),
        total_time,
        total_tokens,
        total_tokens_all_actual,
        responses_hash: fingerprint(text.as_str().as_bytes()),
        ttft,
        speed,
    }
}

/// A benchmark's session: no system prompt, and the temperature and the seed of the benchmark.
pub fn benchmark_session(
    benchmark: &BenchmarkConfig,
    endpoint: String,
    model: String,
    api_key: Option<String>,
) -> (r: SessionConfig)
    ensures
        r@ == (SessionView {
            endpoint: endpoint@,
            model: model@,
            api_key: optional_text(api_key),
            system_prompt: None,
            temperature: benchmark.temperature,
            seed: benchmark.seed,
            last_actual_total_tokens: None,
        }),
{
    SessionConfig::new(endpoint, model, api_key, benchmark.temperature, benchmark.seed)
}

/// A seed as it is shown.
pub open spec fn seed_text(seed: Option<i64>) -> Seq<char> {
    match seed {
        Some(n) => signed_decimal(n as int),
        None => "None"@,
    }
}

/// What is shown before a benchmark runs.
pub open spec fn benchmark_header_of(
    benchmark: BenchmarkConfig,
    model: Seq<char>,
    endpoint: Seq<char>,
) -> Seq<LineView> {
    seq![
        headed(Hue::Green, "Running benchmark: "@ + benchmark.name@),
        LineView {
            stream: Stream::Stdout,
            spans: seq![
                plain_text("Model: "@),
                hued_text(Hue::Cyan, model),
                plain_text(" | Temperature: "@),
                figure_in(Ink::Color(Hue::Cyan), Figure::Shortest(benchmark.temperature)),
                plain_text(" | Seed: "@),
                hued_text(Hue::Cyan, seed_text(benchmark.seed)),
            ],
        },
        LineView {
            stream: Stream::Stdout,
            spans: seq![plain_text("Endpoint: "@), hued_text(Hue::Cyan, endpoint)],
        },
        said("Prompts: "@ + decimal(benchmark.prompts@.len())),
        said(""@),
    ]
}

/// What is shown before a benchmark runs.
pub fn benchmark_header(benchmark: &BenchmarkConfig, model: &str, endpoint: &str) -> (r: Vec<Line>)
    ensures
        lines_of(r@) == benchmark_header_of(*benchmark, model@, endpoint@),
{
    let seed = match benchmark.seed {
        Some(n) => signed_decimal_text(n),
        None => "None".to_owned(),
    };
    let settings = Line {
        stream: Stream::Stdout,
        spans: vec![
            plain("Model: "),
            hued(Hue::Cyan, model),
            plain(" | Temperature: "),
            ink_figure(Ink::Color(Hue::Cyan), Figure::Shortest(benchmark.temperature)),
            plain(" | Seed: "),
            hued(Hue::Cyan, seed.as_str()),
        ],
    };
    let target = Line {
        stream: Stream::Stdout,
        spans: vec![plain("Endpoint: "), hued(Hue::Cyan, endpoint)],
    };
    let count = decimal_text(benchmark.prompts.len() as u64);
    let r: Vec<Line> = vec![
        head(Hue::Green, concat("Running benchmark: ", benchmark.name.as_str()).as_str()),
        settings,
        target,
        say(concat("Prompts: ", count.as_str()).as_str()),
        say(""),
    ];
    proof {
        let all = benchmark_header_of(*benchmark, model@, endpoint@);
        assert(settings@.spans =~= all[1].spans);
        assert(target@.spans =~= all[2].spans);
        assert(lines_of(r@) =~= all);
    }
    r
}

/// A rule across the terminal.
pub open spec fn rule_text() -> Seq<char> {
    repeated('━', RULE_WIDTH as nat)
}

/// What is shown before a prompt of a benchmark, the first one being the prompt at 0.
pub open spec fn prompt_banner_of(index: nat, prompt: Seq<char>) -> Seq<LineView> {
    seq![
        headed(Hue::Yellow, "Prompt "@ + decimal(index + 1) + ": \""@ + prompt + "\""@),
        line_of(Stream::Stdout, text_in(Ink::Dimmed, rule_text())),
    ]
}

/// What is shown before a prompt of a benchmark.
pub fn prompt_banner(index: usize, prompt: &str) -> (r: Vec<Line>)
    requires
        index < usize::MAX,
    ensures
        lines_of(r@) == prompt_banner_of(index as nat, prompt@),
{
    let mut text = "Prompt ".to_owned();
    text.append(decimal_text((index + 1) as u64).as_str());
    text.append(": \"");
    text.append(prompt);
    text.append("\"");
    let rule = repeat('━', RULE_WIDTH);
    let r: Vec<Line> = vec![
        head(Hue::Yellow, text.as_str()),
        one(Stream::Stdout, ink_text(Ink::Dimmed, rule.as_str())),
    ];
    assert(lines_of(r@) =~= prompt_banner_of(index as nat, prompt@));
    r
}

/// What can go wrong with the measurement of the machine.
#[derive(Clone, Copy, PartialEq, Eq, Structural, Debug)]
pub enum MonitorFault {
    Start,
    Stop,
}

/// The warning that the machine is not measured.
pub open spec fn monitor_warning_of(fault: MonitorFault, reason: Seq<char>) -> LineView {
    let what = match fault {
        MonitorFault::Start => "Warning: Failed to start metrics monitoring: "@,
        MonitorFault::Stop => "Warning: Failed to collect system metrics: "@,
    };
    line_of(Stream::Stderr, hued_text(Hue::Yellow, what + reason))
}

/// The warning that the machine is not measured.
pub fn monitor_warning(fault: MonitorFault, reason: &str) -> (r: Line)
    ensures
        r@ == monitor_warning_of(fault, reason@),
{
    let what = match fault {
        MonitorFault::Start => "Warning: Failed to start metrics monitoring: ",
        MonitorFault::Stop => "Warning: Failed to collect system metrics: ",
    };
    one(Stream::Stderr, hued(Hue::Yellow, concat(what, reason).as_str()))
}

/// The note that the results were saved.
pub fn saved_results(path: &str) -> (r: Vec<Line>)
    ensures
        lines_of(r@) == seq![
            said(""@),
            line_of(Stream::Stdout, hued_text(Hue::Green, "Results saved to: "@ + path@)),
        ],
{
    let r: Vec<Line> = vec![
        say(""),
        one(Stream::Stdout, hued(Hue::Green, concat("Results saved to: ", path).as_str())),
    ];
    assert(lines_of(r@) =~= seq![
        said(""@),
        line_of(Stream::Stdout, hued_text(Hue::Green, "Results saved to: "@ + path@)),
    ]);
    r
}

/// Every token is counted once: two runs together have the tokens of both, and the number is
/// reported only where it is in both.
pub proof fn law_summaries_add_up(a: Seq<PromptMetrics>, b: Seq<PromptMetrics>)
    ensures
        token_sum(a + b) == token_sum(a) + token_sum(b),
        all_actual(a + b) == (all_actual(a) && all_actual(b)),
    decreases b.len(),
{
    assert forall|i: int| 0 <= i < b.len() implies (a + b)[a.len() + i] == #[trigger] b[i] by {}
    assert forall|i: int| 0 <= i < a.len() implies (a + b)[i] == #[trigger] a[i] by {}
    if all_actual(a) && all_actual(b) {
        assert forall|i: int| 0 <= i < (a + b).len() implies (#[trigger] (a
            + b)[i]).tokens_actual by {
            if i < a.len() {
                assert((a + b)[i] == a[i]);
            } else {
                assert((a + b)[i] == b[i - a.len()]);
            }
        }
    }
    if b.len() == 0 {
        assert(a + b =~= a);
    } else {
        law_summaries_add_up(a, b.drop_last());
        assert((a + b).drop_last() =~= a + b.drop_last());
    }
}

/// The fingerprint of all responses depends on theirs and their order alone: runs that gave the
/// same responses have the same one, whatever else was measured.
pub proof fn law_same_responses_same_hash(a: Seq<PromptMetrics>, b: Seq<PromptMetrics>)
    requires
        a.len() == b.len(),
        forall|i: int|
            0 <= i < a.len() ==> (#[trigger] a[i]).response_hash@ == (
            #[trigger] b[i]).response_hash@,
    ensures
        fingerprint_of(encode_utf8(concatenated(hashes(a)))) == fingerprint_of(
            encode_utf8(concatenated(hashes(b))),
        ),
{
    assert(hashes(a) =~= hashes(b));
}

/// A benchmark that runs.
#[derive(Debug, PartialEq, Eq)]
pub struct BenchmarkRun {
    prompts: Vec<String>,
    sent: usize,
    metrics: Vec<PromptMetrics>,
}

/// What a benchmark that runs has done.
pub struct RunView {
    pub prompts: Seq<Seq<char>>,
    /// How many of the prompts have been sent.
    pub sent: nat,
    /// What was measured so far.
    pub metrics: Seq<PromptMetrics>,
}

impl View for BenchmarkRun {
    type V = RunView;

    closed spec fn view(&self) -> RunView {
        RunView { prompts: texts(self.prompts@), sent: self.sent as nat, metrics: self.metrics@ }
    }
}

/// A benchmark of which nothing has been sent.
pub open spec fn unsent(prompts: Seq<Seq<char>>) -> RunView {
    RunView { prompts, sent: 0, metrics: Seq::empty() }
}

/// A benchmark with what came of a prompt. A prompt that was not answered leaves nothing.
pub open spec fn with_outcome(run: RunView, outcome: Option<PromptMetrics>) -> RunView {
    match outcome {
        Some(m) => RunView { metrics: run.metrics.push(m), ..run },
        None => run,
    }
}

impl BenchmarkRun {
    /// No more prompts have been sent than there are.
    pub closed spec fn well_formed(self) -> bool {
        self.sent <= self.prompts@.len()
    }

    /// A benchmark of which nothing has been sent.
    pub fn new(benchmark: &BenchmarkConfig) -> (r: BenchmarkRun)
        ensures
            r.well_formed(),
            r@ == unsent(texts(benchmark.prompts@)),
    {
        let mut prompts: Vec<String> = Vec::new();
        let mut i: usize = 0;
        while i < benchmark.prompts.len()
            invariant
                i <= benchmark.prompts@.len(),
                prompts@.len() == i,
                forall|k: int| 0 <= k < i ==> (#[trigger] prompts@[k])@ == benchmark.prompts@[k]@,
            decreases benchmark.prompts@.len() - i,
        {
            prompts.push(benchmark.prompts[i].clone());
            i = i + 1;
        }
        let r = BenchmarkRun { prompts, sent: 0, metrics: Vec::new() };
        assert(r@.prompts =~= texts(benchmark.prompts@));
        r
    }

    /// The prompt to send next with its place, the first one being that at 0, until all have been
    /// sent.
    pub fn next_prompt(&mut self) -> (r: Option<(usize, String)>)
        requires
            old(self).well_formed(),
        ensures
            final(self).well_formed(),
            r is Some <==> old(self)@.sent < old(self)@.prompts.len(),
            r is None ==> final(self)@ == old(self)@,
            r matches Some(next) ==> {
                &&& next.0 == old(self)@.sent
                &&& next.1@ == old(self)@.prompts[old(self)@.sent as int]
                &&& final(self)@ == (RunView { sent: old(self)@.sent + 1, ..old(self)@ })
            },
    {
        if self.sent < self.prompts.len() {
            let index = self.sent;
            let prompt = self.prompts[index].clone();
            self.sent = index + 1;
            Some((index, prompt))
        } else {
            None
        }
    }

    /// Takes what came of the prompt that was sent last.
    pub fn take_outcome(&mut self, outcome: Option<PromptMetrics>)
        requires
            old(self).well_formed(),
        ensures
            final(self).well_formed(),
            final(self)@ == with_outcome(old(self)@, outcome),
    {
        if let Some(m) = outcome {
            self.metrics.push(m);
        }
    }

    /// What was measured, in the order of the prompts.
    pub fn into_metrics(self) -> (r: Vec<PromptMetrics>)
        ensures
            r@ == self@.metrics,
    {
        self.metrics
    }
}

/// What was measured among what came of some prompts.
pub open spec fn measured(outcomes: Seq<Option<PromptMetrics>>) -> Seq<PromptMetrics>
    decreases outcomes.len(),
{
    if outcomes.len() == 0 {
        Seq::empty()
    } else {
        match outcomes.last() {
            Some(m) => measured(outcomes.drop_last()).push(m),
            None => measured(outcomes.drop_last()),
        }
    }
}

/// A benchmark after as many rounds as there are outcomes, and the prompts that were sent: in each
/// round the next prompt is sent and what came of it is taken.
pub open spec fn after_rounds(run: RunView, outcomes: Seq<Option<PromptMetrics>>) -> (
    RunView,
    Seq<Seq<char>>,
)
    decreases outcomes.len(),
{
    if outcomes.len() == 0 {
        (run, Seq::empty())
    } else {
        let (before, sent) = after_rounds(run, outcomes.drop_last());
        (
            with_outcome(RunView { sent: before.sent + 1, ..before }, outcomes.last()),
            sent.push(before.prompts[before.sent as int]),
        )
    }
}

/// Every prompt of a benchmark is sent once, in order, and what was measured is kept in that
/// order.
pub proof fn law_each_prompt_is_sent_once(
    prompts: Seq<Seq<char>>,
    outcomes: Seq<Option<PromptMetrics>>,
)
    requires
        outcomes.len() <= prompts.len(),
    ensures
        after_rounds(unsent(prompts), outcomes).0 == (RunView {
            prompts,
            sent: outcomes.len(),
            metrics: measured(outcomes),
        }),
        after_rounds(unsent(prompts), outcomes).1 == prompts.take(outcomes.len() as int),
        outcomes.len() == prompts.len() ==> after_rounds(unsent(prompts), outcomes).1 == prompts,
    decreases outcomes.len(),
{
    let n = outcomes.len() as int;
    if n == 0 {
        assert(prompts.take(0) =~= Seq::empty());
    } else {
        law_each_prompt_is_sent_once(prompts, outcomes.drop_last());
        assert(prompts.take(n) =~= prompts.take(n - 1).push(prompts[n - 1]));
    }
    if n == prompts.len() {
        assert(prompts.take(n) =~= prompts);
    }
}

/// What the fingerprint of all responses is taken of: their fingerprints whole, one after the
/// other. A prompt more adds its own at the end, and with one prompt it is that one's.
pub proof fn law_whole_fingerprints_are_hashed(
    metrics: Seq<PromptMetrics>,
    more: Seq<PromptMetrics>,
    m: PromptMetrics,
)
    ensures
        concatenated(hashes(Seq::empty())).len() == 0,
        concatenated(hashes(seq![m])) == m.response_hash@,
        concatenated(hashes(metrics.push(m))) == concatenated(hashes(metrics)) + m.response_hash@,
        concatenated(hashes(metrics + more)) == concatenated(hashes(metrics)) + concatenated(
            hashes(more),
        ),
        concatenated(hashes(metrics)).len() == metrics.fold_left(
            0nat,
            |n: nat, p: PromptMetrics| n + p.response_hash@.len(),
        ),
    decreases metrics.len(),
{
    law_texts_add_up(hashes(metrics), hashes(more), m.response_hash@);
    assert(hashes(metrics + more) =~= hashes(metrics) + hashes(more));
    assert(hashes(metrics.push(m)) =~= hashes(metrics).push(m.response_hash@));
    assert(hashes(seq![m]) =~= seq![m.response_hash@]);
    if metrics.len() > 0 {
        law_whole_fingerprints_are_hashed(metrics.drop_last(), more, m);
        assert(hashes(metrics) =~= hashes(metrics.drop_last()).push(metrics.last().response_hash@));
        law_texts_add_up(hashes(metrics.drop_last()), hashes(more), metrics.last().response_hash@);
    }
}

/// A prompt more adds its tokens to the sum, and keeps it reported only where its own number is.
pub proof fn law_prompt_adds_its_tokens(metrics: Seq<PromptMetrics>, m: PromptMetrics)
    ensures
        token_sum(Seq::empty()) == 0,
        all_actual(Seq::empty()),
        token_sum(metrics.push(m)) == token_sum(metrics) + m.tokens,
        all_actual(metrics.push(m)) <==> all_actual(metrics) && m.tokens_actual,
{
    assert(metrics.push(m).drop_last() =~= metrics);
    law_summaries_add_up(metrics, seq![m]);
    assert(metrics + seq![m] =~= metrics.push(m));
    assert(seq![m][0] == m);
    if m.tokens_actual {
        assert(all_actual(seq![m]));
    }
}

/// Everything that was measured is kept, and nothing else: an outcome with a measurement adds it
/// at the end, and one without leaves all as it is.
pub proof fn law_measurements_are_kept(
    run: RunView,
    outcomes: Seq<Option<PromptMetrics>>,
    m: PromptMetrics,
)
    ensures
        measured(Seq::empty()).len() == 0,
        measured(outcomes.push(Some(m))) == measured(outcomes).push(m),
        measured(outcomes.push(None)) == measured(outcomes),
        with_outcome(run, Some(m)).metrics == run.metrics.push(m),
        with_outcome(run, None) == run,
        with_outcome(run, Some(m)).sent == run.sent,
        with_outcome(run, Some(m)).prompts == run.prompts,
        unsent(run.prompts).prompts == run.prompts,
        unsent(run.prompts).sent == 0,
        unsent(run.prompts).metrics.len() == 0,
{
    assert(outcomes.push(Some(m)).drop_last() =~= outcomes);
    assert(outcomes.push(None::<PromptMetrics>).drop_last() =~= outcomes);
}

/// What is shown of a benchmark names it, its model, its temperature, its seed, its endpoint and
/// the number of its prompts, each in full; and before each prompt its number, counted from one,
/// and the prompt as it is sent.
pub proof fn law_benchmark_is_named_in_full(
    benchmark: BenchmarkConfig,
    model: Seq<char>,
    endpoint: Seq<char>,
    index: nat,
    prompt: Seq<char>,
    write: spec_fn(Figure) -> Seq<char>,
)
    ensures
        benchmark_header_of(benchmark, model, endpoint).len() == 5,
        spoken(benchmark_header_of(benchmark, model, endpoint)[0], write) == "Running benchmark: "@
            + benchmark.name@,
        spoken(benchmark_header_of(benchmark, model, endpoint)[1], write) == "Model: "@ + model
            + " | Temperature: "@ + write(Figure::Shortest(benchmark.temperature)) + " | Seed: "@ + (
        match benchmark.seed {
            Some(n) => signed_decimal(n as int),
            None => "None"@,
        }),
        spoken(benchmark_header_of(benchmark, model, endpoint)[2], write) == "Endpoint: "@
            + endpoint,
        spoken(benchmark_header_of(benchmark, model, endpoint)[3], write) == "Prompts: "@ + decimal(
            benchmark.prompts@.len(),
        ),
        spoken(benchmark_header_of(benchmark, model, endpoint)[4], write).len() == 0,
        prompt_banner_of(index, prompt).len() == 2,
        spoken(prompt_banner_of(index, prompt)[0], write) == "Prompt "@ + decimal(index + 1)
            + ": \""@ + prompt + "\""@,
        spoken(prompt_banner_of(index, prompt)[1], write).len() == 80,
        forall|i: int|
            0 <= i < 80 ==> #[trigger] spoken(prompt_banner_of(index, prompt)[1], write)[i] == '━',
{
    let all = benchmark_header_of(benchmark, model, endpoint);
    let out = Stream::Stdout;
    let ink = Ink::Dimmed;
    let hue = Hue::Green;
    law_text_is_said_whole(out, ink, hue, "Running benchmark: "@ + benchmark.name@, write);
    law_text_is_said_whole(out, ink, hue, ""@, write);
    reveal_strlit("");
    law_text_is_said_whole(
        out,
        ink,
        hue,
        "Prompts: "@ + decimal(benchmark.prompts@.len()),
        write,
    );
    reveal_with_fuel(spans_from, 8);
    reveal_with_fuel(pieces_from, 3);
    assert(spoken(all[1], write) =~= "Model: "@ + model + " | Temperature: "@ + write(
        Figure::Shortest(benchmark.temperature),
    ) + " | Seed: "@ + seed_text(benchmark.seed));
    assert(spoken(all[2], write) =~= "Endpoint: "@ + endpoint);
    law_text_is_said_whole(
        out,
        ink,
        Hue::Yellow,
        "Prompt "@ + decimal(index + 1) + ": \""@ + prompt + "\""@,
        write,
    );
    law_text_is_said_whole(out, ink, hue, rule_text(), write);
}

/// A warning about the measurement of the machine gives the whole reason, on the standard error.
pub proof fn law_monitor_warning_gives_reason(
    reason: Seq<char>,
    write: spec_fn(Figure) -> Seq<char>,
)
    ensures
        spoken(monitor_warning_of(MonitorFault::Start, reason), write)
            == "Warning: Failed to start metrics monitoring: "@ + reason,
        spoken(monitor_warning_of(MonitorFault::Stop, reason), write)
            == "Warning: Failed to collect system metrics: "@ + reason,
        monitor_warning_of(MonitorFault::Start, reason).stream == Stream::Stderr,
        monitor_warning_of(MonitorFault::Start, reason).spans[0].ink == Ink::Color(Hue::Yellow),
        monitor_warning_of(MonitorFault::Stop, reason).spans[0].ink == Ink::Color(Hue::Yellow),
        monitor_warning_of(MonitorFault::Stop, reason).stream == Stream::Stderr,
{
    law_text_is_said_whole(
        Stream::Stderr,
        Ink::Plain,
        Hue::Yellow,
        "Warning: Failed to start metrics monitoring: "@ + reason,
        write,
    );
    law_text_is_said_whole(
        Stream::Stderr,
        Ink::Plain,
        Hue::Yellow,
        "Warning: Failed to collect system metrics: "@ + reason,
        write,
    );
}

} // verus!
