//! What is shown of a benchmark when it has run.
use crate::benchmark::{BenchmarkSummary, PromptMetrics, Spread, RULE_WIDTH};
#[allow(unused_imports)]
use crate::benchmark::rule_text;
use crate::output::{
    append_lines, head, hued, one, say, write_parts, Figure, Line, Piece, Single, Stream,
};
#[allow(unused_imports)]
use crate::output::{
    framed_in, headed, hued_text, law_lines_say_their_spans, law_pieces_join,
    law_spans_say_what_they_hold, law_text_is_said_whole, line_of, lines_of, piece_text, pieces,
    pieces_from, said, spoken, written, LineView, PieceView, SpanView,
};
use crate::paint::Hue;
#[allow(unused_imports)]
use crate::paint::Ink;
use crate::system_metrics::{CoreMetrics, MemoryMetrics, PowerMetrics, SystemMetricsStats};
use crate::text::{concat, decimal_text, repeat, truncate};
#[allow(unused_imports)]
use crate::text::{at_most, decimal, lemma_decimal_starts, texts};
use comfy_table::Table;
use vstd::prelude::*;

verus! {

/// A number of tokens as it is shown: with a mark where it was not reported.
pub open spec fn token_text(tokens: nat, actual: bool) -> Seq<char> {
    if actual {
        decimal(tokens)
    } else {
        "~"@ + decimal(tokens)
    }
}

/// A number of tokens as it is shown.
pub fn show_tokens(tokens: usize, actual: bool) -> (r: String)
    ensures
        r@ == token_text(tokens as nat, actual),
{
    let digits = decimal_text(tokens as u64);
    if actual {
        digits
    } else {
        concat("~", digits.as_str())
    }
}

/// The figures of a prompt in the table of results.
#[derive(Clone, Copy, PartialEq, Eq, Structural, Debug)]
pub struct ResultFigures {
    pub ttft: Figure,
    pub total_time: Figure,
    pub speed: Figure,
}

/// The figures of a prompt in the table of results, written out.
#[derive(Debug, PartialEq, Eq)]
pub struct WrittenFigures {
    pub ttft: String,
    pub total_time: String,
    pub speed: String,
}

/// The figures of a prompt in the table of results: two times in seconds, and the speed with one
/// decimal place.
pub fn result_figures(m: &PromptMetrics) -> (r: ResultFigures)
    ensures
        r == (ResultFigures {
            ttft: Figure::Seconds(m.ttft),
            total_time: Figure::Seconds(m.total_time),
            speed: Figure::Double(m.speed, 1),
        }),
{
    ResultFigures {
        ttft: Figure::Seconds(m.ttft),
        total_time: Figure::Seconds(m.total_time),
        speed: Figure::Double(m.speed, 1),
    }
}

/// The cells of a prompt's row in the table of results, the first prompt being that at 0.
pub open spec fn result_row_of(index: nat, m: PromptMetrics, figures: WrittenFigures) -> Seq<
    Seq<char>,
> {
    seq![
        decimal(index + 1),
        figures.ttft@ + "s"@,
        figures.total_time@ + "s"@,
        token_text(m.tokens as nat, m.tokens_actual),
        figures.speed@ + " t/s"@,
        decimal(m.response_length as nat),
        at_most(m.response_hash@, 8),
    ]
}

/// The cells of the table of results: a row for each prompt, in their order.
pub open spec fn result_rows_of(
    metrics: Seq<PromptMetrics>,
    figures: Seq<WrittenFigures>,
) -> Seq<Seq<Seq<char>>> {
    Seq::new(metrics.len(), |i: int| result_row_of(i as nat, metrics[i], figures[i]))
}

/// The cells of a prompt's row in the table of results.
pub fn result_row(index: usize, m: &PromptMetrics, figures: &WrittenFigures) -> (r: Vec<String>)
    requires
        index < usize::MAX,
    ensures
        texts(r@) == result_row_of(index as nat, *m, *figures),
{
    let r: Vec<String> = vec![
        decimal_text((index + 1) as u64),
        concat(figures.ttft.as_str(), "s"),
        concat(figures.total_time.as_str(), "s"),
        show_tokens(m.tokens, m.tokens_actual),
        concat(figures.speed.as_str(), " t/s"),
        decimal_text(m.response_length as u64),
        truncate(m.response_hash.as_str(), 8),
    ];
    assert(texts(r@) =~= result_row_of(index as nat, *m, *figures));
    r
}

/// The cells of the table of results: a row for each prompt, in their order.
pub fn result_rows(metrics: &Vec<PromptMetrics>, figures: &Vec<WrittenFigures>) -> (r: Vec<
    Vec<String>,
>)
    requires
        figures@.len() == metrics@.len(),
    ensures
        cell_texts(r@) == result_rows_of(metrics@, figures@),
{
    let mut r: Vec<Vec<String>> = Vec::new();
    let total = metrics.len();
    let mut i: usize = 0;
    while i < total
        invariant
            i <= total,
            total == metrics@.len(),
            total == figures@.len(),
            r@.len() == i,
            forall|k: int|
                0 <= k < i ==> texts((#[trigger] r@[k])@) == result_row_of(
                    k as nat,
                    metrics@[k],
                    figures@[k],
                ),
        decreases total - i,
    {
        r.push(result_row(i, &metrics[i], &figures[i]));
        i = i + 1;
    }
    assert(cell_texts(r@) =~= result_rows_of(metrics@, figures@));
    r
}

/// The texts of a table's cells, row by row.
pub open spec fn cell_texts(rows: Seq<Vec<String>>) -> Seq<Seq<Seq<char>>> {
    rows.map_values(|row: Vec<String>| texts(row@))
}

/// How `comfy_table` draws a table in a preset, with the given header and rows.
pub uninterp spec fn table_text(
    preset: Seq<char>,
    header: Seq<Seq<char>>,
    rows: Seq<Seq<Seq<char>>>,
) -> Seq<char>;

/// Draws a `comfy_table::Table` by `Table::load_preset`, `Table::set_header`, `Table::add_rows`
/// and `Display`. No width is set and no cell is styled, so the drawing depends on the preset and
/// the texts of the header and the cells alone.
#[verifier::external_body]
fn draw_table(preset: &str, header: Vec<String>, rows: Vec<Vec<String>>) -> (r: String)
    ensures
        r@ == table_text(preset@, texts(header@), cell_texts(rows@)),
{
    let mut table = Table::new();
    table.load_preset(preset).set_header(header).add_rows(rows);
    table.to_string()
}

/// The characters that the table of results is drawn with: full borders, and lines between the
/// rows.
pub const TABLE_PRESET: &'static str = "││──╞═╪╡┆╌┼├┤┬┴┌┐└┘";

/// The header of the table of results.
pub open spec fn results_header() -> Seq<Seq<char>> {
    seq!["#"@, "TTFT"@, "Time"@, "Tokens"@, "Speed"@, "Len"@, "Hash"@]
}

/// The table of results, by the texts of its cells.
pub fn results_table(rows: Vec<Vec<String>>) -> (r: String)
    ensures
        r@ == table_text(TABLE_PRESET@, results_header(), cell_texts(rows@)),
{
    let header: Vec<String> = vec![
        "#".to_owned(),
        "TTFT".to_owned(),
        "Time".to_owned(),
        "Tokens".to_owned(),
        "Speed".to_owned(),
        "Len".to_owned(),
        "Hash".to_owned(),
    ];
    assert(texts(header@) =~= results_header());
    draw_table(TABLE_PRESET, header, rows)
}

/// A rule across the terminal.
pub open spec fn green_rule() -> LineView {
    line_of(Stream::Stdout, hued_text(Hue::Green, rule_text()))
}

/// A title between two rules.
pub open spec fn title_lines(title: Seq<char>) -> Seq<LineView> {
    seq![green_rule(), headed(Hue::Green, title), green_rule()]
}

/// A rule across the terminal.
fn draw_rule() -> (r: Line)
    ensures
        r@ == green_rule(),
{
    one(Stream::Stdout, hued(Hue::Green, repeat('━', RULE_WIDTH).as_str()))
}

/// A title between two rules.
fn draw_title(title: &str) -> (r: Vec<Line>)
    ensures
        lines_of(r@) == title_lines(title@),
{
    let r: Vec<Line> = vec![draw_rule(), head(Hue::Green, title), draw_rule()];
    assert(lines_of(r@) =~= title_lines(title@));
    r
}

/// How numbers spread, with their unit. The deviation has its own number of decimal places.
pub open spec fn spread_line(s: Spread, unit: Seq<char>, places: u8, deviation: u8) -> LineView {
    written(
        seq![
            PieceView::Text("    Avg: "@),
            PieceView::Figure(Figure::Double(s.avg, places)),
            PieceView::Text(unit + " | Median: "@),
            PieceView::Figure(Figure::Double(s.median, places)),
            PieceView::Text(unit + " | Min: "@),
            PieceView::Figure(Figure::Double(s.min, places)),
            PieceView::Text(unit + " | Max: "@),
            PieceView::Figure(Figure::Double(s.max, places)),
            PieceView::Text(unit + " | StdDev: "@),
            PieceView::Figure(Figure::Double(s.stddev, deviation)),
            PieceView::Text(unit),
        ],
    )
}

/// How numbers spread, with their unit.
fn show_spread(s: &Spread, unit: &str, places: u8, deviation: u8) -> (r: Line)
    ensures
        r@ == spread_line(*s, unit@, places, deviation),
{
    let list: Vec<Piece> = vec![
        Piece::Text("    Avg: ".to_owned()),
        Piece::Figure(Figure::Double(s.avg, places)),
        Piece::Text(concat(unit, " | Median: ")),
        Piece::Figure(Figure::Double(s.median, places)),
        Piece::Text(concat(unit, " | Min: ")),
        Piece::Figure(Figure::Double(s.min, places)),
        Piece::Text(concat(unit, " | Max: ")),
        Piece::Figure(Figure::Double(s.max, places)),
        Piece::Text(concat(unit, " | StdDev: ")),
        Piece::Figure(Figure::Double(s.stddev, deviation)),
        Piece::Text(unit.to_owned()),
    ];
    assert(pieces(list@) =~= spread_line(*s, unit@, places, deviation).spans[0].pieces);
    write_parts(list)
}

/// A figure between two texts.
pub open spec fn figure_line(before: Seq<char>, figure: Figure, after: Seq<char>) -> LineView {
    written(seq![PieceView::Text(before), PieceView::Figure(figure), PieceView::Text(after)])
}

/// A figure between two texts.
fn show_figure(before: &str, figure: Figure, after: &str) -> (r: Line)
    ensures
        r@ == figure_line(before@, figure, after@),
{
    let list: Vec<Piece> = vec![
        Piece::Text(before.to_owned()),
        Piece::Figure(figure),
        Piece::Text(after.to_owned()),
    ];
    assert(pieces(list@) =~= figure_line(before@, figure, after@).spans[0].pieces);
    write_parts(list)
}

/// What is shown of the number of all tokens.
pub open spec fn total_tokens_text(tokens: nat, actual: bool) -> Seq<char> {
    if actual {
        "  Total Tokens: "@ + decimal(tokens) + " (actual)"@
    } else {
        "  Total Tokens: ~"@ + decimal(tokens) + " (estimated)"@
    }
}

/// What is shown of the number of all tokens.
fn show_total_tokens(tokens: usize, actual: bool) -> (r: String)
    ensures
        r@ == total_tokens_text(tokens as nat, actual),
{
    let digits = decimal_text(tokens as u64);
    if actual {
        concat(concat("  Total Tokens: ", digits.as_str()).as_str(), " (actual)")
    } else {
        concat(concat("  Total Tokens: ~", digits.as_str()).as_str(), " (estimated)")
    }
}

/// What is shown of a summary.
pub open spec fn summary_lines(summary: BenchmarkSummary) -> Seq<LineView> {
    seq![
        said("  Prompts:      "@ + decimal(summary.total_prompts as nat)),
        figure_line("  Total Time:   "@, Figure::Double(summary.total_time, 2), "s"@),
        said(total_tokens_text(summary.total_tokens as nat, summary.total_tokens_all_actual)),
        said("  Responses Hash: "@ + at_most(summary.responses_hash@, 16) + "..."@),
        said(""@),
        headed(Hue::Cyan, "  TTFT (Time to First Token):"@),
        spread_line(summary.ttft, "s"@, 2, 3),
        said(""@),
        headed(Hue::Cyan, "  Speed (tokens/sec):"@),
        spread_line(summary.speed, " t/s"@, 1, 2),
        green_rule(),
    ]
}

/// What is shown of a summary.
fn show_summary(summary: &BenchmarkSummary) -> (r: Vec<Line>)
    ensures
        lines_of(r@) == summary_lines(*summary),
{
    let count = concat("  Prompts:      ", decimal_text(summary.total_prompts as u64).as_str());
    let mut hash = "  Responses Hash: ".to_owned();
    hash.append(truncate(summary.responses_hash.as_str(), 16).as_str());
    hash.append("...");
    let tokens = show_total_tokens(summary.total_tokens, summary.total_tokens_all_actual);
    let r: Vec<Line> = vec![
        say(count.as_str()),
        show_figure("  Total Time:   ", Figure::Double(summary.total_time, 2), "s"),
        say(tokens.as_str()),
        say(hash.as_str()),
        say(""),
        head(Hue::Cyan, "  TTFT (Time to First Token):"),
        show_spread(&summary.ttft, "s", 2, 3),
        say(""),
        head(Hue::Cyan, "  Speed (tokens/sec):"),
        show_spread(&summary.speed, " t/s", 1, 2),
        draw_rule(),
    ];
    assert(lines_of(r@) =~= summary_lines(*summary));
    r
}

/// The least, the mean, the median and the greatest of some measurements.
pub open spec fn extent(
    label: Seq<char>,
    min: PieceView,
    mean: PieceView,
    median: PieceView,
    max: PieceView,
) -> Seq<PieceView> {
    seq![
        PieceView::Text(label + "Min: "@),
        min,
        PieceView::Text(" | Mean: "@),
        mean,
        PieceView::Text(" | Median: "@),
        median,
        PieceView::Text(" | Max: "@),
        max,
    ]
}

/// A number with the given number of decimal places.
pub open spec fn rounded(s: Single, places: u8) -> PieceView {
    PieceView::Figure(Figure::Single(s, places))
}

/// The least, the mean, the median and the greatest of some measurements.
fn show_extent(label: &str, min: Piece, mean: Piece, median: Piece, max: Piece) -> (r: Vec<Piece>)
    ensures
        pieces(r@) == extent(label@, min@, mean@, median@, max@),
{
    let r: Vec<Piece> = vec![
        Piece::Text(concat(label, "Min: ")),
        min,
        Piece::Text(" | Mean: ".to_owned()),
        mean,
        Piece::Text(" | Median: ".to_owned()),
        median,
        Piece::Text(" | Max: ".to_owned()),
        max,
    ];
    assert(pieces(r@) =~= extent(label@, min@, mean@, median@, max@));
    r
}

/// What is shown of some cores.
pub open spec fn core_lines(title: Seq<char>, c: CoreMetrics) -> Seq<LineView> {
    seq![
        headed(Hue::Cyan, title),
        written(
            extent(
                "    Freq (MHz):  "@,
                PieceView::Text(decimal(c.freq_mhz_min as nat)),
                rounded(c.freq_mhz_mean, 0),
                rounded(c.freq_mhz_median, 0),
                PieceView::Text(decimal(c.freq_mhz_max as nat)),
            ),
        ),
        written(
            extent(
                "    Usage (%):   "@,
                rounded(c.usage_percent_min, 1),
                rounded(c.usage_percent_mean, 1),
                rounded(c.usage_percent_median, 1),
                rounded(c.usage_percent_max, 1),
            ),
        ),
        said(""@),
    ]
}

/// What is shown of some cores.
fn show_cores(title: &str, c: &CoreMetrics) -> (r: Vec<Line>)
    ensures
        lines_of(r@) == core_lines(title@, *c),
{
    let frequency = show_extent(
        "    Freq (MHz):  ",
        Piece::Text(decimal_text(c.freq_mhz_min as u64)),
        Piece::Figure(Figure::Single(c.freq_mhz_mean, 0)),
        Piece::Figure(Figure::Single(c.freq_mhz_median, 0)),
        Piece::Text(decimal_text(c.freq_mhz_max as u64)),
    );
    let usage = show_singles(
        "    Usage (%):   ",
        c.usage_percent_min,
        c.usage_percent_mean,
        c.usage_percent_median,
        c.usage_percent_max,
        1,
    );
    let r: Vec<Line> = vec![
        head(Hue::Cyan, title),
        write_parts(frequency),
        write_parts(usage),
        say(""),
    ];
    assert(lines_of(r@) =~= core_lines(title@, *c));
    r
}

/// The least, the mean, the median and the greatest of measurements in single precision.
fn show_singles(
    label: &str,
    min: Single,
    mean: Single,
    median: Single,
    max: Single,
    places: u8,
) -> (r: Vec<Piece>)
    ensures
        pieces(r@) == extent(
            label@,
            rounded(min, places),
            rounded(mean, places),
            rounded(median, places),
            rounded(max, places),
        ),
{
    show_extent(
        label,
        Piece::Figure(Figure::Single(min, places)),
        Piece::Figure(Figure::Single(mean, places)),
        Piece::Figure(Figure::Single(median, places)),
        Piece::Figure(Figure::Single(max, places)),
    )
}

/// What is shown of the memory.
pub open spec fn memory_lines(m: MemoryMetrics) -> Seq<LineView> {
    seq![
        headed(Hue::Cyan, "  Memory:"@),
        written(
            extent(
                "    RAM (GB):    "@,
                rounded(m.ram_usage_gb_min, 2),
                rounded(m.ram_usage_gb_mean, 2),
                rounded(m.ram_usage_gb_median, 2),
                rounded(m.ram_usage_gb_max, 2),
            ),
        ),
        written(
            extent(
                "    Swap (GB):   "@,
                rounded(m.swap_usage_gb_min, 2),
                rounded(m.swap_usage_gb_mean, 2),
                rounded(m.swap_usage_gb_median, 2),
                rounded(m.swap_usage_gb_max, 2),
            ),
        ),
        said(""@),
    ]
}

/// What is shown of the memory.
fn show_memory(m: &MemoryMetrics) -> (r: Vec<Line>)
    ensures
        lines_of(r@) == memory_lines(*m),
{
    let ram = show_singles(
        "    RAM (GB):    ",
        m.ram_usage_gb_min,
        m.ram_usage_gb_mean,
        m.ram_usage_gb_median,
        m.ram_usage_gb_max,
        2,
    );
    let swap = show_singles(
        "    Swap (GB):   ",
        m.swap_usage_gb_min,
        m.swap_usage_gb_mean,
        m.swap_usage_gb_median,
        m.swap_usage_gb_max,
        2,
    );
    let r: Vec<Line> = vec![
        head(Hue::Cyan, "  Memory:"),
        write_parts(ram),
        write_parts(swap),
        say(""),
    ];
    assert(lines_of(r@) =~= memory_lines(*m));
    r
}

/// What is shown of the power that something draws, with the energy that it took in all.
pub open spec fn power_line(
    label: Seq<char>,
    min: Single,
    mean: Single,
    median: Single,
    max: Single,
    total: Single,
) -> LineView {
    written(
        extent(label, rounded(min, 2), rounded(mean, 2), rounded(median, 2), rounded(max, 2))
            + seq![
            PieceView::Text(" | Total: "@),
            PieceView::Figure(Figure::WattHours(total)),
            PieceView::Text(" Wh"@),
        ],
    )
}

/// What is shown of the power that something draws.
fn show_watts(
    label: &str,
    min: Single,
    mean: Single,
    median: Single,
    max: Single,
    total: Single,
) -> (r: Line)
    ensures
        r@ == power_line(label@, min, mean, median, max, total),
{
    let mut list = show_singles(label, min, mean, median, max, 2);
    let ghost front = pieces(list@);
    list.push(Piece::Text(" | Total: ".to_owned()));
    list.push(Piece::Figure(Figure::WattHours(total)));
    list.push(Piece::Text(" Wh".to_owned()));
    assert(pieces(list@) =~= front + seq![
        PieceView::Text(" | Total: "@),
        PieceView::Figure(Figure::WattHours(total)),
        PieceView::Text(" Wh"@),
    ]);
    write_parts(list)
}

/// What is shown of the power.
pub open spec fn power_lines(p: PowerMetrics) -> Seq<LineView> {
    seq![
        headed(Hue::Cyan, "  Power Consumption:"@),
        power_line(
            "    CPU (W):     "@,
            p.cpu_watts_min,
            p.cpu_watts_mean,
            p.cpu_watts_median,
            p.cpu_watts_max,
            p.cpu_watts_total,
        ),
        power_line(
            "    GPU (W):     "@,
            p.gpu_watts_min,
            p.gpu_watts_mean,
            p.gpu_watts_median,
            p.gpu_watts_max,
            p.gpu_watts_total,
        ),
        power_line(
            "    ANE (W):     "@,
            p.ane_watts_min,
            p.ane_watts_mean,
            p.ane_watts_median,
            p.ane_watts_max,
            p.ane_watts_total,
        ),
    ]
}

/// What is shown of the power.
fn show_power(p: &PowerMetrics) -> (r: Vec<Line>)
    ensures
        lines_of(r@) == power_lines(*p),
{
    let r: Vec<Line> = vec![
        head(Hue::Cyan, "  Power Consumption:"),
        show_watts(
            "    CPU (W):     ",
            p.cpu_watts_min,
            p.cpu_watts_mean,
            p.cpu_watts_median,
            p.cpu_watts_max,
            p.cpu_watts_total,
        ),
        show_watts(
            "    GPU (W):     ",
            p.gpu_watts_min,
            p.gpu_watts_mean,
            p.gpu_watts_median,
            p.gpu_watts_max,
            p.gpu_watts_total,
        ),
        show_watts(
            "    ANE (W):     ",
            p.ane_watts_min,
            p.ane_watts_mean,
            p.ane_watts_median,
            p.ane_watts_max,
            p.ane_watts_total,
        ),
    ];
    assert(lines_of(r@) =~= power_lines(*p));
    r
}

/// What is shown of the machine.
pub open spec fn system_lines(sm: SystemMetricsStats) -> Seq<LineView> {
    seq![said(""@)] + title_lines("SYSTEM METRICS"@) + seq![
        figure_line(
            "  Samples: "@ + decimal(sm.sample_count as nat) + " (~"@,
            Figure::Double(sm.duration_seconds, 1),
            "s)"@,
        ),
        said(""@),
    ] + core_lines("  Efficiency Cores:"@, sm.efficiency_cores) + core_lines(
        "  Performance Cores:"@,
        sm.performance_cores,
    ) + core_lines("  GPU:"@, sm.gpu) + memory_lines(sm.memory) + power_lines(sm.power) + seq![
        green_rule(),
    ]
}

/// What is shown of the machine.
fn show_system(sm: &SystemMetricsStats) -> (r: Vec<Line>)
    ensures
        lines_of(r@) == system_lines(*sm),
{
    let mut count = "  Samples: ".to_owned();
    count.append(decimal_text(sm.sample_count as u64).as_str());
    count.append(" (~");
    let samples: Vec<Line> = vec![
        show_figure(count.as_str(), Figure::Double(sm.duration_seconds, 1), "s)"),
        say(""),
    ];
    assert(lines_of(samples@) =~= seq![
        figure_line(count@, Figure::Double(sm.duration_seconds, 1), "s)"@),
        said(""@),
    ]);
    let end: Vec<Line> = vec![draw_rule()];
    assert(lines_of(end@) =~= seq![green_rule()]);
    let mut r: Vec<Line> = vec![say("")];
    assert(lines_of(r@) =~= seq![said(""@)]);
    append_lines(&mut r, draw_title("SYSTEM METRICS"));
    append_lines(&mut r, samples);
    append_lines(&mut r, show_cores("  Efficiency Cores:", &sm.efficiency_cores));
    append_lines(&mut r, show_cores("  Performance Cores:", &sm.performance_cores));
    append_lines(&mut r, show_cores("  GPU:", &sm.gpu));
    append_lines(&mut r, show_memory(&sm.memory));
    append_lines(&mut r, show_power(&sm.power));
    append_lines(&mut r, end);
    r
}

/// The table of results.
pub open spec fn results_table_of(
    metrics: Seq<PromptMetrics>,
    figures: Seq<WrittenFigures>,
) -> Seq<char> {
    table_text(TABLE_PRESET@, results_header(), result_rows_of(metrics, figures))
}

/// What is shown when a benchmark has run: the table of results, the summary, and the machine
/// where it was measured.
pub open spec fn benchmark_results(
    metrics: Seq<PromptMetrics>,
    figures: Seq<WrittenFigures>,
    summary: BenchmarkSummary,
    system_metrics: Option<SystemMetricsStats>,
) -> Seq<LineView> {
    title_lines("PER-PROMPT RESULTS"@) + seq![
        said(results_table_of(metrics, figures)),
        said(""@),
    ] + title_lines("BENCHMARK SUMMARY"@) + summary_lines(summary) + match system_metrics {
        Some(sm) => system_lines(sm),
        None => Seq::empty(),
    }
}

/// What is shown when a benchmark has run. `figures` are those of each prompt, written out.
pub fn display_benchmark_results(
    metrics: &Vec<PromptMetrics>,
    figures: &Vec<WrittenFigures>,
    summary: &BenchmarkSummary,
    system_metrics: &Option<SystemMetricsStats>,
) -> (r: Vec<Line>)
    requires
        figures@.len() == metrics@.len(),
    ensures
        lines_of(r@) == benchmark_results(metrics@, figures@, *summary, *system_metrics),
{
    let table = results_table(result_rows(metrics, figures));
    let mut r = draw_title("PER-PROMPT RESULTS");
    let drawn: Vec<Line> = vec![say(table.as_str()), say("")];
    assert(lines_of(drawn@) =~= seq![said(table@), said(""@)]);
    append_lines(&mut r, drawn);
    append_lines(&mut r, draw_title("BENCHMARK SUMMARY"));
    append_lines(&mut r, show_summary(summary));
    match system_metrics {
        Some(sm) => {
            append_lines(&mut r, show_system(sm));
        },
        None => {
            assert(lines_of(r@) =~= lines_of(r@) + Seq::empty());
        },
    }
    r
}

/// The table has a row for each prompt and no other, in the order of the prompts and numbered
/// from one. The number of tokens is marked where it was not reported, and the fingerprint is cut
/// to eight characters.
pub proof fn law_rows_follow_prompts(
    metrics: Seq<PromptMetrics>,
    figures: Seq<WrittenFigures>,
    i: int,
)
    requires
        figures.len() == metrics.len(),
        0 <= i < metrics.len(),
    ensures
        result_rows_of(metrics, figures).len() == metrics.len(),
        result_rows_of(metrics, figures)[i].len() == results_header().len(),
        result_rows_of(metrics, figures)[i][0] == decimal((i + 1) as nat),
        result_rows_of(metrics, figures)[i][3] == token_text(
            metrics[i].tokens as nat,
            metrics[i].tokens_actual,
        ),
        result_rows_of(metrics, figures)[i][3][0] == '~' <==> !metrics[i].tokens_actual,
        result_rows_of(metrics, figures)[i][6] == at_most(metrics[i].response_hash@, 8),
{
    reveal_strlit("~");
    let n = metrics[i].tokens as nat;
    lemma_decimal_starts(n);
    assert(("~"@ + decimal(n))[0] == "~"@[0]);
}

/// A number of tokens is shown in full; a tilde marks one that was not reported.
pub proof fn law_tokens_are_shown_in_full(tokens: nat)
    ensures
        token_text(tokens, true) == decimal(tokens),
        token_text(tokens, false) == "~"@ + decimal(tokens),
        total_tokens_text(tokens, true) == "  Total Tokens: "@ + decimal(tokens) + " (actual)"@,
        total_tokens_text(tokens, false) == "  Total Tokens: ~"@ + decimal(tokens)
            + " (estimated)"@,
{
}

/// The cells of a row are those of the columns: times and speed as they were written out, with
/// their units, and the length of the response in full.
pub proof fn law_cells_follow_columns(
    metrics: Seq<PromptMetrics>,
    figures: Seq<WrittenFigures>,
    i: int,
)
    requires
        figures.len() == metrics.len(),
        0 <= i < metrics.len(),
    ensures
        results_header() == seq!["#"@, "TTFT"@, "Time"@, "Tokens"@, "Speed"@, "Len"@, "Hash"@],
        result_rows_of(metrics, figures)[i][1] == figures[i].ttft@ + "s"@,
        result_rows_of(metrics, figures)[i][2] == figures[i].total_time@ + "s"@,
        result_rows_of(metrics, figures)[i][3] == (if metrics[i].tokens_actual {
            decimal(metrics[i].tokens as nat)
        } else {
            "~"@ + decimal(metrics[i].tokens as nat)
        }),
        result_rows_of(metrics, figures)[i][4] == figures[i].speed@ + " t/s"@,
        result_rows_of(metrics, figures)[i][5] == decimal(metrics[i].response_length as nat),
        result_rows_of(metrics, figures)[i][6].is_prefix_of(metrics[i].response_hash@),
        metrics[i].response_hash@.len() >= 8 ==> result_rows_of(metrics, figures)[i][6].len() == 8,
{
    let hash = metrics[i].response_hash@;
    assert(hash.take(hash.len() as int) =~= hash);
    assert(at_most(hash, 8).is_prefix_of(hash)) by {
        if hash.len() <= 8 {
            assert(hash.subrange(0, hash.len() as int) =~= hash);
        } else {
            assert(hash.take(8) =~= hash.subrange(0, 8));
        }
    }
}

/// A line of several parts says them one after the other.
pub proof fn law_figures_stand_between_texts(
    before: Seq<char>,
    figure: Figure,
    after: Seq<char>,
    list: Seq<PieceView>,
    write: spec_fn(Figure) -> Seq<char>,
)
    ensures
        spoken(figure_line(before, figure, after), write) == before + write(figure) + after,
        spoken(written(list), write) == pieces_from(list, 0, write),
        written(list).stream == Stream::Stdout,
        figure_line(before, figure, after).stream == Stream::Stdout,
{
    law_spans_say_what_they_hold(Ink::Plain, before, figure, after, write);
    let p = framed_in(Ink::Plain, before, figure, after);
    law_lines_say_their_spans(Stream::Stdout, p, p, p, write);
    let q = SpanView { ink: Ink::Plain, pieces: list };
    law_lines_say_their_spans(Stream::Stdout, q, q, q, write);
}

/// How numbers spread is shown by all five figures, each behind its name and with the unit.
pub proof fn law_spread_is_shown_whole(
    s: Spread,
    unit: Seq<char>,
    places: u8,
    deviation: u8,
    write: spec_fn(Figure) -> Seq<char>,
)
    ensures
        spoken(spread_line(s, unit, places, deviation), write) == ("    Avg: "@ + write(
            Figure::Double(s.avg, places),
        ) + unit) + (" | Median: "@ + write(Figure::Double(s.median, places)) + unit) + (
        " | Min: "@ + write(Figure::Double(s.min, places)) + unit) + (" | Max: "@ + write(
            Figure::Double(s.max, places),
        ) + unit) + (" | StdDev: "@ + write(Figure::Double(s.stddev, deviation)) + unit),
{
    reveal_with_fuel(pieces_from, 13);
    let list = spread_line(s, unit, places, deviation).spans[0].pieces;
    law_figures_stand_between_texts(unit, Figure::Double(s.avg, places), unit, list, write);
    lemma_five(
        "    Avg: "@,
        write(Figure::Double(s.avg, places)),
        " | Median: "@,
        write(Figure::Double(s.median, places)),
        " | Min: "@,
        write(Figure::Double(s.min, places)),
        " | Max: "@,
        write(Figure::Double(s.max, places)),
        " | StdDev: "@,
        write(Figure::Double(s.stddev, deviation)),
        unit,
    );
}

proof fn lemma_five(
    a: Seq<char>,
    av: Seq<char>,
    b: Seq<char>,
    bv: Seq<char>,
    c: Seq<char>,
    cv: Seq<char>,
    d: Seq<char>,
    dv: Seq<char>,
    e: Seq<char>,
    ev: Seq<char>,
    u: Seq<char>,
)
    ensures
        a + (av + ((u + b) + (bv + ((u + c) + (cv + ((u + d) + (dv + ((u + e) + (ev + (u
            + Seq::empty())))))))))) == (a + av + u) + (b + bv + u) + (c + cv + u) + (d + dv + u) + (e
            + ev + u),
{
    let last = e + ev + u;
    assert((u + e) + (ev + (u + Seq::empty())) =~= u + last);
    let fourth = (d + dv + u) + last;
    assert((u + d) + (dv + (u + last)) =~= u + fourth);
    let third = (c + cv + u) + fourth;
    assert((u + c) + (cv + (u + fourth)) =~= u + third);
    let second = (b + bv + u) + third;
    assert((u + b) + (bv + (u + third)) =~= u + second);
    assert(a + (av + (u + second)) =~= (a + av + u) + second);
    assert((a + av + u) + second =~= (a + av + u) + (b + bv + u) + (c + cv + u) + (d + dv + u) + (e
        + ev + u));
}

/// The least, the mean, the median and the greatest are shown each behind its name.
pub proof fn law_extent_is_shown_whole(
    label: Seq<char>,
    min: PieceView,
    mean: PieceView,
    median: PieceView,
    max: PieceView,
    write: spec_fn(Figure) -> Seq<char>,
)
    ensures
        pieces_from(extent(label, min, mean, median, max), 0, write) == (label + "Min: "@
            + piece_text(min, write)) + (" | Mean: "@ + piece_text(mean, write)) + (" | Median: "@
            + piece_text(median, write)) + (" | Max: "@ + piece_text(max, write)),
{
    reveal_with_fuel(pieces_from, 10);
    let a = piece_text(min, write);
    let b = piece_text(mean, write);
    let c = piece_text(median, write);
    let d = piece_text(max, write);
    let last = " | Max: "@ + d;
    assert(" | Max: "@ + (d + Seq::empty()) =~= last);
    let third = (" | Median: "@ + c) + last;
    assert(" | Median: "@ + (c + last) =~= third);
    let second = (" | Mean: "@ + b) + third;
    assert(" | Mean: "@ + (b + third) =~= second);
    assert((label + "Min: "@) + (a + second) =~= (label + "Min: "@ + a) + second);
    assert((label + "Min: "@ + a) + second =~= (label + "Min: "@ + a) + (" | Mean: "@ + b) + (
    " | Median: "@ + c) + last);
}

/// What four figures of a measurement say behind a label.
pub open spec fn extent_text(
    label: Seq<char>,
    min: Seq<char>,
    mean: Seq<char>,
    median: Seq<char>,
    max: Seq<char>,
) -> Seq<char> {
    (label + "Min: "@ + min) + (" | Mean: "@ + mean) + (" | Median: "@ + median) + (" | Max: "@
        + max)
}

/// The statistics of cores are shown whole, each by its own figures.
pub proof fn law_cores_are_shown_whole(
    title: Seq<char>,
    c: CoreMetrics,
    write: spec_fn(Figure) -> Seq<char>,
)
    ensures
        core_lines(title, c).len() == 4,
        spoken(core_lines(title, c)[0], write) == title,
        spoken(core_lines(title, c)[1], write) == extent_text(
            "    Freq (MHz):  "@,
            decimal(c.freq_mhz_min as nat),
            write(Figure::Single(c.freq_mhz_mean, 0)),
            write(Figure::Single(c.freq_mhz_median, 0)),
            decimal(c.freq_mhz_max as nat),
        ),
        spoken(core_lines(title, c)[2], write) == extent_text(
            "    Usage (%):   "@,
            write(Figure::Single(c.usage_percent_min, 1)),
            write(Figure::Single(c.usage_percent_mean, 1)),
            write(Figure::Single(c.usage_percent_median, 1)),
            write(Figure::Single(c.usage_percent_max, 1)),
        ),
{
    law_text_is_said_whole(Stream::Stdout, Ink::Plain, Hue::Cyan, title, write);
    let p = PieceView::Text(decimal(c.freq_mhz_min as nat));
    let q = PieceView::Text(decimal(c.freq_mhz_max as nat));
    let mean = rounded(c.freq_mhz_mean, 0);
    let median = rounded(c.freq_mhz_median, 0);
    lemma_extent_line("    Freq (MHz):  "@, p, mean, median, q, write);
    lemma_extent_line(
        "    Usage (%):   "@,
        rounded(c.usage_percent_min, 1),
        rounded(c.usage_percent_mean, 1),
        rounded(c.usage_percent_median, 1),
        rounded(c.usage_percent_max, 1),
        write,
    );
}

proof fn lemma_extent_line(
    label: Seq<char>,
    min: PieceView,
    mean: PieceView,
    median: PieceView,
    max: PieceView,
    write: spec_fn(Figure) -> Seq<char>,
)
    ensures
        spoken(written(extent(label, min, mean, median, max)), write) == extent_text(
            label,
            piece_text(min, write),
            piece_text(mean, write),
            piece_text(median, write),
            piece_text(max, write),
        ),
{
    law_extent_is_shown_whole(label, min, mean, median, max, write);
    law_figures_stand_between_texts(
        label,
        Figure::Percent { count: 0, limit: 0 },
        label,
        extent(label, min, mean, median, max),
        write,
    );
}

/// The statistics of the memory are shown whole, each by its own figures.
pub proof fn law_memory_is_shown_whole(m: MemoryMetrics, write: spec_fn(Figure) -> Seq<char>)
    ensures
        memory_lines(m).len() == 4,
        spoken(memory_lines(m)[1], write) == extent_text(
            "    RAM (GB):    "@,
            write(Figure::Single(m.ram_usage_gb_min, 2)),
            write(Figure::Single(m.ram_usage_gb_mean, 2)),
            write(Figure::Single(m.ram_usage_gb_median, 2)),
            write(Figure::Single(m.ram_usage_gb_max, 2)),
        ),
        spoken(memory_lines(m)[2], write) == extent_text(
            "    Swap (GB):   "@,
            write(Figure::Single(m.swap_usage_gb_min, 2)),
            write(Figure::Single(m.swap_usage_gb_mean, 2)),
            write(Figure::Single(m.swap_usage_gb_median, 2)),
            write(Figure::Single(m.swap_usage_gb_max, 2)),
        ),
{
    lemma_extent_line(
        "    RAM (GB):    "@,
        rounded(m.ram_usage_gb_min, 2),
        rounded(m.ram_usage_gb_mean, 2),
        rounded(m.ram_usage_gb_median, 2),
        rounded(m.ram_usage_gb_max, 2),
        write,
    );
    lemma_extent_line(
        "    Swap (GB):   "@,
        rounded(m.swap_usage_gb_min, 2),
        rounded(m.swap_usage_gb_mean, 2),
        rounded(m.swap_usage_gb_median, 2),
        rounded(m.swap_usage_gb_max, 2),
        write,
    );
}

proof fn lemma_power_line(
    label: Seq<char>,
    min: Single,
    mean: Single,
    median: Single,
    max: Single,
    total: Single,
    write: spec_fn(Figure) -> Seq<char>,
)
    ensures
        spoken(power_line(label, min, mean, median, max, total), write) == extent_text(
            label,
            write(Figure::Single(min, 2)),
            write(Figure::Single(mean, 2)),
            write(Figure::Single(median, 2)),
            write(Figure::Single(max, 2)),
        ) + (" | Total: "@ + write(Figure::WattHours(total)) + " Wh"@),
{
    let front = extent(
        label,
        rounded(min, 2),
        rounded(mean, 2),
        rounded(median, 2),
        rounded(max, 2),
    );
    let back = seq![
        PieceView::Text(" | Total: "@),
        PieceView::Figure(Figure::WattHours(total)),
        PieceView::Text(" Wh"@),
    ];
    law_extent_is_shown_whole(
        label,
        rounded(min, 2),
        rounded(mean, 2),
        rounded(median, 2),
        rounded(max, 2),
        write,
    );
    law_pieces_join(front, back, 0, write);
    law_figures_stand_between_texts(label, Figure::WattHours(total), label, front + back, write);
    reveal_with_fuel(pieces_from, 5);
    assert(pieces_from(back, 0, write) =~= " | Total: "@ + write(Figure::WattHours(total)) + " Wh"@);
}

/// The power that was drawn is shown whole, for each part of the machine by its own figures.
pub proof fn law_power_is_shown_whole(p: PowerMetrics, write: spec_fn(Figure) -> Seq<char>)
    ensures
        power_lines(p).len() == 4,
        spoken(power_lines(p)[1], write) == extent_text(
            "    CPU (W):     "@,
            write(Figure::Single(p.cpu_watts_min, 2)),
            write(Figure::Single(p.cpu_watts_mean, 2)),
            write(Figure::Single(p.cpu_watts_median, 2)),
            write(Figure::Single(p.cpu_watts_max, 2)),
        ) + (" | Total: "@ + write(Figure::WattHours(p.cpu_watts_total)) + " Wh"@),
        spoken(power_lines(p)[2], write) == extent_text(
            "    GPU (W):     "@,
            write(Figure::Single(p.gpu_watts_min, 2)),
            write(Figure::Single(p.gpu_watts_mean, 2)),
            write(Figure::Single(p.gpu_watts_median, 2)),
            write(Figure::Single(p.gpu_watts_max, 2)),
        ) + (" | Total: "@ + write(Figure::WattHours(p.gpu_watts_total)) + " Wh"@),
        spoken(power_lines(p)[3], write) == extent_text(
            "    ANE (W):     "@,
            write(Figure::Single(p.ane_watts_min, 2)),
            write(Figure::Single(p.ane_watts_mean, 2)),
            write(Figure::Single(p.ane_watts_median, 2)),
            write(Figure::Single(p.ane_watts_max, 2)),
        ) + (" | Total: "@ + write(Figure::WattHours(p.ane_watts_total)) + " Wh"@),
{
    lemma_power_line(
        "    CPU (W):     "@,
        p.cpu_watts_min,
        p.cpu_watts_mean,
        p.cpu_watts_median,
        p.cpu_watts_max,
        p.cpu_watts_total,
        write,
    );
    lemma_power_line(
        "    GPU (W):     "@,
        p.gpu_watts_min,
        p.gpu_watts_mean,
        p.gpu_watts_median,
        p.gpu_watts_max,
        p.gpu_watts_total,
        write,
    );
    lemma_power_line(
        "    ANE (W):     "@,
        p.ane_watts_min,
        p.ane_watts_mean,
        p.ane_watts_median,
        p.ane_watts_max,
        p.ane_watts_total,
        write,
    );
}

/// A summary is shown whole: the numbers of prompts and tokens, the total time, the beginning of
/// the fingerprint, and how times and speeds spread, each by its own figures.
pub proof fn law_summary_is_shown_whole(
    summary: BenchmarkSummary,
    write: spec_fn(Figure) -> Seq<char>,
)
    ensures
        summary_lines(summary).len() == 11,
        spoken(summary_lines(summary)[0], write) == "  Prompts:      "@ + decimal(
            summary.total_prompts as nat,
        ),
        spoken(summary_lines(summary)[1], write) == "  Total Time:   "@ + write(
            Figure::Double(summary.total_time, 2),
        ) + "s"@,
        spoken(summary_lines(summary)[2], write) == (if summary.total_tokens_all_actual {
            "  Total Tokens: "@ + decimal(summary.total_tokens as nat) + " (actual)"@
        } else {
            "  Total Tokens: ~"@ + decimal(summary.total_tokens as nat) + " (estimated)"@
        }),
        spoken(summary_lines(summary)[3], write) == "  Responses Hash: "@ + at_most(
            summary.responses_hash@,
            16,
        ) + "..."@,
        spoken(summary_lines(summary)[5], write) == "  TTFT (Time to First Token):"@,
        spoken(summary_lines(summary)[8], write) == "  Speed (tokens/sec):"@,
        summary_lines(summary)[10] == green_rule(),
        summary_lines(summary)[6] == spread_line(summary.ttft, "s"@, 2, 3),
        summary_lines(summary)[9] == spread_line(summary.speed, " t/s"@, 1, 2),
{
    let out = Stream::Stdout;
    let ink = Ink::Plain;
    let hue = Hue::Cyan;
    law_text_is_said_whole(
        out,
        ink,
        hue,
        "  Prompts:      "@ + decimal(summary.total_prompts as nat),
        write,
    );
    law_text_is_said_whole(
        out,
        ink,
        hue,
        total_tokens_text(summary.total_tokens as nat, summary.total_tokens_all_actual),
        write,
    );
    law_text_is_said_whole(
        out,
        ink,
        hue,
        "  Responses Hash: "@ + at_most(summary.responses_hash@, 16) + "..."@,
        write,
    );
    law_text_is_said_whole(out, ink, hue, "  TTFT (Time to First Token):"@, write);
    law_text_is_said_whole(out, ink, hue, "  Speed (tokens/sec):"@, write);
    law_figures_stand_between_texts(
        "  Total Time:   "@,
        Figure::Double(summary.total_time, 2),
        "s"@,
        Seq::empty(),
        write,
    );
}

/// All results are shown: the table of every prompt, the summary behind it, and the machine behind
/// that where it was measured, with all its parts.
pub proof fn law_results_are_shown_whole(
    metrics: Seq<PromptMetrics>,
    figures: Seq<WrittenFigures>,
    summary: BenchmarkSummary,
    sm: SystemMetricsStats,
    write: spec_fn(Figure) -> Seq<char>,
)
    ensures
        ({
            let bare = benchmark_results(metrics, figures, summary, None);
            let full = benchmark_results(metrics, figures, summary, Some(sm));
            &&& bare.len() == 19
            &&& spoken(bare[1], write) == "PER-PROMPT RESULTS"@
            &&& spoken(bare[3], write) == table_text(
                TABLE_PRESET@,
                results_header(),
                result_rows_of(metrics, figures),
            )
            &&& spoken(bare[6], write) == "BENCHMARK SUMMARY"@
            &&& bare.skip(8) == summary_lines(summary)
            &&& full == bare + system_lines(sm)
            &&& system_lines(sm).len() == 27
            &&& spoken(system_lines(sm)[2], write) == "SYSTEM METRICS"@
            &&& spoken(system_lines(sm)[4], write) == "  Samples: "@ + decimal(
                sm.sample_count as nat,
            ) + " (~"@ + write(Figure::Double(sm.duration_seconds, 1)) + "s)"@
            &&& system_lines(sm).subrange(6, 10) == core_lines(
                "  Efficiency Cores:"@,
                sm.efficiency_cores,
            )
            &&& system_lines(sm).subrange(10, 14) == core_lines(
                "  Performance Cores:"@,
                sm.performance_cores,
            )
            &&& system_lines(sm).subrange(14, 18) == core_lines("  GPU:"@, sm.gpu)
            &&& system_lines(sm).subrange(18, 22) == memory_lines(sm.memory)
            &&& system_lines(sm).subrange(22, 26) == power_lines(sm.power)
        }),
{
    let out = Stream::Stdout;
    let ink = Ink::Plain;
    let hue = Hue::Green;
    law_text_is_said_whole(out, ink, hue, "PER-PROMPT RESULTS"@, write);
    law_text_is_said_whole(out, ink, hue, "BENCHMARK SUMMARY"@, write);
    law_text_is_said_whole(out, ink, hue, "SYSTEM METRICS"@, write);
    law_text_is_said_whole(out, ink, hue, results_table_of(metrics, figures), write);
    law_figures_stand_between_texts(
        "  Samples: "@ + decimal(sm.sample_count as nat) + " (~"@,
        Figure::Double(sm.duration_seconds, 1),
        "s)"@,
        Seq::empty(),
        write,
    );
    lemma_parts_of_system(sm);
    lemma_parts_of_results(metrics, figures, summary);
    let bare = benchmark_results(metrics, figures, summary, None);
    assert(benchmark_results(metrics, figures, summary, Some(sm)) =~= bare + system_lines(sm));
}

proof fn lemma_parts_of_results(
    metrics: Seq<PromptMetrics>,
    figures: Seq<WrittenFigures>,
    summary: BenchmarkSummary,
)
    ensures
        ({
            let bare = benchmark_results(metrics, figures, summary, None);
            &&& bare.len() == 19
            &&& bare[1] == headed(Hue::Green, "PER-PROMPT RESULTS"@)
            &&& bare[3] == said(results_table_of(metrics, figures))
            &&& bare[6] == headed(Hue::Green, "BENCHMARK SUMMARY"@)
            &&& bare.skip(8) == summary_lines(summary)
        }),
{
    let bare = benchmark_results(metrics, figures, summary, None);
    assert(bare.skip(8) =~= summary_lines(summary));
}

proof fn lemma_parts_of_system(sm: SystemMetricsStats)
    ensures
        system_lines(sm).len() == 27,
        system_lines(sm)[2] == headed(Hue::Green, "SYSTEM METRICS"@),
        system_lines(sm)[4] == figure_line(
            "  Samples: "@ + decimal(sm.sample_count as nat) + " (~"@,
            Figure::Double(sm.duration_seconds, 1),
            "s)"@,
        ),
        system_lines(sm).subrange(6, 10) == core_lines("  Efficiency Cores:"@, sm.efficiency_cores),
        system_lines(sm).subrange(10, 14) == core_lines(
            "  Performance Cores:"@,
            sm.performance_cores,
        ),
        system_lines(sm).subrange(14, 18) == core_lines("  GPU:"@, sm.gpu),
        system_lines(sm).subrange(18, 22) == memory_lines(sm.memory),
        system_lines(sm).subrange(22, 26) == power_lines(sm.power),
{
    let all = system_lines(sm);
    assert(all.subrange(6, 10) =~= core_lines("  Efficiency Cores:"@, sm.efficiency_cores));
    assert(all.subrange(10, 14) =~= core_lines("  Performance Cores:"@, sm.performance_cores));
    assert(all.subrange(14, 18) =~= core_lines("  GPU:"@, sm.gpu));
    assert(all.subrange(18, 22) =~= memory_lines(sm.memory));
    assert(all.subrange(22, 26) =~= power_lines(sm.power));
}

/// A rule is a line of eighty dashes, and a title stands between two of them.
pub proof fn law_titles_stand_between_rules(title: Seq<char>, write: spec_fn(Figure) -> Seq<char>)
    ensures
        spoken(green_rule(), write).len() == 80,
        forall|i: int| 0 <= i < 80 ==> #[trigger] spoken(green_rule(), write)[i] == '━',
        title_lines(title) == seq![green_rule(), headed(Hue::Green, title), green_rule()],
        spoken(title_lines(title)[1], write) == title,
{
    law_text_is_said_whole(Stream::Stdout, Ink::Plain, Hue::Green, rule_text(), write);
    law_text_is_said_whole(Stream::Stdout, Ink::Plain, Hue::Green, title, write);
}

/// The cells of a table are read as they are: each row in its place, with all its texts.
pub proof fn law_cells_are_read_as_they_are(rows: Seq<Vec<String>>, i: int, j: int)
    ensures
        cell_texts(rows).len() == rows.len(),
        0 <= i < rows.len() ==> cell_texts(rows)[i].len() == rows[i]@.len(),
        0 <= i < rows.len() && 0 <= j < rows[i]@.len() ==> cell_texts(rows)[i][j] == rows[i]@[j]@,
{
}

} // verus!
