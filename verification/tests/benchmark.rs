use llmchat::benchmark::{
    benchmark_header, benchmark_session, calculate_summary, monitor_warning, prompt_banner,
    saved_results, BenchmarkConfig, BenchmarkRun, BenchmarkSummary, MonitorFault, PromptMetrics, Spread,
};
use llmchat::digest::fingerprint;
use llmchat::output::{
    head, hued, ink_text, one, say, Double, Figure, Line, Piece, Single, Span, Stream, Timing,
};
use llmchat::paint::{Hue, Ink};
use llmchat::report::{
    display_benchmark_results, result_figures, result_row, result_rows, results_table,
    show_tokens, WrittenFigures, TABLE_PRESET,
};
use llmchat::system_metrics::{
    CoreMetrics, HardwareInfo, MemoryMetrics, PowerMetrics, SystemMetricsStats,
};

fn double(x: f64) -> Double {
    Double { bits: x.to_bits() }
}

fn single(x: f32) -> Single {
    Single { bits: x.to_bits() }
}

fn write(f: &Figure) -> String {
    match f {
        Figure::Shortest(s) => format!("{}", f32::from_bits(s.bits)),
        Figure::Single(s, places) => format!("{:.*}", *places as usize, f32::from_bits(s.bits)),
        Figure::Double(d, places) => format!("{:.*}", *places as usize, f64::from_bits(d.bits)),
        Figure::Seconds(t) => {
            format!("{:.2}", std::time::Duration::new(t.seconds, t.nanos).as_secs_f64())
        }
        Figure::Percent { count, limit } => {
            format!("{:.1}", (*count as f64 / *limit as f64) * 100.0)
        }
        Figure::WattHours(s) => format!("{:.2}", f32::from_bits(s.bits) / 3600.0),
    }
}

fn span_text(span: &Span) -> String {
    span.pieces
        .iter()
        .map(|p| match p {
            Piece::Text(t) => t.clone(),
            Piece::Figure(f) => write(f),
        })
        .collect()
}

fn line_text(line: &Line) -> String {
    line.spans.iter().map(span_text).collect()
}

fn metrics(tokens: usize, tokens_actual: bool, hash: &str) -> PromptMetrics {
    PromptMetrics {
        prompt: "p".to_string(),
        ttft: Timing { seconds: 0, nanos: 125_000_000 },
        total_time: Timing { seconds: 2, nanos: 500_000_000 },
        tokens,
        tokens_actual,
        speed: double(12.34),
        response_length: 77,
        response_hash: hash.to_string(),
    }
}

fn spread(x: f64) -> Spread {
    Spread {
        avg: double(x),
        median: double(x + 1.0),
        min: double(x + 2.0),
        max: double(x + 3.0),
        stddev: double(x + 4.0),
    }
}

fn benchmark() -> BenchmarkConfig {
    BenchmarkConfig {
        name: "speed".to_string(),
        temperature: single(0.7),
        seed: Some(-3),
        prompts: vec!["a".to_string(), "b".to_string()],
    }
}

fn summary(actual: bool) -> BenchmarkSummary {
    BenchmarkSummary {
        total_prompts: 2,
        total_time: double(3.456),
        total_tokens: 30,
        total_tokens_all_actual: actual,
        responses_hash: "0123456789abcdef0123".to_string(),
        ttft: spread(0.5),
        speed: spread(10.0),
    }
}

#[test]
fn sums_and_hashes_of_all_prompts() {
    let list = vec![metrics(10, true, "aa"), metrics(20, false, "bb")];
    let s = calculate_summary(&list, double(1.0), spread(1.0), spread(2.0));
    assert_eq!(s.total_prompts, 2);
    assert_eq!(s.total_tokens, 30);
    assert!(!s.total_tokens_all_actual);
    assert_eq!(s.responses_hash, fingerprint(b"aabb"));
    assert_eq!((s.total_time, s.ttft, s.speed), (double(1.0), spread(1.0), spread(2.0)));
    let list = vec![metrics(1, true, "x"), metrics(2, true, "y")];
    assert!(calculate_summary(&list, double(0.0), spread(0.0), spread(0.0)).total_tokens_all_actual);
    let s = calculate_summary(&Vec::new(), double(0.0), spread(0.0), spread(0.0));
    assert_eq!((s.total_prompts, s.total_tokens, s.total_tokens_all_actual), (0, 0, true));
    assert_eq!(s.responses_hash, fingerprint(b""));
}

#[test]
fn two_runs_together_have_the_tokens_of_both() {
    let sum = |list: Vec<PromptMetrics>| {
        let s = calculate_summary(&list, double(0.0), spread(0.0), spread(0.0));
        (s.total_tokens, s.total_tokens_all_actual)
    };
    let a = || vec![metrics(10, true, "a"), metrics(5, true, "b")];
    let b = || vec![metrics(7, false, "c")];
    let both = a().into_iter().chain(b()).collect();
    assert_eq!(sum(a()), (15, true));
    assert_eq!(sum(b()), (7, false));
    assert_eq!(sum(both), (22, false));
}

#[test]
fn runs_with_the_same_responses_have_the_same_hash() {
    let a = vec![metrics(10, true, "aa"), metrics(20, false, "bb")];
    let b = vec![metrics(1, false, "aa"), metrics(2, false, "bb")];
    let c = vec![metrics(1, false, "bb"), metrics(2, false, "aa")];
    let hash = |list| {
        calculate_summary(list, double(0.0), spread(0.0), spread(0.0)).responses_hash
    };
    assert_eq!(hash(&a), hash(&b));
    assert_ne!(hash(&a), hash(&c));
}

#[test]
fn a_benchmark_has_a_session_of_its_own() {
    let s = benchmark_session(&benchmark(), "e".to_string(), "m".to_string(), None);
    assert_eq!(s.temperature, single(0.7));
    assert_eq!(s.seed, Some(-3));
    assert_eq!(s.system_prompt, None);
    assert_eq!((s.endpoint.as_str(), s.model.as_str()), ("e", "m"));
}

#[test]
fn a_benchmark_is_announced() {
    let lines: Vec<String> =
        benchmark_header(&benchmark(), "m", "http://h").iter().map(line_text).collect();
    assert_eq!(
        lines,
        vec![
            "Running benchmark: speed",
            "Model: m | Temperature: 0.7 | Seed: -3",
            "Endpoint: http://h",
            "Prompts: 2",
            "",
        ]
    );
    let mut unseeded = benchmark();
    unseeded.seed = None;
    assert_eq!(
        line_text(&benchmark_header(&unseeded, "m", "e")[1]),
        "Model: m | Temperature: 0.7 | Seed: None"
    );
}

#[test]
fn a_prompt_is_announced() {
    assert_eq!(
        prompt_banner(0, "why?"),
        vec![
            head(Hue::Yellow, "Prompt 1: \"why?\""),
            one(Stream::Stdout, ink_text(Ink::Dimmed, &"━".repeat(80))),
        ]
    );
}

#[test]
fn faults_of_the_monitor_are_told() {
    assert_eq!(
        monitor_warning(MonitorFault::Start, "x"),
        one(
            Stream::Stderr,
            hued(Hue::Yellow, "Warning: Failed to start metrics monitoring: x")
        )
    );
    assert_eq!(
        monitor_warning(MonitorFault::Stop, "y"),
        one(
            Stream::Stderr,
            hued(Hue::Yellow, "Warning: Failed to collect system metrics: y")
        )
    );
    assert_eq!(
        saved_results("/tmp/r.json"),
        vec![
            say(""),
            one(Stream::Stdout, hued(Hue::Green, "Results saved to: /tmp/r.json")),
        ]
    );
}

fn written(m: &PromptMetrics) -> WrittenFigures {
    let f = result_figures(m);
    WrittenFigures {
        ttft: write(&f.ttft),
        total_time: write(&f.total_time),
        speed: write(&f.speed),
    }
}

#[test]
fn a_row_has_seven_cells() {
    let m = metrics(9, false, "0123456789abcdef");
    assert_eq!(
        result_row(1, &m, &written(&m)),
        vec!["2", "0.12s", "2.50s", "~9", "12.3 t/s", "77", "01234567"]
    );
    assert_eq!(show_tokens(9, true), "9");
}

#[test]
fn every_prompt_has_a_row_in_order() {
    let list = vec![metrics(1, true, "aaaaaaaaaa"), metrics(2, false, "bb"), metrics(3, true, "c")];
    let figures: Vec<WrittenFigures> = list.iter().map(written).collect();
    let rows = result_rows(&list, &figures);
    assert_eq!(rows.len(), 3);
    for (i, row) in rows.iter().enumerate() {
        assert_eq!(row[0], (i + 1).to_string());
        assert_eq!(row[3].starts_with('~'), !list[i].tokens_actual);
    }
    assert_eq!(rows[0][6], "aaaaaaaa");
    assert_eq!(rows[1][3], "~2");
    assert_eq!(result_rows(&Vec::new(), &Vec::new()), Vec::<Vec<String>>::new());
}

#[test]
fn prompts_are_sent_once_and_in_order() {
    let mut run = BenchmarkRun::new(&benchmark());
    assert_eq!(run.next_prompt(), Some((0, "a".to_string())));
    run.take_outcome(Some(metrics(1, true, "x")));
    assert_eq!(run.next_prompt(), Some((1, "b".to_string())));
    run.take_outcome(None);
    assert_eq!(run.next_prompt(), None);
    assert_eq!(run.next_prompt(), None);
    assert_eq!(run.into_metrics(), vec![metrics(1, true, "x")]);
}

#[test]
fn the_table_is_drawn_with_its_header() {
    assert_eq!(TABLE_PRESET, comfy_table::presets::UTF8_FULL);
    let rows: Vec<Vec<String>> = vec![
        ["1", "0.12s", "2.50s", "9", "12.3 t/s", "77", "01234567"].iter().map(|s| s.to_string()).collect(),
        ["2", "0.50s", "3.00s", "~10", "1.0 t/s", "5", "89abcdef"].iter().map(|s| s.to_string()).collect(),
    ];
    let table = results_table(rows);
    let expected = "\
┌───┬───────┬───────┬────────┬──────────┬─────┬──────────┐
│ # ┆ TTFT  ┆ Time  ┆ Tokens ┆ Speed    ┆ Len ┆ Hash     │
╞═══╪═══════╪═══════╪════════╪══════════╪═════╪══════════╡
│ 1 ┆ 0.12s ┆ 2.50s ┆ 9      ┆ 12.3 t/s ┆ 77  ┆ 01234567 │
├╌╌╌┼╌╌╌╌╌╌╌┼╌╌╌╌╌╌╌┼╌╌╌╌╌╌╌╌┼╌╌╌╌╌╌╌╌╌╌┼╌╌╌╌╌┼╌╌╌╌╌╌╌╌╌╌┤
│ 2 ┆ 0.50s ┆ 3.00s ┆ ~10    ┆ 1.0 t/s  ┆ 5   ┆ 89abcdef │
└───┴───────┴───────┴────────┴──────────┴─────┴──────────┘";
    assert_eq!(table, expected);
}

fn one_prompt() -> Vec<PromptMetrics> {
    vec![metrics(9, false, "0123456789abcdef")]
}

fn figures() -> Vec<WrittenFigures> {
    one_prompt().iter().map(written).collect()
}

#[test]
fn the_summary_is_shown() {
    let table = results_table(result_rows(&one_prompt(), &figures()));
    assert!(table.contains("│ 1 ┆ 0.12s ┆ 2.50s ┆ ~9     ┆ 12.3 t/s ┆ 77  ┆ 01234567 │"));
    let rule = "━".repeat(80);
    let lines: Vec<String> = display_benchmark_results(&one_prompt(), &figures(), &summary(true), &None)
        .iter()
        .map(line_text)
        .collect();
    assert_eq!(
        lines,
        vec![
            rule.as_str(),
            "PER-PROMPT RESULTS",
            rule.as_str(),
            table.as_str(),
            "",
            rule.as_str(),
            "BENCHMARK SUMMARY",
            rule.as_str(),
            "  Prompts:      2",
            "  Total Time:   3.46s",
            "  Total Tokens: 30 (actual)",
            "  Responses Hash: 0123456789abcdef...",
            "",
            "  TTFT (Time to First Token):",
            "    Avg: 0.50s | Median: 1.50s | Min: 2.50s | Max: 3.50s | StdDev: 4.500s",
            "",
            "  Speed (tokens/sec):",
            "    Avg: 10.0 t/s | Median: 11.0 t/s | Min: 12.0 t/s | Max: 13.0 t/s | StdDev: 14.00 t/s",
            rule.as_str(),
        ]
    );
    let lines = display_benchmark_results(&one_prompt(), &figures(), &summary(false), &None);
    assert_eq!(line_text(&lines[10]), "  Total Tokens: ~30 (estimated)");
    assert_eq!(lines[0], one(Stream::Stdout, hued(Hue::Green, &rule)));
    assert_eq!(lines[1], head(Hue::Green, "PER-PROMPT RESULTS"));
    assert_eq!(lines[13], head(Hue::Cyan, "  TTFT (Time to First Token):"));
}

fn cores(x: u32) -> CoreMetrics {
    CoreMetrics {
        freq_mhz_min: x,
        freq_mhz_mean: single(x as f32 + 0.6),
        freq_mhz_median: single(x as f32 + 1.4),
        freq_mhz_max: x + 3,
        usage_percent_min: single(1.0),
        usage_percent_mean: single(2.25),
        usage_percent_median: single(3.5),
        usage_percent_max: single(4.0),
    }
}

#[test]
fn the_machine_is_shown_where_it_was_measured() {
    let sm = SystemMetricsStats {
        efficiency_cores: cores(100),
        performance_cores: cores(200),
        gpu: cores(300),
        memory: MemoryMetrics {
            ram_usage_gb_min: single(1.0),
            ram_usage_gb_mean: single(2.0),
            ram_usage_gb_median: single(3.0),
            ram_usage_gb_max: single(4.0),
            swap_usage_gb_min: single(0.5),
            swap_usage_gb_mean: single(0.25),
            swap_usage_gb_median: single(0.125),
            swap_usage_gb_max: single(1.0),
        },
        power: PowerMetrics {
            cpu_watts_min: single(1.0),
            cpu_watts_mean: single(2.0),
            cpu_watts_median: single(3.0),
            cpu_watts_max: single(4.0),
            cpu_watts_total: single(7200.0),
            gpu_watts_min: single(5.0),
            gpu_watts_mean: single(6.0),
            gpu_watts_median: single(7.0),
            gpu_watts_max: single(8.0),
            gpu_watts_total: single(1800.0),
            ane_watts_min: single(0.0),
            ane_watts_mean: single(0.0),
            ane_watts_median: single(0.0),
            ane_watts_max: single(0.0),
            ane_watts_total: single(0.0),
        },
        sample_count: 3,
        duration_seconds: double(3.0),
        hardware_info: Some(HardwareInfo {
            mac_model: "Mac".to_string(),
            chip_name: "chip".to_string(),
            memory_gb: 16,
            ecpu_cores: 4,
            pcpu_cores: 4,
            ecpu_freqs: vec![600],
            pcpu_freqs: vec![3200],
            gpu_cores: 8,
            gpu_freqs: vec![400],
        }),
    };
    let rule = "━".repeat(80);
    let lines: Vec<String> = display_benchmark_results(&one_prompt(), &figures(), &summary(true), &Some(sm))
        .iter()
        .map(line_text)
        .collect();
    assert_eq!(
        &lines[19..],
        &[
            "",
            rule.as_str(),
            "SYSTEM METRICS",
            rule.as_str(),
            "  Samples: 3 (~3.0s)",
            "",
            "  Efficiency Cores:",
            "    Freq (MHz):  Min: 100 | Mean: 101 | Median: 101 | Max: 103",
            "    Usage (%):   Min: 1.0 | Mean: 2.2 | Median: 3.5 | Max: 4.0",
            "",
            "  Performance Cores:",
            "    Freq (MHz):  Min: 200 | Mean: 201 | Median: 201 | Max: 203",
            "    Usage (%):   Min: 1.0 | Mean: 2.2 | Median: 3.5 | Max: 4.0",
            "",
            "  GPU:",
            "    Freq (MHz):  Min: 300 | Mean: 301 | Median: 301 | Max: 303",
            "    Usage (%):   Min: 1.0 | Mean: 2.2 | Median: 3.5 | Max: 4.0",
            "",
            "  Memory:",
            "    RAM (GB):    Min: 1.00 | Mean: 2.00 | Median: 3.00 | Max: 4.00",
            "    Swap (GB):   Min: 0.50 | Mean: 0.25 | Median: 0.12 | Max: 1.00",
            "",
            "  Power Consumption:",
            "    CPU (W):     Min: 1.00 | Mean: 2.00 | Median: 3.00 | Max: 4.00 | Total: 2.00 Wh",
            "    GPU (W):     Min: 5.00 | Mean: 6.00 | Median: 7.00 | Max: 8.00 | Total: 0.50 Wh",
            "    ANE (W):     Min: 0.00 | Mean: 0.00 | Median: 0.00 | Max: 0.00 | Total: 0.00 Wh",
            rule.as_str(),
        ]
    );
}
