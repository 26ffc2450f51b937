use llmchat::highlight::code_lines;
use llmchat::markdown::{
    format_line, highlight_inline_code, inline_segments, ColorScheme, MarkdownStreamer, Output,
    Segment,
};
use llmchat::paint::{palette, paint, Hue, Ink, Palette};

fn text(s: &str) -> Segment {
    Segment { code: false, text: s.to_string() }
}

fn code(s: &str) -> Segment {
    Segment { code: true, text: s.to_string() }
}

fn lit() -> Palette {
    Palette { on: true, fence: "90".to_string(), behind_code: "47".to_string() }
}

fn unlit() -> Palette {
    Palette { on: false, ..lit() }
}

fn shown(streamer: &MarkdownStreamer, list: &[Output]) -> String {
    list.iter().map(|o| streamer.render(o, &unlit())).collect()
}

#[test]
fn inks_select_their_codes() {
    for (hue, number) in [
        (Hue::Black, 30),
        (Hue::Red, 31),
        (Hue::Green, 32),
        (Hue::Yellow, 33),
        (Hue::Blue, 34),
        (Hue::Cyan, 36),
        (Hue::White, 37),
    ] {
        assert_eq!(paint(Ink::Color(hue), "x", &lit()), format!("\u{1b}[{number}mx\u{1b}[0m"));
        assert_eq!(paint(Ink::Bold(hue), "x", &lit()), format!("\u{1b}[1;{number}mx\u{1b}[0m"));
    }
    assert_eq!(paint(Ink::Dimmed, "x", &lit()), "\u{1b}[2mx\u{1b}[0m");
    assert_eq!(paint(Ink::Plain, "x", &lit()), "x");
    assert_eq!(paint(Ink::Color(Hue::Red), "", &lit()), "\u{1b}[31m\u{1b}[0m");
}

#[test]
fn greys_go_by_the_palette() {
    let p = lit();
    assert_eq!(paint(Ink::Fence, "```", &p), "\u{1b}[90m```\u{1b}[0m");
    assert_eq!(paint(Ink::Code, "x", &p), "\u{1b}[47;30mx\u{1b}[0m");
    let p = Palette {
        on: true,
        fence: "38;2;100;100;100".to_string(),
        behind_code: "48;2;230;230;230".to_string(),
    };
    assert_eq!(paint(Ink::Fence, "```", &p), "\u{1b}[38;2;100;100;100m```\u{1b}[0m");
    assert_eq!(paint(Ink::Code, "x", &p), "\u{1b}[48;2;230;230;230;30mx\u{1b}[0m");
}

#[test]
fn greys_are_written_by_their_parts_or_as_basic_colours() {
    let p = palette();
    assert!(p.fence == "38;2;100;100;100" || p.fence == "90", "{}", p.fence);
    assert!(p.behind_code == "48;2;230;230;230" || p.behind_code == "47", "{}", p.behind_code);
}

#[test]
fn colours_are_reopened_behind_colours_within() {
    let inner = paint(Ink::Color(Hue::Red), "in", &lit());
    assert_eq!(
        paint(Ink::Color(Hue::White), &format!("a{inner}b"), &lit()),
        "\u{1b}[37ma\u{1b}[31min\u{1b}[0m\u{1b}[37mb\u{1b}[0m"
    );
    assert_eq!(
        paint(Ink::Dimmed, "\u{1b}[0m\u{1b}[0m\u{1b}[0", &lit()),
        "\u{1b}[2m\u{1b}[0m\u{1b}[2m\u{1b}[0m\u{1b}[2m\u{1b}[0\u{1b}[0m"
    );
}

#[test]
fn without_colours_text_stays_as_it_is() {
    for ink in [Ink::Color(Hue::Red), Ink::Bold(Hue::Blue), Ink::Dimmed, Ink::Fence, Ink::Code] {
        assert_eq!(paint(ink, "x y", &unlit()), "x y");
        assert_eq!(paint(ink, "a\u{1b}[0mb", &unlit()), "a\u{1b}[0mb");
    }
}

#[test]
fn every_second_part_between_backticks_is_code() {
    assert_eq!(inline_segments("a `b` c"), vec![text("a "), code("b"), text(" c")]);
    assert_eq!(inline_segments("plain"), vec![text("plain")]);
    assert_eq!(inline_segments(""), vec![text("")]);
    assert_eq!(inline_segments("a `b"), vec![text("a "), text("b")]);
    assert_eq!(
        inline_segments("`a``b`"),
        vec![text(""), code("a"), text(""), code("b"), text("")]
    );
}

#[test]
fn inline_code_is_shown_without_its_backticks() {
    assert_eq!(highlight_inline_code("a `b` c\n", &unlit()), "a b c\n");
    assert_eq!(highlight_inline_code("a `b c\n", &unlit()), "a b c\n");
    assert_eq!(
        highlight_inline_code("a `b` c\n", &lit()),
        "a \u{1b}[47;30mb\u{1b}[0m c\n"
    );
    assert_eq!(highlight_inline_code("a `b c\n", &lit()), "a b c\n");
}

#[test]
fn headings_have_three_levels() {
    for line in ["# Title", "## Title \n", "###  Title\n"] {
        assert_eq!(format_line(line), Output::Heading("Title".to_string()));
    }
    assert_eq!(format_line("#### x"), Output::Line(vec![text("#### x")]));
    assert_eq!(format_line("#x"), Output::Line(vec![text("#x")]));
    assert_eq!(format_line(" # x"), Output::Line(vec![text(" # x")]));
}

#[test]
fn lines_wait_for_their_end() {
    let mut s = MarkdownStreamer::new(ColorScheme::Dark);
    assert_eq!(s.process_token("Hel"), Vec::<Output>::new());
    assert_eq!(
        s.process_token("lo\nwor"),
        vec![Output::Line(vec![text("Hello\n")])]
    );
    assert_eq!(s.flush(), vec![Output::Line(vec![text("wor")])]);
    assert_eq!(s.flush(), Vec::<Output>::new());
}

#[test]
fn a_code_block_is_shown_when_it_is_closed() {
    let mut s = MarkdownStreamer::new(ColorScheme::Light);
    assert_eq!(
        s.process_token("```rust\n"),
        vec![
            Output::Fence("```".to_string()),
            Output::Fence("rust".to_string()),
            Output::Break,
        ]
    );
    assert_eq!(s.process_token("let x = 1;\nlet y"), Vec::<Output>::new());
    assert_eq!(s.process_token(" = 2;\n"), Vec::<Output>::new());
    assert_eq!(
        s.process_token("```\nafter\n"),
        vec![
            Output::Block {
                language: "rust".to_string(),
                code: "let x = 1;\nlet y = 2;\n".to_string(),
            },
            Output::Fence("```".to_string()),
            Output::Fence("\n".to_string()),
            Output::Line(vec![text("after\n")]),
        ]
    );
}

#[test]
fn an_empty_block_shows_its_fences_alone() {
    let mut s = MarkdownStreamer::new(ColorScheme::Light);
    assert_eq!(
        s.process_token("  ```\n```"),
        vec![Output::Fence("```".to_string()), Output::Break]
    );
    assert_eq!(s.flush(), vec![Output::Tail("```".to_string())]);
}

#[test]
fn a_block_that_was_not_closed_is_shown_at_the_end() {
    let mut s = MarkdownStreamer::new(ColorScheme::Light);
    s.process_token("```rust\nlet x = 1;\n```");
    let rest = s.flush();
    assert_eq!(
        rest,
        vec![
            Output::Block { language: "rust".to_string(), code: "let x = 1;\n".to_string() },
            Output::Tail("```".to_string()),
        ]
    );
    let mut plain = String::new();
    let mut hidden = false;
    for c in shown(&s, &rest).chars() {
        match c {
            '\u{1b}' => hidden = true,
            'm' if hidden => hidden = false,
            _ if !hidden => plain.push(c),
            _ => {}
        }
    }
    assert_eq!(plain, "let x = 1;\n```");
    assert_eq!(s.flush(), Vec::<Output>::new());
    let mut s = MarkdownStreamer::new(ColorScheme::Light);
    s.process_token("```\na\nb\n");
    assert_eq!(
        s.flush(),
        vec![Output::Block { language: String::new(), code: "a\nb\n".to_string() }]
    );
    assert_eq!(s.process_token("c\n```\n").len(), 3);
    assert_eq!(s.process_token("after\n"), vec![Output::Line(vec![text("after\n")])]);
}

#[test]
fn code_is_escaped_by_its_colours() {
    let s = MarkdownStreamer::new(ColorScheme::Light);
    let out = s.render(&Output::Block { language: String::new(), code: "x\n".to_string() }, &lit());
    let codes = out.strip_prefix("\u{1b}[38;2;").unwrap().strip_suffix("mx\n").unwrap();
    assert_eq!(codes.split(';').filter(|n| n.parse::<u8>().is_ok()).count(), 3);
}

#[test]
fn lines_can_be_taken_one_by_one() {
    let mut s = MarkdownStreamer::new(ColorScheme::Light);
    assert_eq!(s.process_line("# T\n"), vec![Output::Heading("T".to_string())]);
    assert_eq!(s.process_line("```\n").len(), 2);
    assert_eq!(s.process_line("x\n"), Vec::<Output>::new());
    assert_eq!(s.process_line("```\n").len(), 3);
}

#[test]
fn it_does_not_matter_where_tokens_are_cut() {
    let reply = "# A\ntext `c` more\n```py\nprint(1)\n  x\n``` end\nlast `q` line";
    let mut whole = MarkdownStreamer::new(ColorScheme::Dark);
    let mut expected = whole.process_token(reply);
    expected.extend(whole.flush());
    for size in [1, 2, 3, 7] {
        let chars: Vec<char> = reply.chars().collect();
        let mut s = MarkdownStreamer::new(ColorScheme::Dark);
        let mut got = Vec::new();
        for part in chars.chunks(size) {
            got.extend(s.process_token(&part.iter().collect::<String>()));
        }
        got.extend(s.flush());
        assert_eq!(got, expected);
    }
}

#[test]
fn without_colours_a_reply_shows_as_its_text() {
    let mut s = MarkdownStreamer::new(ColorScheme::Dark);
    let list = s.process_token("## Head \na `b`\n");
    assert_eq!(shown(&s, &list), "Head\na b\n");
    let rest = [Output::Fence("```".to_string()), Output::Break, Output::Tail("t".to_string())];
    assert_eq!(shown(&s, &rest), "```\nt");
}

#[test]
fn ordinary_text_goes_by_the_scheme() {
    for (scheme, number) in [(ColorScheme::Dark, 37), (ColorScheme::Light, 30)] {
        let mut s = MarkdownStreamer::new(scheme);
        let list = s.process_token("x\n# H\n");
        assert_eq!(s.render(&list[0], &lit()), format!("\u{1b}[{number}mx\n\u{1b}[0m"));
        assert_eq!(
            s.render(&list[1], &lit()),
            format!("\u{1b}[{number}m\u{1b}[1;34mH\u{1b}[0m\u{1b}[{number}m\n\u{1b}[0m")
        );
        assert_eq!(s.render(&Output::Tail("t".to_string()), &lit()), "\u{1b}[30mt\u{1b}[0m");
        assert_eq!(s.render(&Output::Break, &lit()), "\n");
    }
}

#[test]
fn code_is_highlighted_by_its_language() {
    let s = MarkdownStreamer::new(ColorScheme::Light);
    let block = |language: &str| {
        let output = Output::Block {
            language: language.to_string(),
            code: "fn main() {}\nlet s = \"x\";\n".to_string(),
        };
        assert_eq!(s.render(&output, &lit()), s.render(&output, &unlit()));
        s.render(&output, &lit())
    };
    let rust = block("rust");
    assert!(rust.contains("\u{1b}[38;2;"));
    assert!(rust.contains("main"));
    assert_eq!(rust, block("rs"));
    assert_ne!(rust, block("no such language"));
    assert_eq!(block(""), block("no such language"));
    assert_eq!(rust.matches('\n').count(), 2);
}

#[test]
fn code_is_cut_into_lines_with_their_ends() {
    assert_eq!(code_lines("a\nb"), vec!["a\n", "b"]);
    assert_eq!(code_lines("a\n\n"), vec!["a\n", "\n"]);
    assert_eq!(code_lines(""), Vec::<String>::new());
}
