use colored::Colorize;
use llmchat::paint::{palette, paint, Hue, Ink};

const TEXTS: [&str; 6] =
    ["", "x", "two\nlines", "é…", "a\u{1b}[31mb\u{1b}[0mc\u{1b}[0m", "\u{1b}\u{1b}[0m[0m"];

#[test]
fn inks_agree_with_the_colours_of_the_terminal() {
    colored::control::set_override(true);
    let p = palette();
    for t in TEXTS {
        for (hue, shown, bold) in [
            (Hue::Black, t.black(), t.black().bold()),
            (Hue::Red, t.red(), t.red().bold()),
            (Hue::Green, t.green(), t.green().bold()),
            (Hue::Yellow, t.yellow(), t.yellow().bold()),
            (Hue::Blue, t.blue(), t.blue().bold()),
            (Hue::Cyan, t.cyan(), t.cyan().bold()),
            (Hue::White, t.white(), t.white().bold()),
        ] {
            assert_eq!(paint(Ink::Color(hue), t, &p), shown.to_string());
            assert_eq!(paint(Ink::Bold(hue), t, &p), bold.to_string());
        }
        assert_eq!(paint(Ink::Dimmed, t, &p), t.dimmed().to_string());
        assert_eq!(paint(Ink::Fence, t, &p), t.truecolor(100, 100, 100).to_string());
        assert_eq!(
            paint(Ink::Code, t, &p),
            t.black().on_truecolor(230, 230, 230).to_string()
        );
    }
}

#[test]
fn the_switch_for_colours_is_read() {
    colored::control::set_override(true);
    assert!(palette().on);
}
