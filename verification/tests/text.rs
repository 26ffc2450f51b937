use llmchat::text::{
    chars_of, contains, cut_lines, decimal_text, ends_with, join, lines, pad,
    parse_integer, position_of, repeat, same_text, signed_decimal_text, split, starts_with,
    strip_prefix, text_between, trim, trim_start, truncate,
};

const SAMPLES: [&str; 14] = [
    "",
    " ",
    "a",
    "\n",
    "a\nb",
    "a\r\nb\r\n",
    "a\rb\n\nc",
    "  x\ty \u{a0}",
    "\u{2003}wide\u{3000}",
    "über ```rust\n  code\n",
    "one `two` three `four",
    "\r\n\r",
    "\u{85}next\u{2028}line",
    "\u{200b}zero width\u{200b}",
];

#[test]
fn trimming_agrees_with_std() {
    for s in SAMPLES {
        assert_eq!(trim(s), s.trim());
        assert_eq!(trim_start(s), s.trim_start());
    }
    for n in 0..0x3100u32 {
        if let Some(c) = char::from_u32(n) {
            let s = format!("{c}x{c}");
            assert_eq!(trim(&s), s.trim(), "{n:#x}");
        }
    }
}

#[test]
fn lines_agree_with_std() {
    for s in SAMPLES {
        let expected: Vec<String> = s.lines().map(|l| l.to_string()).collect();
        assert_eq!(lines(s), expected, "{s:?}");
    }
}

#[test]
fn splitting_agrees_with_std() {
    for s in SAMPLES {
        for c in ['`', '\n', ' ', 'x'] {
            let expected: Vec<String> = s.split(c).map(|l| l.to_string()).collect();
            assert_eq!(split(s, c), expected, "{s:?}");
        }
    }
}

#[test]
fn cutting_keeps_every_character() {
    for s in SAMPLES {
        let (complete, rest) = cut_lines(s);
        assert!(complete.iter().all(|l| l.ends_with('\n') && l.matches('\n').count() == 1));
        assert!(!rest.contains('\n'));
        assert_eq!(complete.concat() + &rest, s);
    }
}

#[test]
fn searching_agrees_with_std() {
    for s in SAMPLES {
        for word in ["", "a", "two", "```", "\n", "four"] {
            assert_eq!(contains(s, word), s.contains(word));
            assert_eq!(starts_with(s, word), s.starts_with(word));
            assert_eq!(ends_with(s, word), s.ends_with(word));
            assert_eq!(strip_prefix(s, word).as_deref(), s.strip_prefix(word));
            assert_eq!(same_text(s, word), s == word);
        }
    }
}

#[test]
fn positions_and_parts() {
    let chars = chars_of("aébc");
    assert_eq!(chars, vec!['a', 'é', 'b', 'c']);
    assert_eq!(position_of(&chars, 0, 'b'), 2);
    assert_eq!(position_of(&chars, 3, 'b'), 4);
    assert_eq!(text_between(&chars, 1, 3), "éb");
}

#[test]
fn padding_and_cutting() {
    assert_eq!(pad("ab", 5), format!("{:<5}", "ab"));
    assert_eq!(pad("abcdef", 5), "abcdef");
    assert_eq!(pad("é", 3), format!("{:<3}", "é"));
    assert_eq!(truncate("0123456789", 8), format!("{:.8}", "0123456789"));
    assert_eq!(truncate("éa", 1), "é");
    assert_eq!(truncate("short", 8), "short");
    assert_eq!(repeat('━', 3), "━━━");
    assert_eq!(repeat('x', 0), "");
}

#[test]
fn joining_agrees_with_std() {
    let parts: Vec<String> = vec!["a".to_string(), "".to_string(), "bc".to_string()];
    assert_eq!(join(&parts, "\n"), parts.join("\n"));
    assert_eq!(join(&Vec::new(), "\n"), "");
    assert_eq!(llmchat::text::concat("a", "b"), "ab");
}

#[test]
fn numbers_are_written_as_std_writes_them() {
    for n in [0u64, 7, 10, 99, 100, 8192, u64::MAX] {
        assert_eq!(decimal_text(n), n.to_string());
    }
    for n in [0i64, -1, 42, -42, i64::MIN, i64::MAX] {
        assert_eq!(signed_decimal_text(n), n.to_string());
    }
}

#[test]
fn numbers_are_read_as_std_reads_them() {
    for s in [
        "", "-", "+", "0", "-0", "+7", "007", "42", "-42", " 42", "42 ", "4_2", "1.0", "0x10",
        "9223372036854775807", "9223372036854775808", "-9223372036854775808",
        "-9223372036854775809", "99999999999999999999999", "clear", "٣", "--1", "+-1",
        "00000000000000000000000000000001",
    ] {
        assert_eq!(parse_integer(s), s.parse::<i64>().ok(), "{s:?}");
    }
}
