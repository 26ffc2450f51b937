use llmchat::output::{Figure, Line, Piece, Span, Stream};
use llmchat::paint::{Hue, Ink};
use llmchat::session::{
    check_context_usage, count_bytes, estimate_tokens, usage_level, Message, UsageLevel,
};

fn message(content: &str) -> Message {
    Message { role: "user".to_string(), content: content.to_string() }
}

fn level_by_percentage(count: usize, limit: usize) -> UsageLevel {
    let percentage = (count as f64 / limit as f64) * 100.0;
    if percentage >= 90.0 {
        UsageLevel::Warning
    } else if percentage >= 75.0 {
        UsageLevel::Notice
    } else {
        UsageLevel::Low
    }
}

fn usage_line(before: &str, figure: Figure, after: &str) -> Line {
    Line {
        stream: Stream::Stderr,
        spans: vec![Span {
            ink: Ink::Color(Hue::Yellow),
            pieces: vec![
                Piece::Text(before.to_string()),
                Piece::Figure(figure),
                Piece::Text(after.to_string()),
            ],
        }],
    }
}

#[test]
fn a_token_is_four_characters() {
    assert_eq!(estimate_tokens(&Vec::new(), &None), 0);
    assert_eq!(estimate_tokens(&vec![message("abc")], &None), 0);
    assert_eq!(estimate_tokens(&vec![message("abc")], &Some("d".to_string())), 1);
    assert_eq!(estimate_tokens(&vec![message("éé"), message("12345")], &None), 1);
    assert_eq!(estimate_tokens(&vec![message("éééé")], &None), 1);
    assert_eq!(estimate_tokens(&vec![message("éé"), message("123456")], &None), 2);
    assert_eq!(estimate_tokens(&Vec::new(), &Some("…".repeat(8))), 2);
    assert_eq!(count_bytes("é…"), 5);
}

#[test]
fn a_message_more_never_lowers_the_estimate() {
    let mut list = Vec::new();
    let mut last = 0;
    for i in 0..20 {
        list.push(message(&"x".repeat(i)));
        let next = estimate_tokens(&list, &None);
        assert!(next >= last);
        last = next;
    }
}

#[test]
fn thresholds_are_nine_tenths_and_three_quarters() {
    assert_eq!(usage_level(7372, 8192), UsageLevel::Notice);
    assert_eq!(usage_level(7373, 8192), UsageLevel::Warning);
    assert_eq!(usage_level(6144, 8192), UsageLevel::Notice);
    assert_eq!(usage_level(6143, 8192), UsageLevel::Low);
    assert_eq!(usage_level(90, 100), UsageLevel::Warning);
    assert_eq!(usage_level(75, 100), UsageLevel::Notice);
    assert_eq!(usage_level(0, 0), UsageLevel::Low);
    assert_eq!(usage_level(1, 0), UsageLevel::Warning);
}

#[test]
fn levels_agree_with_the_percentage_in_double_precision() {
    for limit in 0..400usize {
        for count in 0..450usize {
            assert_eq!(usage_level(count, limit), level_by_percentage(count, limit));
        }
    }
    let mut large = vec![usize::MAX, usize::MAX - 1, 1 << 53, (1 << 53) + 1, (1 << 53) + 3];
    for shift in 50..64 {
        for add in 0..6usize {
            large.push((1usize << shift) + add);
            large.push((1usize << shift) - 1 - add);
            large.push((1usize << shift) / 10 * 9 + add);
            large.push((1usize << shift) / 10 * 9 - add);
            large.push((1usize << shift) / 4 * 3 + add);
            large.push((1usize << shift) / 4 * 3 - add);
        }
    }
    for &count in &large {
        for &limit in &large {
            assert_eq!(
                usage_level(count, limit),
                level_by_percentage(count, limit),
                "{count} of {limit}"
            );
        }
    }
}

#[test]
fn nothing_is_said_of_a_window_that_is_not_full() {
    assert_eq!(check_context_usage(&vec![message("abcd")], 8192, None, &None), None);
    assert_eq!(check_context_usage(&Vec::new(), 100, Some(74), &None), None);
}

#[test]
fn a_reported_number_goes_before_the_estimate() {
    assert_eq!(
        check_context_usage(&vec![message("abcd")], 100, Some(95), &None),
        Some(usage_line(
            "⚠️  WARNING: Context window usage at ",
            Figure::Percent { count: 95, limit: 100 },
            "% (ACTUAL: / 95) 100",
        ))
    );
}

#[test]
fn an_estimate_counts_the_system_prompt() {
    let list = vec![message(&"x".repeat(280))];
    assert_eq!(
        check_context_usage(&list, 100, None, &Some("y".repeat(20))),
        Some(usage_line(
            "Notice: Context window usage at ",
            Figure::Percent { count: 75, limit: 100 },
            "% (ESTIMATED: / 75) 100",
        ))
    );
    assert_eq!(check_context_usage(&list, 100, None, &None), None);
}

#[test]
fn a_copy_of_a_message_is_the_message() {
    let m = message("hello");
    assert_eq!(m.clone(), m);
}
