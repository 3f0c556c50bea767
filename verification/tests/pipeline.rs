use logtint::ansi::{get_level_color, Color};
use logtint::extract::extract_log_parts;
use logtint::filter::{glob_to_regex, matching_pids, LogFilter, PatternError};
use logtint::registry::TagColorRegistry;
use logtint::render::{format_log_line, RenderState};
use logtint::wrap::format_multiline_content;
use logtint::Level;

#[test]
fn extract_well_formed_line() {
    let rec = extract_log_parts("02-03 15:44:41.704 2359 3654 I MyTag: Hello world").unwrap();
    assert_eq!(rec.timestamp.as_str(), "15:44:41.704");
    assert_eq!(rec.level, Level::Info);
    assert_eq!(rec.tag.as_str(), "MyTag");
    assert_eq!(rec.message.as_str(), "Hello world");
}

#[test]
fn extract_pads_short_fraction() {
    let rec = extract_log_parts("02-03 15:44:41.7 1 2 D Tag: x").unwrap();
    assert_eq!(rec.timestamp.as_str(), "15:44:41.700");
}

#[test]
fn extract_truncates_long_fraction() {
    let rec = extract_log_parts("02-03 15:44:41.70499 1 2 D Tag: x").unwrap();
    assert_eq!(rec.timestamp.as_str(), "15:44:41.704");
}

#[test]
fn extract_substitutes_missing_fraction() {
    let rec = extract_log_parts("02-03 15:44:41 1 2 W Tag: x").unwrap();
    assert_eq!(rec.timestamp.as_str(), "15:44:41.000");
}

#[test]
fn extract_without_separator_takes_remainder_as_tag() {
    let rec = extract_log_parts("02-03 15:44:41.704 1 2 E SomeTag").unwrap();
    assert_eq!(rec.tag.as_str(), "SomeTag");
    assert_eq!(rec.message.as_str(), "");
}

#[test]
fn extract_unknown_level_token() {
    let rec = extract_log_parts("02-03 15:44:41.704 1 2 Q Tag: x").unwrap();
    assert_eq!(rec.level, Level::Unknown);
    let rec2 = extract_log_parts("02-03 15:44:41.704 1 2 info Tag: x").unwrap();
    assert_eq!(rec2.level, Level::Unknown);
}

#[test]
fn extract_too_few_tokens_fails() {
    assert!(extract_log_parts("short line").is_none());
    assert!(extract_log_parts("").is_none());
    assert!(extract_log_parts("a b c d e").is_none());
}

#[test]
fn level_badges_and_colors() {
    assert_eq!(get_level_color(Level::Verbose).0, "\x1b[1;30;44m V \x1b[0m");
    assert_eq!(get_level_color(Level::Debug).0, "\x1b[1;30;100m D \x1b[0m");
    assert_eq!(get_level_color(Level::Info).0, "\x1b[1;30;42m I \x1b[0m");
    assert_eq!(get_level_color(Level::Warn).0, "\x1b[1;30;43m W \x1b[0m");
    assert_eq!(get_level_color(Level::Error).0, "\x1b[1;30;41m E \x1b[0m");
    assert_eq!(get_level_color(Level::Fatal).0, "\x1b[1;30;101m F \x1b[0m");
    assert_eq!(get_level_color(Level::Unknown).0, "    ");
    assert_eq!(get_level_color(Level::Verbose).1, Color::Blue);
    assert_eq!(get_level_color(Level::Debug).1, Color::BrightBlack);
    assert_eq!(get_level_color(Level::Info).1, Color::Green);
    assert_eq!(get_level_color(Level::Warn).1, Color::Yellow);
    assert_eq!(get_level_color(Level::Error).1, Color::Red);
    assert_eq!(get_level_color(Level::Fatal).1, Color::BrightRed);
    assert_eq!(get_level_color(Level::Unknown).1, Color::White);
}

#[test]
fn tag_colors_follow_first_appearance_order() {
    let mut reg = TagColorRegistry::new();
    let a = reg.get_tag_color("A");
    let b = reg.get_tag_color("B");
    let a_again = reg.get_tag_color("A");
    let c = reg.get_tag_color("C");
    assert_eq!(a, Color::Red);
    assert_eq!(b, Color::Green);
    assert_eq!(a_again, Color::Red);
    assert_eq!(c, Color::Yellow);
}

#[test]
fn tag_palette_wraps_after_twelve() {
    let mut reg = TagColorRegistry::new();
    let names = [
        "t0", "t1", "t2", "t3", "t4", "t5", "t6", "t7", "t8", "t9", "t10", "t11",
    ];
    for name in names.iter() {
        reg.get_tag_color(name);
    }
    assert_eq!(reg.get_tag_color("t12"), Color::Red);
    assert_eq!(reg.get_tag_color("t0"), Color::Red);
    assert_eq!(reg.get_tag_color("t11"), Color::BrightCyan);
}

#[test]
fn end_to_end_example_line() {
    let mut state = RenderState::new();
    let out = format_log_line(
        &mut state,
        "02-03 15:44:41.704 2359 3654 I MyTag: Hello world",
        false,
        80,
    )
    .unwrap();
    let expected = format!(
        "  \x1b[90m15:44:41.704\x1b[0m {}\x1b[31mMyTag\x1b[0m \x1b[1;30;42m I \x1b[0m \x1b[32mHello world\x1b[0m",
        " ".repeat(20)
    );
    assert_eq!(out, expected);
}

#[test]
fn repeated_tag_renders_blank_column_of_equal_width() {
    let mut state = RenderState::new();
    let first = format_log_line(
        &mut state,
        "02-03 15:44:41.704 2359 3654 I MyTag: Hello world",
        false,
        80,
    )
    .unwrap();
    let second = format_log_line(
        &mut state,
        "02-03 15:44:41.800 2359 3654 I MyTag: Again",
        false,
        80,
    )
    .unwrap();
    let expected_second = format!(
        "  \x1b[90m15:44:41.800\x1b[0m {}\x1b[31m     \x1b[0m \x1b[1;30;42m I \x1b[0m \x1b[32mAgain\x1b[0m",
        " ".repeat(20)
    );
    assert_eq!(second, expected_second);
    // the visible tag and its blank stand-in occupy the same columns
    assert!(first.contains("\x1b[31mMyTag\x1b[0m"));
    assert!(second.contains("\x1b[31m     \x1b[0m"));
}

#[test]
fn suppression_compares_only_the_previous_tag() {
    let mut state = RenderState::new();
    let l1 = format_log_line(&mut state, "02-03 1:0:0.0 1 2 I Alpha: one", false, 120).unwrap();
    let l2 = format_log_line(&mut state, "02-03 1:0:0.1 1 2 I Alpha: two", false, 120).unwrap();
    let l3 = format_log_line(&mut state, "02-03 1:0:0.2 1 2 I Beta: three", false, 120).unwrap();
    let l4 = format_log_line(&mut state, "02-03 1:0:0.3 1 2 I Alpha: four", false, 120).unwrap();
    assert!(l1.contains("Alpha"));
    assert!(!l2.contains("Alpha"));
    assert!(l3.contains("Beta"));
    // back after an intervening tag: shown again, in its original color
    assert!(l4.contains("\x1b[31mAlpha\x1b[0m"));
}

#[test]
fn malformed_line_passes_through_unchanged() {
    let mut state = RenderState::new();
    let out = format_log_line(&mut state, "short line", false, 80).unwrap();
    assert_eq!(out, "short line");
}

#[test]
fn short_message_stays_on_one_line() {
    // timestamps shown: 45 fixed columns, 35 available at width 80
    let out = format_multiline_content("Hello world", Color::BrightGreen, false, 80);
    assert_eq!(out, "\x1b[92mHello world\x1b[0m");
    assert!(!out.contains('\n'));
}

#[test]
fn overflow_by_one_wraps_at_embedded_space() {
    // 20 + 1 + 15 = 36 characters: one more than the 35 available
    let content = format!("{} {}", "a".repeat(20), "b".repeat(15));
    let out = format_multiline_content(&content, Color::BrightGreen, false, 80);
    let expected = format!(
        "\x1b[92m{}\x1b[0m\n{}\x1b[92m{}\x1b[0m",
        "a".repeat(20),
        " ".repeat(45),
        "b".repeat(15)
    );
    assert_eq!(out, expected);
}

#[test]
fn overflow_without_space_breaks_at_width() {
    let content = "c".repeat(36);
    let out = format_multiline_content(&content, Color::Red, false, 80);
    let expected = format!(
        "\x1b[31m{}\x1b[0m\n{}\x1b[31m{}\x1b[0m",
        "c".repeat(35),
        " ".repeat(45),
        "c".repeat(1)
    );
    assert_eq!(out, expected);
}

#[test]
fn zero_terminal_width_falls_back_to_eighty() {
    let content = format!("{} {}", "a".repeat(20), "b".repeat(15));
    let at_zero = format_multiline_content(&content, Color::Red, false, 0);
    let at_eighty = format_multiline_content(&content, Color::Red, false, 80);
    assert_eq!(at_zero, at_eighty);
}

#[test]
fn hidden_timestamp_widens_message_column() {
    // without the timestamp column only 33 fixed columns remain: 47 available
    let content = format!("{} {}", "a".repeat(20), "b".repeat(15));
    let out = format_multiline_content(&content, Color::Red, true, 80);
    assert_eq!(out, format!("\x1b[31m{}\x1b[0m", content));
}

#[test]
fn hidden_timestamp_line_has_no_timestamp_column() {
    let mut state = RenderState::new();
    let out = format_log_line(
        &mut state,
        "02-03 15:44:41.704 2359 3654 I MyTag: Hello world",
        true,
        80,
    )
    .unwrap();
    let expected = format!(
        "  {}\x1b[31mMyTag\x1b[0m \x1b[1;30;42m I \x1b[0m \x1b[32mHello world\x1b[0m",
        " ".repeat(20)
    );
    assert_eq!(out, expected);
}

#[test]
fn long_tag_is_not_truncated() {
    let mut state = RenderState::new();
    let tag = "t".repeat(30);
    let line = format!("02-03 15:44:41.704 1 2 I {}: hi", tag);
    let out = format_log_line(&mut state, &line, false, 200).unwrap();
    assert!(out.contains(&tag));
}

#[test]
fn empty_message_still_emits_column_skeleton() {
    let mut state = RenderState::new();
    let out = format_log_line(&mut state, "02-03 15:44:41.704 1 2 I Tag: ", false, 80).unwrap();
    let expected = format!(
        "  \x1b[90m15:44:41.704\x1b[0m {}\x1b[31mTag:\x1b[0m \x1b[1;30;42m I \x1b[0m ",
        " ".repeat(21)
    );
    assert_eq!(out, expected);
}

#[test]
fn glob_pattern_translation() {
    assert_eq!(glob_to_regex("com.example.*"), "com\\.example\\..*");
    assert_eq!(glob_to_regex("plain"), "plain");
    assert_eq!(glob_to_regex(""), "");
}

#[test]
fn invalid_pattern_is_rejected() {
    match LogFilter::new("(") {
        Ok(_) => panic!("an unbalanced parenthesis must not compile"),
        Err(e) => assert_eq!(e, PatternError::InvalidPattern),
    }
}

#[test]
fn matching_pids_picks_second_token_of_matching_lines() {
    let filter = LogFilter::new(&glob_to_regex("com.example.*")).unwrap();
    let lines = vec![
        String::from("u0_a1 123 1 100 200 0 0 S com.example.app"),
        String::from("u0_a2 456 1 100 200 0 0 S org.other.app"),
        String::from("u0_a3 789 1 100 200 0 0 S com.example.service"),
        String::from("com.example.lonely"),
    ];
    let pids = matching_pids(&filter, &lines);
    let got: Vec<&str> = pids.iter().map(|p| p.as_str()).collect();
    assert_eq!(got, vec!["123", "789"]);
}

#[test]
fn multiline_message_blocks_align() {
    let out = format_multiline_content("one\ntwo", Color::Red, false, 80);
    let expected = format!(
        "\x1b[31mone\x1b[0m\n{}\x1b[31mtwo\x1b[0m",
        " ".repeat(45)
    );
    assert_eq!(out, expected);
}
