use tune::lyrics::{active_lyric_index, lyric_window, parse_lrc};

#[test]
fn parse_two_lines_and_resolve_active() {
    let lines = parse_lrc("[00:01.00]Hello\n[00:02.50]World");
    assert_eq!(lines.len(), 2);
    assert_eq!(lines[0].timestamp_ms, 1000);
    assert_eq!(lines[0].text, "Hello");
    assert_eq!(lines[1].timestamp_ms, 2500);
    assert_eq!(lines[1].text, "World");
    assert_eq!(active_lyric_index(&lines, 1500), 0);
    assert_eq!(active_lyric_index(&lines, 3000), 1);
}

#[test]
fn active_line_before_first_timestamp_is_first() {
    let lines = parse_lrc("[00:10]Late\n[00:20]Later");
    assert_eq!(active_lyric_index(&lines, 0), 0);
    assert_eq!(active_lyric_index(&lines, 10_000), 0);
    assert_eq!(active_lyric_index(&lines, 19_999), 0);
    assert_eq!(active_lyric_index(&lines, 20_000), 1);
}

#[test]
fn fraction_digits_normalize_to_milliseconds() {
    let lines = parse_lrc("[00:01.5]a\n[00:01.55]b\n[00:01.555]c\n[00:01.5555]d");
    assert_eq!(lines[0].timestamp_ms, 1500);
    assert_eq!(lines[1].timestamp_ms, 1550);
    assert_eq!(lines[2].timestamp_ms, 1555);
    assert_eq!(lines[3].timestamp_ms, 6555);
}

#[test]
fn minutes_count_sixty_seconds() {
    let lines = parse_lrc("[02:03.04]x");
    assert_eq!(lines[0].timestamp_ms, 2 * 60_000 + 3_000 + 40);
}

#[test]
fn malformed_lines_are_dropped() {
    let src = "no brackets\n[nocolon]gone\n[00:01:02]two colons\n\n   \n[00:05]kept";
    let lines = parse_lrc(src);
    assert_eq!(lines.len(), 1);
    assert_eq!(lines[0].timestamp_ms, 5000);
    assert_eq!(lines[0].text, "kept");
}

#[test]
fn unparsable_numbers_drop_the_line() {
    let lines = parse_lrc("[aa:01]x\n[00:bb.7]y\n[00:01.]z\n[00:02]kept");
    assert_eq!(lines.len(), 1);
    assert_eq!(lines[0].timestamp_ms, 2000);
    assert_eq!(lines[0].text, "kept");
}

#[test]
fn plus_signs_parse_as_std_does() {
    let lines = parse_lrc("[+1:02]a\n[00:+5]b\n[00:01.+9]c");
    assert_eq!(lines.len(), 3);
    assert_eq!(lines[0].timestamp_ms, 62_000);
    assert_eq!(lines[1].timestamp_ms, 5_000);
    assert_eq!(lines[2].timestamp_ms, 1_090);
}

#[test]
fn text_after_inner_brackets_is_rejoined() {
    let lines = parse_lrc("[00:01]a]b]c");
    assert_eq!(lines.len(), 1);
    assert_eq!(lines[0].text, "a]b]c");
}

#[test]
fn leading_brackets_are_stripped_from_timestamp() {
    let lines = parse_lrc("[[00:02]x");
    assert_eq!(lines.len(), 1);
    assert_eq!(lines[0].timestamp_ms, 2000);
}

#[test]
fn surrounding_whitespace_is_trimmed() {
    let lines = parse_lrc("   [00:01]  padded text  \r\n[00:02]next");
    assert_eq!(lines.len(), 2);
    assert_eq!(lines[0].text, "padded text");
    assert_eq!(lines[1].text, "next");
}

#[test]
fn totally_unusable_source_parses_to_nothing() {
    assert_eq!(parse_lrc("").len(), 0);
    assert_eq!(parse_lrc("just\nplain\ntext").len(), 0);
}

#[test]
fn window_centres_on_active_line() {
    assert_eq!(lyric_window(0, 10, 4), (0, 4));
    assert_eq!(lyric_window(5, 10, 4), (3, 7));
    assert_eq!(lyric_window(9, 10, 4), (6, 10));
    assert_eq!(lyric_window(1, 3, 8), (0, 3));
}
