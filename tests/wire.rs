use led_controller::wire::{
    is_whitespace, parse_decimal, parse_split_speed, parse_unified_speed, render_duty,
    render_unified_command,
};

#[test]
fn unified_read_takes_the_word_after_the_colon() {
    assert_eq!(parse_unified_speed("speed: 3 presses/second"), 3);
    assert_eq!(parse_unified_speed("status: 7 presses/sec"), 7);
}

#[test]
fn unified_read_without_colon_is_zero() {
    assert_eq!(parse_unified_speed("garbage"), 0);
    assert_eq!(parse_unified_speed(""), 0);
}

#[test]
fn unified_read_of_no_number_is_zero() {
    assert_eq!(parse_unified_speed("x: notanumber"), 0);
    assert_eq!(parse_unified_speed("x:"), 0);
    assert_eq!(parse_unified_speed("x:   \n"), 0);
    assert_eq!(parse_unified_speed("x: -4"), 0);
}

#[test]
fn unified_read_splits_only_at_the_first_colon() {
    assert_eq!(parse_unified_speed("a: 5:6"), 0);
    assert_eq!(parse_unified_speed("a:12 b:34"), 12);
}

#[test]
fn unified_read_ends_the_word_at_any_white_space() {
    assert_eq!(parse_unified_speed("speed:\t8\tpresses"), 8);
    assert_eq!(parse_unified_speed("speed: 9\n"), 9);
}

#[test]
fn unified_read_of_a_number_too_large_is_zero() {
    assert_eq!(parse_unified_speed("s: 18446744073709551615"), u64::MAX);
    assert_eq!(parse_unified_speed("s: 18446744073709551616"), 0);
}

#[test]
fn split_read_trims_white_space() {
    assert_eq!(parse_split_speed("  4\n"), 4);
    assert_eq!(parse_split_speed("12"), 12);
    assert_eq!(parse_split_speed("+3\n"), 3);
}

#[test]
fn split_read_of_no_number_is_zero() {
    assert_eq!(parse_split_speed(""), 0);
    assert_eq!(parse_split_speed(" \n"), 0);
    assert_eq!(parse_split_speed("4 5"), 0);
    assert_eq!(parse_split_speed("+"), 0);
    assert_eq!(parse_split_speed("four"), 0);
}

#[test]
fn split_read_trims_unicode_white_space() {
    assert_eq!(parse_split_speed("\u{3000}6\u{a0}"), 6);
}

#[test]
fn parse_decimal_reads_a_slice() {
    assert_eq!(parse_decimal("ab123cd", 2, 5), Some(123));
    assert_eq!(parse_decimal("ab123cd", 2, 2), None);
    assert_eq!(parse_decimal("007", 0, 3), Some(7));
    assert_eq!(parse_decimal("1x", 0, 2), None);
}

#[test]
fn whitespace_matches_std() {
    for c in ['\t', '\n', '\r', ' ', '\u{85}', '\u{a0}', '\u{2003}', '\u{3000}', 'a', '0', ':'] {
        assert_eq!(is_whitespace(c), c.is_whitespace());
    }
}

#[test]
fn render_duty_writes_bare_decimal() {
    assert_eq!(render_duty(0), b"0".to_vec());
    assert_eq!(render_duty(7), b"7".to_vec());
    assert_eq!(render_duty(100), b"100".to_vec());
    assert_eq!(render_duty(u32::MAX), u32::MAX.to_string().into_bytes());
}

#[test]
fn unified_command_is_space_separated() {
    assert_eq!(render_unified_command(10, 0, 0), b"10 0 0".to_vec());
    assert_eq!(render_unified_command(90, 83, 68), b"90 83 68".to_vec());
}
