use dbug::ansi_256_from_hex;
use dbug::colorize;
use dbug::rgb_to_ansi256;
use dbug::scale_to_ansi;
use dbug::xterm_color_index_for_string;

#[test]
fn color_assignment_is_deterministic() {
    let a = xterm_color_index_for_string("parent:child");
    let b = xterm_color_index_for_string("parent:child");
    assert_eq!(a, b);
    let c = xterm_color_index_for_string("");
    let d = xterm_color_index_for_string("");
    assert_eq!(c, d);
}

#[test]
fn scale_buckets_channels_at_fixed_thresholds() {
    assert_eq!(scale_to_ansi(0), 0);
    assert_eq!(scale_to_ansi(47), 0);
    assert_eq!(scale_to_ansi(48), 1);
    assert_eq!(scale_to_ansi(114), 1);
    assert_eq!(scale_to_ansi(115), 2);
    assert_eq!(scale_to_ansi(154), 2);
    assert_eq!(scale_to_ansi(155), 3);
    assert_eq!(scale_to_ansi(194), 3);
    assert_eq!(scale_to_ansi(195), 4);
    assert_eq!(scale_to_ansi(234), 4);
    assert_eq!(scale_to_ansi(235), 5);
    assert_eq!(scale_to_ansi(255), 5);
}

#[test]
fn grayscale_ramp_has_fixed_endpoints() {
    assert_eq!(rgb_to_ansi256(0, 0, 0), 16);
    assert_eq!(rgb_to_ansi256(7, 7, 7), 16);
    assert_eq!(rgb_to_ansi256(249, 249, 249), 231);
    assert_eq!(rgb_to_ansi256(255, 255, 255), 231);
    assert_eq!(rgb_to_ansi256(128, 128, 128) as u32, 232 + (120u32 * 24) / 247);
}

#[test]
fn color_cube_combines_banded_channels() {
    assert_eq!(rgb_to_ansi256(0, 0, 204), 16 + 36 * 0 + 6 * 0 + 4);
    assert_eq!(rgb_to_ansi256(255, 204, 51), 16 + 36 * 5 + 6 * 4 + 1);
    assert_eq!(rgb_to_ansi256(255, 0, 0), 16 + 36 * 5);
}

#[test]
fn hex_parsing_accepts_palette_shapes() {
    assert_eq!(ansi_256_from_hex("#0000CC"), Some(20));
    assert_eq!(ansi_256_from_hex("0000CC"), Some(20));
    assert_eq!(ansi_256_from_hex("##0000CC"), Some(20));
    assert_eq!(ansi_256_from_hex("#0000cc"), Some(20));
}

#[test]
fn hex_parsing_rejects_short_or_bad_input() {
    assert_eq!(ansi_256_from_hex(""), None);
    assert_eq!(ansi_256_from_hex("#123"), None);
    assert_eq!(ansi_256_from_hex("#00zzCC"), None);
    assert_eq!(ansi_256_from_hex("######"), None);
}

#[test]
fn colorize_wraps_text_in_escape_sequence() {
    assert_eq!(colorize(20, "x"), "\u{1b}[1;38;5;20mx\u{1b}[0m");
    assert_eq!(colorize(231, ""), "\u{1b}[1;38;5;231m\u{1b}[0m");
    assert_eq!(colorize(0, "label"), "\u{1b}[1;38;5;0mlabel\u{1b}[0m");
}
