use pixelflut_ball::parse::{collect_pixel_colors, parse_pixel_response, parse_size_response};
use pixelflut_ball::protocol::PixelflutCommand;

#[test]
fn size_response_basic() {
    assert_eq!(parse_size_response(b"SIZE 800 600\n"), Some((800, 600)));
}

#[test]
fn size_response_case_insensitive_and_whitespace() {
    assert_eq!(parse_size_response(b"  sIzE\t 1024   768  \r\n"), Some((1024, 768)));
}

#[test]
fn size_response_no_newline() {
    assert_eq!(parse_size_response(b"SIZE 1 2"), Some((1, 2)));
}

#[test]
fn size_response_rejects_missing_number() {
    assert_eq!(parse_size_response(b"SIZE 800\n"), None);
}

#[test]
fn size_response_rejects_overflow() {
    assert_eq!(parse_size_response(b"SIZE 99999 600\n"), None);
    assert_eq!(parse_size_response(b"SIZE 65535 65535\n"), Some((65535, 65535)));
}

#[test]
fn size_response_rejects_garbage() {
    assert_eq!(parse_size_response(b"HELP\n"), None);
    assert_eq!(parse_size_response(b""), None);
    assert_eq!(parse_size_response(b"SIZE12 34\n"), None);
    assert_eq!(parse_size_response(b"SIZE 12 34 garbage\n"), None);
}

#[test]
fn pixel_response_basic() {
    assert_eq!(parse_pixel_response(b"PX 10 20 ff0000\n"), Some(0xff0000));
}

#[test]
fn pixel_response_accepts_uppercase_hex() {
    assert_eq!(parse_pixel_response(b"PX 1 2 FF\n"), Some(255));
}

#[test]
fn pixel_response_short_hex() {
    assert_eq!(parse_pixel_response(b"PX 1 2 0\n"), Some(0));
}

#[test]
fn pixel_response_leading_zeros_do_not_overflow() {
    assert_eq!(parse_pixel_response(b"PX 1 2 00000000ff\n"), Some(255));
}

#[test]
fn pixel_response_overflow_is_dropped() {
    assert_eq!(parse_pixel_response(b"PX 1 2 fffffffff\n"), None);
    assert_eq!(parse_pixel_response(b"PX 1 2 ffffffff\n"), Some(u32::MAX));
}

#[test]
fn pixel_response_requires_trailing_whitespace() {
    assert_eq!(parse_pixel_response(b"PX 1 2 ff"), None);
}

#[test]
fn pixel_response_rejects_missing_color() {
    assert_eq!(parse_pixel_response(b"PX 1 2\n"), None);
    assert_eq!(parse_pixel_response(b"PX 1\n"), None);
    assert_eq!(parse_pixel_response(b"px 1 2 ff\n"), None);
}

#[test]
fn set_pixel_encoding_round_trips_through_pixel_response() {
    for rgb in [0u32, 1, 0xff, 0xff0000, 0xabcdef, 0xffffff] {
        let line = PixelflutCommand::SetPixel { x: 31, y: 47, rgb }.encode();
        assert_eq!(parse_pixel_response(&line), Some(rgb));
    }
}

#[test]
fn collect_pixel_colors_drops_unparsable_lines() {
    let lines: Vec<Vec<u8>> = vec![
        b"PX 1 2 ff0000\n".to_vec(),
        b"nonsense\n".to_vec(),
        b"PX 3 4 00ff00\n".to_vec(),
        b"PX 5 6\n".to_vec(),
        b"PX 7 8 0000ff\n".to_vec(),
    ];
    let colors = collect_pixel_colors(&lines);
    assert_eq!(colors, vec![0xff0000, 0x00ff00, 0x0000ff]);
}
