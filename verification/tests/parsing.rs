//! The subscription-list and size-string parsers.

use ht::events::parse_subscription;
use ht::size::{parse_size, render_size, Size, SizeError};

#[test]
fn subscription_single_name() {
    let sub = parse_subscription("exit").unwrap();
    assert!(sub.exit);
    assert!(!sub.init && !sub.output && !sub.resize && !sub.snapshot);
}

#[test]
fn subscription_several_names() {
    let sub = parse_subscription("init,output,exit").unwrap();
    assert!(sub.init && sub.output && sub.exit);
    assert!(!sub.resize && !sub.snapshot);
}

#[test]
fn subscription_all_names() {
    let sub = parse_subscription("init,output,resize,snapshot,exit").unwrap();
    assert!(sub.init && sub.output && sub.resize && sub.snapshot && sub.exit);
}

#[test]
fn subscription_repeated_name_is_fine() {
    let sub = parse_subscription("exit,exit").unwrap();
    assert!(sub.exit);
    assert!(!sub.init);
}

#[test]
fn subscription_unknown_name_errors() {
    let err = parse_subscription("init,foo,exit").unwrap_err();
    assert_eq!(err.start, 5);
    assert_eq!(err.end, 8);
}

#[test]
fn subscription_empty_string_errors() {
    let err = parse_subscription("").unwrap_err();
    assert_eq!(err.start, 0);
    assert_eq!(err.end, 0);
}

#[test]
fn subscription_trailing_comma_errors() {
    let err = parse_subscription("init,").unwrap_err();
    assert_eq!(err.start, 5);
    assert_eq!(err.end, 5);
}

#[test]
fn subscription_case_sensitive() {
    assert!(parse_subscription("Init").is_err());
}

#[test]
fn size_default_form() {
    assert_eq!(parse_size("120x40"), Ok(Size::new(120, 40)));
}

#[test]
fn size_small_form() {
    let size = parse_size("80x24").unwrap();
    assert_eq!(size.cols(), 80);
    assert_eq!(size.rows(), 24);
}

#[test]
fn size_without_separator() {
    assert_eq!(parse_size("8024"), Err(SizeError::NoSeparator));
    assert_eq!(parse_size(""), Err(SizeError::NoSeparator));
}

#[test]
fn size_bad_columns() {
    assert_eq!(parse_size("ax24"), Err(SizeError::BadCols));
    assert_eq!(parse_size("x24"), Err(SizeError::BadCols));
    assert_eq!(parse_size("-1x24"), Err(SizeError::BadCols));
}

#[test]
fn size_bad_rows() {
    assert_eq!(parse_size("80x"), Err(SizeError::BadRows));
    assert_eq!(parse_size("80xb"), Err(SizeError::BadRows));
    assert_eq!(parse_size("80x24x7"), Err(SizeError::BadRows));
}

#[test]
fn size_rejects_zero_parts() {
    // A winsize has at least one column and one row.
    assert_eq!(parse_size("0x40"), Err(SizeError::BadCols));
    assert_eq!(parse_size("120x0"), Err(SizeError::BadRows));
    assert_eq!(parse_size("0x0"), Err(SizeError::BadCols));
    assert_eq!(parse_size("00x40"), Err(SizeError::BadCols));
    assert_eq!(parse_size("1x1"), Ok(Size::new(1, 1)));
}

#[test]
fn size_bounds_of_u16() {
    assert_eq!(parse_size("65535x1"), Ok(Size::new(65535, 1)));
    assert_eq!(parse_size("65536x1"), Err(SizeError::BadCols));
    assert_eq!(parse_size("1x65536"), Err(SizeError::BadRows));
}

#[test]
fn size_accepts_leading_plus_as_unsigned_parse_does() {
    assert_eq!(parse_size("+80x+24"), Ok(Size::new(80, 24)));
    assert_eq!(parse_size("+x24"), Err(SizeError::BadCols));
}

#[test]
fn size_accepts_leading_zeros() {
    assert_eq!(parse_size("0080x024"), Ok(Size::new(80, 24)));
}

#[test]
fn size_render_parse_round_trip() {
    for (cols, rows) in [(1u16, 1u16), (80, 24), (120, 40), (65535, 1), (1, 65535)] {
        let size = Size::new(cols, rows);
        let rendered = render_size(&size);
        let text = String::from_utf8(rendered).expect("rendering is ASCII");
        assert_eq!(parse_size(&text), Ok(size));
    }
}

#[test]
fn size_render_exact_bytes() {
    assert_eq!(render_size(&Size::new(120, 40)), b"120x40".to_vec());
    assert_eq!(render_size(&Size::new(1, 65535)), b"1x65535".to_vec());
}
