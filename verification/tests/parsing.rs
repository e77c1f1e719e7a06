use rit::bytes::{bytes_eq, fmt_u64, parse_u32, to_lower};
use rit::config::{parse_resize, flips_from_selection, rotation_warning, Config, ResizeOption};

#[test]
fn parse_u32_plain() {
    assert_eq!(parse_u32(b"0"), Some(0));
    assert_eq!(parse_u32(b"50"), Some(50));
    assert_eq!(parse_u32(b"4294967295"), Some(u32::MAX));
}

#[test]
fn parse_u32_leading_zeros() {
    assert_eq!(parse_u32(b"0000000000123"), Some(123));
}

#[test]
fn parse_u32_rejects() {
    assert_eq!(parse_u32(b""), None);
    assert_eq!(parse_u32(b"12a"), None);
    assert_eq!(parse_u32(b"-5"), None);
    assert_eq!(parse_u32(b"4294967296"), None);
}

#[test]
fn fmt_u64_examples() {
    assert_eq!(fmt_u64(0), b"0".to_vec());
    assert_eq!(fmt_u64(7), b"7".to_vec());
    assert_eq!(fmt_u64(1234), b"1234".to_vec());
    assert_eq!(fmt_u64(1000000), b"1000000".to_vec());
}

#[test]
fn to_lower_ascii() {
    assert_eq!(to_lower(b"JPeG"), b"jpeg".to_vec());
    assert_eq!(to_lower(b"png-1"), b"png-1".to_vec());
}

#[test]
fn bytes_eq_basic() {
    assert!(bytes_eq(b"abc", b"abc"));
    assert!(!bytes_eq(b"abc", b"abd"));
    assert!(!bytes_eq(b"abc", b"ab"));
}

#[test]
fn resize_exact_form() {
    assert_eq!(parse_resize(b"800x600"), Some(ResizeOption::Exact(800, 600)));
    assert_eq!(parse_resize(b"1x1"), Some(ResizeOption::Exact(1, 1)));
}

#[test]
fn resize_percentage_form() {
    assert_eq!(parse_resize(b"50%"), Some(ResizeOption::Percentage(50)));
    assert_eq!(parse_resize(b"150%"), Some(ResizeOption::Percentage(150)));
}

#[test]
fn resize_axis_forms() {
    assert_eq!(parse_resize(b"800w"), Some(ResizeOption::Width(800)));
    assert_eq!(parse_resize(b"600h"), Some(ResizeOption::Height(600)));
}

#[test]
fn resize_rejects_malformed() {
    assert_eq!(parse_resize(b""), None);
    assert_eq!(parse_resize(b"800"), None);
    assert_eq!(parse_resize(b"x600"), None);
    assert_eq!(parse_resize(b"800x"), None);
    assert_eq!(parse_resize(b"800x600x2"), None);
    assert_eq!(parse_resize(b"ax6"), None);
    assert_eq!(parse_resize(b"%"), None);
    assert_eq!(parse_resize(b"50.5%"), None);
    assert_eq!(parse_resize(b"99999999999%"), None);
}

#[test]
fn flip_selection_mapping() {
    assert_eq!(flips_from_selection(0), (false, false));
    assert_eq!(flips_from_selection(1), (true, false));
    assert_eq!(flips_from_selection(2), (false, true));
    assert_eq!(flips_from_selection(3), (true, true));
}

#[test]
fn rotation_warning_on_invalid_angle() {
    let mut c = Config { resize: None, rotate: Some(45), flip_horizontal: false, flip_vertical: false };
    assert!(rotation_warning(&c));
    c.rotate = Some(90);
    assert!(!rotation_warning(&c));
    c.rotate = None;
    assert!(!rotation_warning(&c));
}
