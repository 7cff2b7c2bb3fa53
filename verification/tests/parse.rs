use teal::config::{parse_dims, DimsError};
use teal::gui::{parse_key, Key};

#[test]
fn parse_dims_accepts_width_by_height() {
    assert_eq!(parse_dims("800x600"), Ok((800, 600)));
    assert_eq!(parse_dims("1x1"), Ok((1, 1)));
    assert_eq!(parse_dims("0x4294967295"), Ok((0, 4294967295)));
}

#[test]
fn parse_dims_needs_a_separator() {
    assert_eq!(parse_dims("800"), Err(DimsError::MissingSeparator));
    assert_eq!(parse_dims(""), Err(DimsError::MissingSeparator));
}

#[test]
fn parse_dims_rejects_bad_fields() {
    assert_eq!(parse_dims("x600"), Err(DimsError::BadWidth));
    assert_eq!(parse_dims("800x"), Err(DimsError::BadHeight));
    assert_eq!(parse_dims("80ax600"), Err(DimsError::BadWidth));
    assert_eq!(parse_dims("800x6b0"), Err(DimsError::BadHeight));
    // One past u32::MAX overflows the width field.
    assert_eq!(parse_dims("4294967296x2"), Err(DimsError::BadWidth));
}

#[test]
fn parse_dims_splits_at_first_separator() {
    // The second `x` is part of the height field, which is then rejected.
    assert_eq!(parse_dims("8x6x0"), Err(DimsError::BadHeight));
}

#[test]
fn parse_key_classifies_reports() {
    assert_eq!(
        parse_key(Some('u'), false, true, false, false),
        Some(Key::Sequence { value: 'u', control: false, alt: true })
    );
    assert_eq!(parse_key(None, false, false, true, false), Some(Key::PlainControl));
    assert_eq!(parse_key(None, false, false, false, true), Some(Key::PlainAlt));
    assert_eq!(parse_key(None, false, false, false, false), None);
}
