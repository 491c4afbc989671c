use datestamp::errors::RenameError;
use datestamp::matroska_date::{
    resolve_matroska_date, MatroskaDoc, SimpleTag, TagBlock, TagValue,
};
use datestamp::mp4_date::resolve_mp4_date;
use datestamp::timestamp::apply_offset;

fn qt_tag(name: &str, value: Option<TagValue>) -> TagBlock {
    TagBlock { simple: vec![SimpleTag { name: String::from(name), value }] }
}

const QT_NAME: &str = "com.apple.quicktime.creationdate";

#[test]
fn quicktime_tag_takes_precedence_over_info_date() {
    let doc = MatroskaDoc {
        info_date: Some(555),
        tags: vec![qt_tag(
            QT_NAME,
            Some(TagValue::Text(String::from("1970-01-01T00:16:40Z"))),
        )],
    };
    assert_eq!(resolve_matroska_date(&doc), Ok(1000));
}

#[test]
fn quicktime_tag_name_match_ignores_case() {
    let doc = MatroskaDoc {
        info_date: None,
        tags: vec![qt_tag(
            "COM.APPLE.QUICKTIME.CREATIONDATE",
            Some(TagValue::Text(String::from("1970-01-01T00:00:10Z"))),
        )],
    };
    assert_eq!(resolve_matroska_date(&doc), Ok(10));
}

#[test]
fn quicktime_tag_with_offset_decodes_to_utc() {
    let doc = MatroskaDoc {
        info_date: None,
        tags: vec![qt_tag(
            QT_NAME,
            Some(TagValue::Text(String::from("1970-01-01T02:00:00+02:00"))),
        )],
    };
    assert_eq!(resolve_matroska_date(&doc), Ok(0));
}

#[test]
fn info_date_is_fallback_when_no_tag() {
    let doc = MatroskaDoc {
        info_date: Some(555),
        tags: vec![qt_tag("some.other.tag", Some(TagValue::Text(String::from("x"))))],
    };
    assert_eq!(resolve_matroska_date(&doc), Ok(555));
}

#[test]
fn binary_tag_value_falls_through_to_info_date() {
    let doc = MatroskaDoc {
        info_date: Some(555),
        tags: vec![qt_tag(QT_NAME, Some(TagValue::Binary(vec![1, 2, 3])))],
    };
    assert_eq!(resolve_matroska_date(&doc), Ok(555));
}

#[test]
fn unparseable_tag_text_falls_through_to_info_date() {
    let doc = MatroskaDoc {
        info_date: Some(555),
        tags: vec![qt_tag(QT_NAME, Some(TagValue::Text(String::from("not a date"))))],
    };
    assert_eq!(resolve_matroska_date(&doc), Ok(555));
}

#[test]
fn missing_tag_value_falls_through_to_info_date() {
    let doc = MatroskaDoc { info_date: Some(555), tags: vec![qt_tag(QT_NAME, None)] };
    assert_eq!(resolve_matroska_date(&doc), Ok(555));
}

#[test]
fn first_named_tag_decides_even_when_unusable() {
    let doc = MatroskaDoc {
        info_date: Some(555),
        tags: vec![
            qt_tag(QT_NAME, Some(TagValue::Text(String::from("garbage")))),
            qt_tag(QT_NAME, Some(TagValue::Text(String::from("1970-01-01T00:00:10Z")))),
        ],
    };
    assert_eq!(resolve_matroska_date(&doc), Ok(555));
}

#[test]
fn no_tag_and_no_info_date_is_date_not_found() {
    let doc = MatroskaDoc { info_date: None, tags: vec![] };
    assert_eq!(resolve_matroska_date(&doc), Err(RenameError::DateNotFound));
}

#[test]
fn bad_tag_and_no_info_date_is_date_not_found() {
    let doc = MatroskaDoc {
        info_date: None,
        tags: vec![qt_tag(QT_NAME, Some(TagValue::Binary(vec![0])))],
    };
    assert_eq!(resolve_matroska_date(&doc), Err(RenameError::DateNotFound));
}

#[test]
fn mp4_epoch_value_resolves_to_unix_zero() {
    assert_eq!(resolve_mp4_date(2082844800), Ok(0));
}

#[test]
fn mp4_zero_resolves_to_1904_epoch() {
    assert_eq!(resolve_mp4_date(0), Ok(-2082844800));
}

#[test]
fn mp4_modern_value_resolves() {
    assert_eq!(resolve_mp4_date(2082844800 + 1681265941), Ok(1681265941));
}

#[test]
fn mp4_absurd_value_is_date_not_found() {
    assert_eq!(resolve_mp4_date(u64::MAX), Err(RenameError::DateNotFound));
}

#[test]
fn offset_arithmetic() {
    assert_eq!(apply_offset(1000000, -12600), Some(987400));
}

#[test]
fn offset_of_zero_is_identity() {
    assert_eq!(apply_offset(1681265941, 0), Some(1681265941));
}

#[test]
fn offset_overflow_is_none() {
    assert_eq!(apply_offset(i64::MAX, 1), None);
    assert_eq!(apply_offset(i64::MIN, -1), None);
}
