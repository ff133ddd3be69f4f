use cullrs::exif::{ExifError, ExifField, ExifService, ExifValue, RawExif};
use cullrs::records::{ExifTimestamp, Ratio};
use cullrs::numbers::parse_u32;
use cullrs::text::{replace_char, strip_trailing_nuls};

fn field(value: ExifValue) -> ExifField {
    ExifField { value, display: "shown".to_string() }
}

fn ascii(text: &[u8]) -> ExifField {
    field(ExifValue::Ascii(vec![text.to_vec()]))
}

fn empty() -> RawExif {
    RawExif {
        date_time_original: None,
        date_time: None,
        make: None,
        model: None,
        lens_model: None,
        lens_make: None,
        photographic_sensitivity: None,
        iso_speed: None,
        f_number: None,
        exposure_time: None,
    }
}

#[test]
fn test_parse_exif_datetime() {
    let exif_service = ExifService::new();

    let dt = exif_service.parse_exif_datetime("2023:12:25 14:30:45");
    assert!(dt.is_some());

    let parsed = dt.unwrap();
    assert_eq!(parsed.year, 2023);
    assert_eq!(parsed.month, 12);
    assert_eq!(parsed.day, 25);
    assert_eq!(parsed.hour, 14);
    assert_eq!(parsed.minute, 30);
    assert_eq!(parsed.second, 45);
}

#[test]
fn dates_that_are_none_are_refused() {
    let exif_service = ExifService::new();
    assert_eq!(exif_service.parse_exif_datetime(""), None);
    assert_eq!(exif_service.parse_exif_datetime("not a date"), None);
    assert_eq!(exif_service.parse_exif_datetime("2023:13:25 14:30:45"), None);
    assert_eq!(exif_service.parse_exif_datetime("2023:02:30 14:30:45"), None);
    assert_eq!(exif_service.parse_exif_datetime("2023:12:25 24:30:45"), None);
    assert_eq!(exif_service.parse_exif_datetime("2023-12-25 14:30:45"), None);
}

#[test]
fn field_text_by_kind() {
    let service = ExifService::new();
    assert_eq!(service.field_to_string(&ascii(b"Canon\0\0")), Some("Canon".to_string()));
    assert_eq!(service.field_to_string(&field(ExifValue::Ascii(vec![]))), None);
    assert_eq!(
        service.field_to_string(&field(ExifValue::Ascii(vec![b"a".to_vec(), b"b".to_vec()]))),
        Some("a".to_string())
    );
    assert_eq!(
        service.field_to_string(&field(ExifValue::Undefined(vec![0x30, 0x32, 0x33, 0x31, 0]))),
        Some("0231".to_string())
    );
    assert_eq!(
        service.field_to_string(&field(ExifValue::Undefined(vec![0x41, 0xff, 0x42]))),
        Some("A\u{fffd}B".to_string())
    );
    assert_eq!(
        service.field_to_string(&field(ExifValue::Rational(vec![(1, 250)]))),
        Some("shown".to_string())
    );
    assert_eq!(service.field_to_string(&field(ExifValue::Other)), Some("shown".to_string()));
}

#[test]
fn field_number_by_kind() {
    let service = ExifService::new();
    assert_eq!(service.field_to_u32(&field(ExifValue::Short(vec![400, 800]))), Some(400));
    assert_eq!(service.field_to_u32(&field(ExifValue::Short(vec![]))), None);
    assert_eq!(service.field_to_u32(&field(ExifValue::Long(vec![102400]))), Some(102400));
    assert_eq!(service.field_to_u32(&field(ExifValue::Long(vec![]))), None);
    assert_eq!(service.field_to_u32(&ascii(b"1600\0")), Some(1600));
    assert_eq!(service.field_to_u32(&ascii(b"16x0")), None);
    assert_eq!(service.field_to_u32(&field(ExifValue::Ascii(vec![]))), None);
    assert_eq!(service.field_to_u32(&field(ExifValue::Rational(vec![(1, 2)]))), None);
    assert_eq!(service.field_to_u32(&field(ExifValue::Other)), None);
}

#[test]
fn field_ratio_by_kind() {
    let service = ExifService::new();
    assert_eq!(
        service.field_to_ratio(&field(ExifValue::Rational(vec![(28, 10)]))),
        Some(Ratio { num: 28, denom: 10 })
    );
    assert_eq!(service.field_to_ratio(&field(ExifValue::Rational(vec![(28, 0)]))), None);
    assert_eq!(service.field_to_ratio(&field(ExifValue::Rational(vec![]))), None);
    assert_eq!(
        service.field_to_ratio(&field(ExifValue::SRational(vec![(-3, 2)]))),
        Some(Ratio { num: -3, denom: 2 })
    );
    assert_eq!(service.field_to_ratio(&field(ExifValue::SRational(vec![(5, 0)]))), None);
    assert_eq!(service.field_to_ratio(&field(ExifValue::Short(vec![1]))), None);
}

#[test]
fn numbers_are_read_as_the_standard_library_reads_them() {
    for text in ["0", "7", "007", "+5", "4294967295", "4294967296", "", "+", "-1", " 1", "1 ", "12a", "99999999999999999999"] {
        assert_eq!(parse_u32(text), text.parse::<u32>().ok(), "text {:?}", text);
    }
}

#[test]
fn trailing_nuls_are_stripped() {
    assert_eq!(strip_trailing_nuls("abc\0\0"), "abc");
    assert_eq!(strip_trailing_nuls("a\0b\0"), "a\0b");
    assert_eq!(strip_trailing_nuls("\0\0"), "");
    assert_eq!(strip_trailing_nuls(""), "");
    assert_eq!(strip_trailing_nuls("abc"), "abc");
}

#[test]
fn characters_are_replaced() {
    assert_eq!(replace_char("2023:12:25 14:30:45", ':', '-'), "2023-12-25 14-30-45");
    assert_eq!(replace_char("", ':', '-'), "");
}

#[test]
fn nothing_to_read_gives_nothing() {
    let service = ExifService::new();
    assert_eq!(service.assemble(&empty()), None);
    let unreadable = RawExif {
        date_time_original: Some(ascii(b"garbage")),
        photographic_sensitivity: Some(field(ExifValue::Other)),
        f_number: Some(field(ExifValue::Rational(vec![(1, 0)]))),
        ..empty()
    };
    assert_eq!(service.assemble(&unreadable), None);
}

#[test]
fn metadata_is_put_together() {
    let service = ExifService::new();
    let raw = RawExif {
        date_time_original: Some(ascii(b"2021:06:01 08:09:10\0")),
        date_time: Some(ascii(b"1999:01:01 00:00:00")),
        make: Some(ascii(b"  Canon \0")),
        model: Some(ascii(b"EOS R5")),
        lens_model: Some(ascii(b"RF 24-70")),
        lens_make: Some(ascii(b"Canon")),
        photographic_sensitivity: Some(field(ExifValue::Short(vec![200]))),
        iso_speed: Some(field(ExifValue::Long(vec![999]))),
        f_number: Some(field(ExifValue::Rational(vec![(28, 10)]))),
        exposure_time: Some(ExifField {
            value: ExifValue::Rational(vec![(1, 250)]),
            display: "1/250".to_string(),
        }),
    };
    let data = service.assemble(&raw).unwrap();
    assert_eq!(
        data.taken_at,
        Some(ExifTimestamp { year: 2021, month: 6, day: 1, hour: 8, minute: 9, second: 10 })
    );
    assert_eq!(data.camera, Some("Canon EOS R5".to_string()));
    assert_eq!(data.lens, Some("RF 24-70".to_string()));
    assert_eq!(data.iso, Some(200));
    assert_eq!(data.aperture, Some(Ratio { num: 28, denom: 10 }));
    assert_eq!(data.shutter_speed, Some("1/250".to_string()));
}

#[test]
fn second_fields_stand_in_for_missing_ones() {
    let service = ExifService::new();
    let raw = RawExif {
        date_time: Some(ascii(b"1999:01:02 03:04:05")),
        model: Some(ascii(b" X100 ")),
        lens_make: Some(ascii(b"Fuji")),
        iso_speed: Some(field(ExifValue::Long(vec![3200]))),
        ..empty()
    };
    let data = service.assemble(&raw).unwrap();
    assert_eq!(
        data.taken_at,
        Some(ExifTimestamp { year: 1999, month: 1, day: 2, hour: 3, minute: 4, second: 5 })
    );
    assert_eq!(data.camera, Some("X100".to_string()));
    assert_eq!(data.lens, Some("Fuji".to_string()));
    assert_eq!(data.iso, Some(3200));
    assert_eq!(data.aperture, None);
    assert_eq!(data.shutter_speed, None);
}

#[test]
fn a_first_field_that_cannot_be_read_is_not_replaced() {
    let service = ExifService::new();
    let raw = RawExif {
        date_time_original: Some(ascii(b"unreadable")),
        date_time: Some(ascii(b"1999:01:02 03:04:05")),
        make: Some(ascii(b"Leica")),
        photographic_sensitivity: Some(field(ExifValue::Other)),
        iso_speed: Some(field(ExifValue::Long(vec![3200]))),
        ..empty()
    };
    let data = service.assemble(&raw).unwrap();
    assert_eq!(data.taken_at, None);
    assert_eq!(data.iso, None);
    assert_eq!(data.camera, Some("Leica".to_string()));
}

#[test]
fn exif_error_messages() {
    assert_eq!(ExifError::Io("a".to_string()).message(), "IO error: a");
    assert_eq!(ExifError::Parse("b".to_string()).message(), "EXIF parsing error: b");
    assert_eq!(
        ExifError::DateParse { message: "c".to_string() }.message(),
        "Date parsing error: c"
    );
}
