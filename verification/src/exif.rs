//! Descriptive metadata: reading the fields that a decoder found in an image
//! file, and putting together what the catalog keeps of them.

use vstd::prelude::*;
use chrono::{Datelike, Timelike};
use crate::records::{ExifData, ExifTimestamp, Ratio};
use crate::numbers::{parse_u32, parsed_u32};
use crate::text::{
    decode_lossy, join2, lossy_text, opt_text, replace_char, replaced, strip_trailing_nuls, trim,
    trimmed, without_trailing_nuls,
};

verus! {

/// Why metadata could not be read.
#[derive(Debug)]
pub enum ExifError {
    /// The file could not be read.
    Io(String),
    /// The metadata could not be decoded.
    Parse(String),
    /// A date could not be read.
    DateParse { message: String },
}

impl ExifError {
    /// The line of text that describes the error.
    pub open spec fn text(&self) -> Seq<char> {
        match *self {
            ExifError::Io(m) => "IO error: "@ + m@,
            ExifError::Parse(m) => "EXIF parsing error: "@ + m@,
            ExifError::DateParse { message } => "Date parsing error: "@ + message@,
        }
    }

    /// A line of text that describes the error.
    pub fn message(&self) -> (out: String)
        ensures
            out@ == self.text(),
    {
        match self {
            ExifError::Io(m) => join2("IO error: ", m.as_str()),
            ExifError::Parse(m) => join2("EXIF parsing error: ", m.as_str()),
            ExifError::DateParse { message } => join2("Date parsing error: ", message.as_str()),
        }
    }
}

/// The value of a metadata field, by its kind.
#[derive(Debug, Clone, PartialEq, Eq)]
pub enum ExifValue {
    /// Texts, as bytes.
    Ascii(Vec<Vec<u8>>),
    /// Bytes of no stated kind.
    Undefined(Vec<u8>),
    Short(Vec<u16>),
    Long(Vec<u32>),
    /// Fractions, each as numerator and denominator.
    Rational(Vec<(u32, u32)>),
    /// Signed fractions, each as numerator and denominator.
    SRational(Vec<(i32, i32)>),
    /// A value of another kind.
    Other,
}

/// A metadata field: its value, and the text in which the decoder shows it.
#[derive(Debug, Clone, PartialEq, Eq)]
pub struct ExifField {
    pub value: ExifValue,
    pub display: String,
}

/// The fields of an image file that the catalog reads, each where the file
/// has it.
#[derive(Debug, Clone, PartialEq, Eq)]
pub struct RawExif {
    pub date_time_original: Option<ExifField>,
    pub date_time: Option<ExifField>,
    pub make: Option<ExifField>,
    pub model: Option<ExifField>,
    pub lens_model: Option<ExifField>,
    pub lens_make: Option<ExifField>,
    pub photographic_sensitivity: Option<ExifField>,
    pub iso_speed: Option<ExifField>,
    pub f_number: Option<ExifField>,
    pub exposure_time: Option<ExifField>,
}

/// What `chrono::NaiveDateTime::parse_from_str` reads from `text` under
/// `format`: year, month, day, hour, minute and second, or `None` where it
/// fails.
pub uninterp spec fn parsed_datetime(text: Seq<char>, format: Seq<char>) -> Option<
    (int, int, int, int, int, int),
>;

/// The fields of a timestamp, in the order year, month, day, hour, minute,
/// second.
pub open spec fn timestamp_fields(t: ExifTimestamp) -> (int, int, int, int, int, int) {
    (t.year as int, t.month as int, t.day as int, t.hour as int, t.minute as int, t.second as int)
}

/// Calls `chrono::NaiveDateTime::parse_from_str` and copies the fields of
/// the date and time that it returns. The contract only gives the result its
/// name: the same text and format always read the same.
#[verifier::external_body]
pub(crate) fn parse_naive(text: &str, format: &str) -> (out: Option<ExifTimestamp>)
    ensures
        out is Some <==> parsed_datetime(text@, format@) is Some,
        out matches Some(t) ==> parsed_datetime(text@, format@) == Some(timestamp_fields(t)),
{
    match chrono::NaiveDateTime::parse_from_str(text, format) {
        Ok(dt) => Some(
            ExifTimestamp {
                year: dt.year(),
                month: dt.month(),
                day: dt.day(),
                hour: dt.hour(),
                minute: dt.minute(),
                second: dt.second(),
            },
        ),
        Err(_) => None,
    }
}

/// The fields that a camera's date text holds. The text is read first with
/// its colons turned into hyphens, as `year-month-day hour:minute:second`,
/// and, where that fails, as it stands, as
/// `year:month:day hour:minute:second`.
pub open spec fn datetime_of(text: Seq<char>) -> Option<(int, int, int, int, int, int)> {
    match parsed_datetime(replaced(text, ':', '-'), "%Y-%m-%d %H:%M:%S"@) {
        Some(fields) => Some(fields),
        None => parsed_datetime(text, "%Y:%m:%d %H:%M:%S"@),
    }
}

/// The timestamp that stands for the fields, where there are any.
pub open spec fn reads_datetime(out: Option<ExifTimestamp>, fields: Option<
    (int, int, int, int, int, int),
>) -> bool {
    match out {
        Some(t) => fields == Some(timestamp_fields(t)),
        None => fields is None,
    }
}

/// The text of a field: of a text field its first text, of bytes of no
/// stated kind all of them, each read leniently and without the NUL
/// characters at its end; of any other field the text in which the decoder
/// shows it. A text field without texts has none.
pub open spec fn field_text(field: ExifField) -> Option<Seq<char>> {
    match field.value {
        ExifValue::Ascii(texts) => if texts@.len() > 0 {
            Some(without_trailing_nuls(lossy_text(texts@[0]@)))
        } else {
            None
        },
        ExifValue::Undefined(data) => Some(without_trailing_nuls(lossy_text(data@))),
        _ => Some(field.display@),
    }
}

/// The number of a field: the first of its numbers, or the number that its
/// first text writes.
pub open spec fn field_number(field: ExifField) -> Option<u32> {
    match field.value {
        ExifValue::Short(v) => if v@.len() > 0 {
            Some(v@[0] as u32)
        } else {
            None
        },
        ExifValue::Long(v) => if v@.len() > 0 {
            Some(v@[0])
        } else {
            None
        },
        ExifValue::Ascii(texts) => if texts@.len() > 0 {
            parsed_u32(without_trailing_nuls(lossy_text(texts@[0]@)))
        } else {
            None
        },
        _ => None,
    }
}

/// The fraction of a field: the first of its fractions, unless its
/// denominator is zero.
pub open spec fn field_ratio(field: ExifField) -> Option<Ratio> {
    match field.value {
        ExifValue::Rational(v) => if v@.len() > 0 && v@[0].1 != 0 {
            Some(Ratio { num: v@[0].0 as i64, denom: v@[0].1 as i64 })
        } else {
            None
        },
        ExifValue::SRational(v) => if v@.len() > 0 && v@[0].1 != 0 {
            Some(Ratio { num: v@[0].0 as i64, denom: v@[0].1 as i64 })
        } else {
            None
        },
        _ => None,
    }
}

/// The text of the first of two fields that is there.
pub open spec fn first_text(first: Option<ExifField>, second: Option<ExifField>) -> Option<
    Seq<char>,
> {
    match first {
        Some(f) => field_text(f),
        None => match second {
            Some(f) => field_text(f),
            None => None,
        },
    }
}

/// When the picture was taken: read from the original date where the file
/// has that field, else from its date.
pub open spec fn taken_at_of(raw: RawExif) -> Option<(int, int, int, int, int, int)> {
    match first_text(raw.date_time_original, raw.date_time) {
        Some(text) => datetime_of(text),
        None => None,
    }
}

/// The trimmed text of a field, where it has a text.
pub open spec fn trimmed_text(field: Option<ExifField>) -> Option<Seq<char>> {
    match field {
        Some(f) => match field_text(f) {
            Some(t) => Some(trimmed(t)),
            None => None,
        },
        None => None,
    }
}

/// The camera: its make and its model, each trimmed, with a blank between
/// them where both are known.
pub open spec fn camera_of(raw: RawExif) -> Option<Seq<char>> {
    match (trimmed_text(raw.make), trimmed_text(raw.model)) {
        (Some(make), Some(model)) => Some(make + " "@ + model),
        (Some(make), None) => Some(make),
        (None, Some(model)) => Some(model),
        (None, None) => None,
    }
}

/// The sensitivity: read from the photographic sensitivity where the file
/// has that field, else from its ISO speed.
pub open spec fn iso_of(raw: RawExif) -> Option<u32> {
    match raw.photographic_sensitivity {
        Some(f) => field_number(f),
        None => match raw.iso_speed {
            Some(f) => field_number(f),
            None => None,
        },
    }
}

/// The f-number.
pub open spec fn aperture_of(raw: RawExif) -> Option<Ratio> {
    match raw.f_number {
        Some(f) => field_ratio(f),
        None => None,
    }
}

/// The exposure time, as text.
pub open spec fn shutter_speed_of(raw: RawExif) -> Option<Seq<char>> {
    match raw.exposure_time {
        Some(f) => field_text(f),
        None => None,
    }
}

/// `data` holds what is read from the fields `raw`.
pub open spec fn describes(data: ExifData, raw: RawExif) -> bool {
    &&& reads_datetime(data.taken_at, taken_at_of(raw))
    &&& opt_text(data.camera) == camera_of(raw)
    &&& opt_text(data.lens) == first_text(raw.lens_model, raw.lens_make)
    &&& data.iso == iso_of(raw)
    &&& data.aperture == aperture_of(raw)
    &&& opt_text(data.shutter_speed) == shutter_speed_of(raw)
}

/// Nothing can be read from the fields `raw`.
pub open spec fn tells_nothing(raw: RawExif) -> bool {
    &&& taken_at_of(raw) is None
    &&& camera_of(raw) is None
    &&& first_text(raw.lens_model, raw.lens_make) is None
    &&& iso_of(raw) is None
    &&& aperture_of(raw) is None
    &&& shutter_speed_of(raw) is None
}

/// Reads metadata fields.
#[derive(Clone, Copy, Debug)]
pub struct ExifService;

impl ExifService {
    pub fn new() -> (service: Self)
        ensures
            service == ExifService,
    {
        ExifService
    }

    /// The text of a field.
    pub fn field_to_string(&self, field: &ExifField) -> (out: Option<String>)
        ensures
            opt_text(out) == field_text(*field),
    {
        match &field.value {
            ExifValue::Ascii(texts) => {
                if texts.len() > 0 {
                    let text = decode_lossy(texts[0].as_slice());
                    Some(strip_trailing_nuls(text.as_str()))
                } else {
                    None
                }
            },
            ExifValue::Undefined(data) => {
                let text = decode_lossy(data.as_slice());
                Some(strip_trailing_nuls(text.as_str()))
            },
            _ => Some(field.display.clone()),
        }
    }

    /// The number of a field.
    pub fn field_to_u32(&self, field: &ExifField) -> (out: Option<u32>)
        ensures
            out == field_number(*field),
    {
        match &field.value {
            ExifValue::Short(v) => {
                if v.len() > 0 {
                    Some(v[0] as u32)
                } else {
                    None
                }
            },
            ExifValue::Long(v) => {
                if v.len() > 0 {
                    Some(v[0])
                } else {
                    None
                }
            },
            ExifValue::Ascii(texts) => {
                if texts.len() > 0 {
                    let text = decode_lossy(texts[0].as_slice());
                    let stripped = strip_trailing_nuls(text.as_str());
                    parse_u32(stripped.as_str())
                } else {
                    None
                }
            },
            _ => None,
        }
    }

    /// The fraction of a field.
    pub fn field_to_ratio(&self, field: &ExifField) -> (out: Option<Ratio>)
        ensures
            out == field_ratio(*field),
            out matches Some(r) ==> r.denom != 0,
    {
        match &field.value {
            ExifValue::Rational(v) => {
                if v.len() > 0 && v[0].1 != 0 {
                    Some(Ratio { num: v[0].0 as i64, denom: v[0].1 as i64 })
                } else {
                    None
                }
            },
            ExifValue::SRational(v) => {
                if v.len() > 0 && v[0].1 != 0 {
                    Some(Ratio { num: v[0].0 as i64, denom: v[0].1 as i64 })
                } else {
                    None
                }
            },
            _ => None,
        }
    }

    /// Reads the date and time that a camera wrote, as in
    /// `2023:12:25 14:30:45`.
    pub fn parse_exif_datetime(&self, datetime_str: &str) -> (out: Option<ExifTimestamp>)
        ensures
            reads_datetime(out, datetime_of(datetime_str@)),
    {
        let normalized = replace_char(datetime_str, ':', '-');
        match parse_naive(normalized.as_str(), "%Y-%m-%d %H:%M:%S") {
            Some(t) => Some(t),
            None => parse_naive(datetime_str, "%Y:%m:%d %H:%M:%S"),
        }
    }

    fn text_of_first(&self, first: &Option<ExifField>, second: &Option<ExifField>) -> (out: Option<
        String,
    >)
        ensures
            opt_text(out) == first_text(*first, *second),
    {
        match first {
            Some(f) => self.field_to_string(f),
            None => match second {
                Some(f) => self.field_to_string(f),
                None => None,
            },
        }
    }

    fn trimmed_text_of(&self, field: &Option<ExifField>) -> (out: Option<String>)
        ensures
            opt_text(out) == trimmed_text(*field),
    {
        match field {
            Some(f) => match self.field_to_string(f) {
                Some(t) => Some(trim(t.as_str())),
                None => None,
            },
            None => None,
        }
    }

    /// Puts together what the catalog keeps of the fields of an image file,
    /// or `None` where nothing can be read from them.
    pub fn assemble(&self, raw: &RawExif) -> (out: Option<ExifData>)
        ensures
            out is None <==> tells_nothing(*raw),
            out matches Some(data) ==> describes(data, *raw),
    {
        let taken_at: Option<ExifTimestamp> = match self.text_of_first(
            &raw.date_time_original,
            &raw.date_time,
        ) {
            Some(text) => self.parse_exif_datetime(text.as_str()),
            None => None,
        };
        let make = self.trimmed_text_of(&raw.make);
        let model = self.trimmed_text_of(&raw.model);
        let camera: Option<String> = match (make, model) {
            (Some(a), Some(b)) => {
                let mut joined = a;
                joined.append(" ");
                joined.append(b.as_str());
                Some(joined)
            },
            (Some(a), None) => Some(a),
            (None, Some(b)) => Some(b),
            (None, None) => None,
        };
        let lens = self.text_of_first(&raw.lens_model, &raw.lens_make);
        let iso: Option<u32> = match &raw.photographic_sensitivity {
            Some(f) => self.field_to_u32(f),
            None => match &raw.iso_speed {
                Some(f) => self.field_to_u32(f),
                None => None,
            },
        };
        let aperture: Option<Ratio> = match &raw.f_number {
            Some(f) => self.field_to_ratio(f),
            None => None,
        };
        let shutter_speed: Option<String> = match &raw.exposure_time {
            Some(f) => self.field_to_string(f),
            None => None,
        };
        if taken_at.is_some() || camera.is_some() || lens.is_some() || iso.is_some()
            || aperture.is_some() || shutter_speed.is_some() {
            Some(ExifData { taken_at, camera, lens, iso, aperture, shutter_speed })
        } else {
            None
        }
    }
}

} // verus!
