//! The checks that a response passes before its body is read.

use crate::decimal::{parse_u64, read_number};
use crate::fields::{field_text, get_text, header_fields, Field, FieldText};
use crate::get_error::{GetResultError, GetResultErrorView};
use crate::header::{
    content_length_of, get_content_length, header_meta, meta_of, HeaderConfig, ObjectMeta,
    ObjectMetaView,
};
use crate::range::{copy_range, GetRange};
use crate::text::{
    after_prefix, ascii_lowered, chars_of, eq_ignore_ascii_case, halves, split_once, strip_prefix,
    trim, trimmed,
};
use crate::views::result_view;
use http::HeaderMap;
use std::ops::Range;
use vstd::prelude::*;

verus! {

/// The value of a `Content-Range` field.
#[derive(Debug)]
pub struct ContentRange {
    /// The range of the object returned
    pub range: Range<u64>,
    /// The total size of the object being requested
    pub size: u64,
}

impl View for ContentRange {
    type V = ContentRange;

    open spec fn view(&self) -> ContentRange {
        *self
    }
}

impl Clone for ContentRange {
    fn clone(&self) -> (r: ContentRange)
        ensures
            r == *self,
    {
        ContentRange { range: copy_range(&self.range), size: self.size }
    }
}

/// The content range of the numerals of its first byte, its last byte and the size of the object:
/// all three are numbers, the range is not empty, and it lies within the object.
pub open spec fn content_range_of(first: Seq<char>, last: Seq<char>, size: Seq<char>) -> Option<
    ContentRange,
> {
    match (read_number(first), read_number(last), read_number(size)) {
        (Ok(first), Ok(last), Ok(size)) => if first <= last < size {
            Some(ContentRange { range: Range { start: first, end: (last + 1) as u64 }, size })
        } else {
            None
        },
        _ => None,
    }
}

/// The content range that a string of the form `bytes <first>-<last>/<size>` denotes.
pub open spec fn read_content_range(s: Seq<char>) -> Option<ContentRange> {
    match after_prefix(trimmed(s), "bytes "@) {
        None => None,
        Some(rem) => match halves(rem, '/') {
            None => None,
            Some((range, size)) => match halves(range, '-') {
                None => None,
                Some((first, last)) => content_range_of(first, last, size),
            },
        },
    }
}

impl ContentRange {
    /// Parse a content range of the form `bytes <range-start>-<range-end>/<size>`
    ///
    /// <https://developer.mozilla.org/en-US/docs/Web/HTTP/Headers/Content-Range>
    pub fn from_str(s: &str) -> (r: Option<ContentRange>)
        ensures
            r == read_content_range(s@),
            r matches Some(c) ==> c.range.start < c.range.end <= c.size,
    {
        let rem = strip_prefix(trim(s), "bytes ")?;
        let (range, size_s) = split_once(rem, '/')?;
        let size: u64 = match parse_u64(size_s) {
            Ok(n) => n,
            Err(_) => return None,
        };

        let (start_s, end_s) = split_once(range, '-')?;

        let start: u64 = match parse_u64(start_s) {
            Ok(n) => n,
            Err(_) => return None,
        };
        let last: u64 = match parse_u64(end_s) {
            Ok(n) => n,
            Err(_) => return None,
        };
        let end: u64 = last.checked_add(1)?;

        if start >= end || end > size {
            return None;
        }
        Some(ContentRange { size, range: Range { start, end } })
    }
}

/// The head of a response.
#[derive(Debug)]
pub struct ResponseParts<X> {
    /// The status code.
    pub status: u16,
    /// The header fields.
    pub headers: HeaderMap,
    /// What else comes with the response, which is handed on as it is.
    pub extensions: X,
}

/// The status of a response that carries a part of the object.
pub const PARTIAL_CONTENT: u16 = 206;

/// Why the content encoding does not let the body stand for bytes of the object.
pub open spec fn encoding_fault(fields: Seq<Field>) -> Option<GetResultErrorView> {
    match field_text(fields, "content-encoding"@) {
        FieldText::Absent => None,
        FieldText::NotText => Some(GetResultErrorView::InvalidContentEncoding),
        FieldText::Text(encoding) => if ascii_lowered(trimmed(encoding)) == ascii_lowered(
            "identity"@,
        ) {
            None
        } else {
            Some(GetResultErrorView::EncodedRange { encoding })
        },
    }
}

/// The content range that header fields give.
pub open spec fn content_range_field(fields: Seq<Field>) -> Result<
    ContentRange,
    GetResultErrorView,
> {
    match field_text(fields, "content-range"@) {
        FieldText::Absent => Err(GetResultErrorView::NoContentRange),
        FieldText::NotText => Err(GetResultErrorView::InvalidContentRange),
        FieldText::Text(value) => match read_content_range(value) {
            Some(content_range) => Ok(content_range),
            None => Err(GetResultErrorView::ParseContentRange { value }),
        },
    }
}

/// The content range of a partial response whose fields agree with each other: the body is not
/// encoded, and the content length is the length of the content range.
pub open spec fn range_response_of(fields: Seq<Field>) -> Result<ContentRange, GetResultErrorView> {
    match (encoding_fault(fields), content_range_field(fields), content_length_of(fields)) {
        (Some(e), _, _) => Err(e),
        (None, Err(e), _) => Err(e),
        (None, Ok(_), Err(source)) => Err(GetResultErrorView::Header { source }),
        (None, Ok(content_range), Ok(declared)) => if declared == content_range.range.end
            - content_range.range.start {
            Ok(content_range)
        } else {
            Err(GetResultErrorView::InvalidRangeLength { declared, actual: content_range.range })
        },
    }
}

/// The range of the object that the body of a response carries, and what the response says of the
/// object.
pub open spec fn range_meta_of(
    cfg: HeaderConfig,
    location: Seq<char>,
    range: Option<GetRange>,
    status: u16,
    fields: Seq<Field>,
) -> Result<(Range<u64>, ObjectMetaView), GetResultErrorView> {
    match meta_of(location, fields, cfg) {
        Err(source) => Err(GetResultErrorView::Header { source }),
        Ok(meta) => match range {
            None => Ok((Range { start: 0, end: meta.size }, meta)),
            Some(asked) => if status != PARTIAL_CONTENT {
                Err(GetResultErrorView::NotPartial)
            } else {
                match range_response_of(fields) {
                    Err(e) => Err(e),
                    Ok(content_range) => {
                        let actual = content_range.range;
                        match asked.within(content_range.size) {
                            Err(source) => Err(GetResultErrorView::InvalidRangeRequest { source }),
                            Ok(expected) => if actual == expected {
                                Ok((actual, ObjectMetaView { size: content_range.size, ..meta }))
                            } else {
                                Err(GetResultErrorView::UnexpectedRange { expected, actual })
                            },
                        }
                    },
                }
            },
        },
    }
}

/// The characters between the quotation marks of an entity tag.
pub open spec fn is_etag_char(c: char) -> bool {
    c == '\u{21}' || '\u{23}' <= c <= '\u{7e}' || c >= '\u{80}'
}

/// A strong entity tag: characters of a tag between two quotation marks.
pub open spec fn strong_etag(s: Seq<char>) -> bool {
    let tag = trimmed(s);
    &&& tag.len() >= 2
    &&& tag[0] == '"'
    &&& tag.last() == '"'
    &&& forall|i: int| 0 < i < tag.len() - 1 ==> is_etag_char(#[trigger] tag[i])
}

/// Whether an entity tag is strong. Every byte of a character beyond ASCII is `0x80` or more, so
/// that such a character may stand in a tag.
pub fn is_strong_etag(etag: &str) -> (r: bool)
    ensures
        r == strong_etag(etag@),
{
    let tag = chars_of(trim(etag));
    if tag.len() < 2 || tag[0] != '"' || tag[tag.len() - 1] != '"' {
        return false;
    }
    let mut i: usize = 1;
    while i < tag.len() - 1
        invariant
            1 <= i <= tag.len() - 1,
            tag@ == trimmed(etag@),
            forall|j: int| 0 < j < i ==> is_etag_char(#[trigger] tag@[j]),
        decreases tag.len() - i,
    {
        let c: char = tag[i];
        if !(c == '\u{21}' || ('\u{23}' <= c && c <= '\u{7e}') || c >= '\u{80}') {
            assert(!is_etag_char(tag@[i as int]));
            return false;
        }
        i = i + 1;
    }
    true
}

/// Checks that the body of a response is not encoded.
pub fn validate_identity_encoding(headers: &HeaderMap) -> (r: Result<(), GetResultError>)
    ensures
        match encoding_fault(header_fields(*headers)) {
            None => r is Ok,
            Some(fault) => r matches Err(e) && e@ == fault,
        },
{
    let encoding = match get_text(headers, "content-encoding") {
        None => return Ok(()),
        Some(Err(source)) => return Err(GetResultError::InvalidContentEncoding { source }),
        Some(Ok(text)) => text,
    };
    if !eq_ignore_ascii_case(trim(encoding), "identity") {
        return Err(GetResultError::EncodedRange { encoding: encoding.to_owned() });
    }
    Ok(())
}

/// Extracts the `Content-Range` header
pub fn parse_range(headers: &HeaderMap) -> (r: Result<ContentRange, GetResultError>)
    ensures
        result_view(r) == content_range_field(header_fields(*headers)),
        r matches Ok(c) ==> c.range.start < c.range.end <= c.size,
{
    let value = match get_text(headers, "content-range") {
        None => return Err(GetResultError::NoContentRange),
        Some(Err(source)) => return Err(GetResultError::InvalidContentRange { source }),
        Some(Ok(text)) => text,
    };
    match ContentRange::from_str(value) {
        Some(content_range) => Ok(content_range),
        None => Err(GetResultError::ParseContentRange { value: value.to_owned() }),
    }
}

/// The content range of a partial response, if its header fields agree with each other.
pub fn validate_range_response(headers: &HeaderMap) -> (r: Result<ContentRange, GetResultError>)
    ensures
        result_view(r) == range_response_of(header_fields(*headers)),
        r matches Ok(c) ==> c.range.start < c.range.end <= c.size,
{
    match validate_identity_encoding(headers) {
        Ok(()) => {},
        Err(e) => return Err(e),
    }
    let content_range = match parse_range(headers) {
        Ok(content_range) => content_range,
        Err(e) => return Err(e),
    };
    let declared: u64 = match get_content_length(headers) {
        Ok(n) => n,
        Err(source) => return Err(GetResultError::Header { source }),
    };
    let actual_length: u64 = content_range.range.end - content_range.range.start;
    if declared != actual_length {
        return Err(GetResultError::InvalidRangeLength { declared, actual: content_range.range });
    }
    Ok(content_range)
}

/// The range of the object that the body of a response carries, and what the response says of the
/// object.
pub fn get_range_meta<X>(
    cfg: HeaderConfig,
    location: &str,
    range: Option<&GetRange>,
    response: &ResponseParts<X>,
) -> (r: Result<(Range<u64>, ObjectMeta), GetResultError>)
    ensures
        match range_meta_of(
            cfg,
            location@,
            (match range {
                Some(asked) => Some(*asked),
                None => None,
            }),
            response.status,
            header_fields(response.headers),
        ) {
            Ok((range, meta)) => r matches Ok(found) && found.0 == range && found.1@ == meta,
            Err(fault) => r matches Err(e) && e@ == fault,
        },
{
    let mut meta = match header_meta(location, &response.headers, cfg) {
        Ok(meta) => meta,
        Err(source) => return Err(GetResultError::Header { source }),
    };
    let range: Range<u64> = if let Some(asked) = range {
        if response.status != PARTIAL_CONTENT {
            return Err(GetResultError::NotPartial);
        }
        let value = match validate_range_response(&response.headers) {
            Ok(value) => value,
            Err(e) => return Err(e),
        };
        let actual = value.range;

        // The content length is that of the part; the size is that of the whole object.
        meta.size = value.size;

        let expected = match asked.as_range(meta.size) {
            Ok(expected) => expected,
            Err(source) => return Err(GetResultError::InvalidRangeRequest { source }),
        };
        if actual.start != expected.start || actual.end != expected.end {
            return Err(GetResultError::UnexpectedRange { expected, actual });
        }
        actual
    } else {
        Range { start: 0, end: meta.size }
    };
    Ok((range, meta))
}

} // verus!
