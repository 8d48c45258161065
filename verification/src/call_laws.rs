//! What the results of calls have to do with their arguments.

use crate::attribute_laws::{is_given_by, law_content_attributes};
use crate::attributes::{AttributeView, Attributes};
use crate::chunk::chunk_bytes;
use crate::context::{GetContext, GetRequest};
use crate::decimal::{
    digits_value, is_digit_run, law_read_numbers_are_digits, parse_u64, read_number, ParseNumberError,
};
use crate::fields::{field_text, header_fields, FieldText};
use crate::get::{
    get_range_meta, is_strong_etag, parse_range, range_response_of, read_content_range, strong_etag,
    validate_identity_encoding, validate_range_response, ContentRange, ResponseParts,
};
use crate::get_attributes::get_attributes;
use crate::get_error::{GetResultError, GetResultErrorView};
use crate::header::{
    self, content_length_of, get_content_length, get_etag, get_version, meta_of, HeaderConfig, ObjectMeta,
};
use crate::range::{asks_for, law_range_serves_what_is_asked_for, GetRange, InvalidGetRange};
use crate::response_laws::{
    is_barred_from_tags, is_content_range_text, is_unencoded, law_content_range, law_encoding,
    law_range_response_is_accepted, law_response_is_accepted, law_strong_etag,
};
use crate::stream::{Error, Reading, RetryRequest, Step, StreamError, Waiting};
use crate::text::trimmed;
use bytes::Bytes;
use http::HeaderMap;
use std::ops::Range;
use vstd::prelude::*;

verus! {

/// A number is read from a string exactly if it is the number of a run of digits that fills the
/// string, but for a plus sign that may stand in front.
pub proof fn law_parse_u64(s: &str, r: Result<u64, ParseNumberError>, n: u64)
    requires
        call_ensures(parse_u64, (s,), r),
    ensures
        r == Ok::<u64, ParseNumberError>(n) <==> exists|from: int|
            from < s@.len() && is_digit_run(s@, from, s@.len() as int) && #[trigger] digits_value(
                s@.subrange(from, s@.len() as int),
            ) == n,
{
    law_read_numbers_are_digits(s@, n);
}

/// A content range is read from a string exactly if, but for white space around it, the string is
/// `bytes`, a space, and the numbers of its first byte, its last byte and the size of the object.
pub proof fn law_from_str(s: &str, r: Option<ContentRange>, c: ContentRange)
    requires
        call_ensures(ContentRange::from_str, (s,), r),
    ensures
        r == Some(c) <==> {
            &&& c.range.start < c.range.end <= c.size
            &&& exists|first: Seq<char>, last: Seq<char>, size: Seq<char>|
                {
                    &&& #[trigger] is_content_range_text(trimmed(s@), first, last, size)
                    &&& read_number(first) == Ok::<u64, ParseNumberError>(c.range.start)
                    &&& read_number(last) == Ok::<u64, ParseNumberError>((c.range.end - 1) as u64)
                    &&& read_number(size) == Ok::<u64, ParseNumberError>(c.size)
                }
        },
{
    law_content_range(s@, c);
}

/// A tag is found strong exactly if, but for white space around it, it stands between two quotation
/// marks and holds no control character of ASCII, no space and no quotation mark.
pub proof fn law_is_strong_etag(etag: &str, r: bool)
    requires
        call_ensures(is_strong_etag, (etag,), r),
    ensures
        r <==> {
            let tag = trimmed(etag@);
            &&& tag.len() >= 2
            &&& tag[0] == '"'
            &&& tag[tag.len() - 1] == '"'
            &&& forall|i: int|
                0 < i < tag.len() - 1 ==> !is_barred_from_tags(#[trigger] tag[i])
        },
{
    law_strong_etag(etag@);
}

/// A response passes for not encoded exactly if it has no content encoding, or one that spells
/// `identity`.
pub proof fn law_validate_identity_encoding(headers: HeaderMap, r: Result<(), GetResultError>)
    requires
        call_ensures(validate_identity_encoding, (&headers,), r),
    ensures
        r is Ok <==> is_unencoded(header_fields(headers)),
        r matches Err(e) ==> match field_text(header_fields(headers), "content-encoding"@) {
            FieldText::Text(encoding) => e@ == (GetResultErrorView::EncodedRange { encoding }),
            _ => e is InvalidContentEncoding,
        },
{
    law_encoding(header_fields(headers));
}

/// A partial response passes the checks exactly if its body is not encoded, its content range reads
/// as such, and its content length is the number of bytes in it.
pub proof fn law_validate_range_response(
    headers: HeaderMap,
    r: Result<ContentRange, GetResultError>,
    c: ContentRange,
)
    requires
        call_ensures(validate_range_response, (&headers,), r),
    ensures
        r == Ok::<ContentRange, GetResultError>(c) <==> {
            let fields = header_fields(headers);
            &&& is_unencoded(fields)
            &&& field_text(fields, "content-range"@) matches FieldText::Text(text)
                && read_content_range(text) == Some(c)
            &&& content_length_of(fields) matches Ok(n) && n == c.range.end - c.range.start
        },
{
    law_range_response_is_accepted(header_fields(headers), c);
}

/// A response to a request for a range is accepted exactly if its fields describe an object, its
/// status is 206, it passes the checks of a partial response, and its range is the one that an
/// object of its size serves the request with, be it bounded, an offset or a suffix. The range and
/// the size are then those of the response.
pub proof fn law_get_range_meta<X>(
    cfg: HeaderConfig,
    location: &str,
    asked: GetRange,
    response: ResponseParts<X>,
    r: Result<(Range<u64>, ObjectMeta), GetResultError>,
)
    requires
        call_ensures(get_range_meta::<X>, (cfg, location, Some(&asked), &response), r),
    ensures
        ({
            let fields = header_fields(response.headers);
            &&& r is Ok <==> {
                &&& meta_of(location@, fields, cfg) is Ok
                &&& response.status == 206
                &&& range_response_of(fields) matches Ok(c) && asked.within(c.size) == Ok::<
                    Range<u64>,
                    InvalidGetRange,
                >(c.range)
            }
            &&& r matches Ok((range, meta)) ==> {
                &&& range_response_of(fields) matches Ok(c) && range == c.range && meta.size
                    == c.size
                &&& meta_of(location@, fields, cfg) matches Ok(m) && meta@.e_tag == m.e_tag
                    && meta@.version == m.version && meta@.last_modified == m.last_modified
                    && meta@.location == location@
            }
        }),
{
    let fields = header_fields(response.headers);
    if let Ok((range, meta)) = r {
        law_response_is_accepted(
            cfg,
            location@,
            Some(asked),
            response.status,
            fields,
            range,
            meta@,
        );
    }
}

/// Where no range was asked for, a response is accepted exactly if its fields describe an object, and
/// its range is then the whole object.
pub proof fn law_get_whole_meta<X>(
    cfg: HeaderConfig,
    location: &str,
    response: ResponseParts<X>,
    r: Result<(Range<u64>, ObjectMeta), GetResultError>,
)
    requires
        call_ensures(get_range_meta::<X>, (cfg, location, None, &response), r),
    ensures
        r is Ok <==> meta_of(location@, header_fields(response.headers), cfg) is Ok,
        r matches Ok((range, meta)) ==> {
            &&& range.start == 0 && range.end == meta.size
            &&& meta_of(location@, header_fields(response.headers), cfg) matches Ok(m) && meta@ == m
        },
{
}

/// A range is served with exactly the bytes of the object that it asks for.
pub proof fn law_as_range(
    range: GetRange,
    len: u64,
    r: Result<Range<u64>, InvalidGetRange>,
    p: int,
)
    requires
        call_ensures(GetRange::as_range, (&range, len), r),
        0 <= p < len,
    ensures
        r matches Ok(served) ==> (served.start <= p < served.end <==> asks_for(range, len, p)),
        r is Err ==> range.fault() is Some || match range {
            GetRange::Bounded(b) => b.start >= len,
            GetRange::Offset(o) => o >= len,
            GetRange::Suffix(_) => false,
        },
{
    law_range_serves_what_is_asked_for(range, len, p);
}

/// A range can be asked for exactly if it has no two bounds, or begins before it ends and is not
/// longer than a buffer can be.
pub proof fn law_is_valid(range: GetRange, r: Result<(), InvalidGetRange>)
    requires
        call_ensures(GetRange::is_valid, (&range,), r),
    ensures
        r is Ok <==> (range matches GetRange::Bounded(b) ==> b.start < b.end && b.end - b.start
            <= usize::MAX),
{
}

/// The attributes that are extracted have the whole text of each content header.
pub proof fn law_get_attributes(
    cfg: HeaderConfig,
    headers: HeaderMap,
    r: Result<Attributes, GetResultError>,
)
    requires
        call_ensures(get_attributes, (cfg, &headers), r),
    ensures
        r matches Ok(attributes) ==> {
            let fields = header_fields(headers);
            &&& is_given_by(
                attributes@,
                AttributeView::CacheControl,
                field_text(fields, "cache-control"@),
            )
            &&& is_given_by(
                attributes@,
                AttributeView::ContentDisposition,
                field_text(fields, "content-disposition"@),
            )
            &&& is_given_by(
                attributes@,
                AttributeView::ContentEncoding,
                field_text(fields, "content-encoding"@),
            )
            &&& is_given_by(
                attributes@,
                AttributeView::ContentLanguage,
                field_text(fields, "content-language"@),
            )
            &&& is_given_by(
                attributes@,
                AttributeView::ContentType,
                field_text(fields, "content-type"@),
            )
        },
{
    law_content_attributes(header_fields(headers), cfg);
}

/// The entity tag that is extracted is the whole text of its field.
pub proof fn law_get_etag(headers: HeaderMap, r: Result<String, header::Error>)
    requires
        call_ensures(get_etag, (&headers,), r),
    ensures
        match field_text(header_fields(headers), "etag"@) {
            FieldText::Text(text) => r matches Ok(tag) && tag@ == text,
            FieldText::NotText => r matches Err(header::Error::BadHeader { .. }),
            FieldText::Absent => r matches Err(header::Error::MissingEtag),
        },
{
}

/// The content length that is extracted is the number that the text of its field reads as.
pub proof fn law_get_content_length(headers: HeaderMap, r: Result<u64, header::Error>, n: u64)
    requires
        call_ensures(get_content_length, (&headers,), r),
    ensures
        r == Ok::<u64, header::Error>(n) <==> (field_text(
            header_fields(headers),
            "content-length"@,
        ) matches FieldText::Text(text) && read_number(text) == Ok::<u64, ParseNumberError>(n)),
{
}

/// A chunk that does not go past the end of the range is delivered, and the transfer goes on behind
/// it; a chunk that does is the only one that fails, and says where the body was to end.
pub proof fn law_reading_data<E>(reading: Reading, chunk: Bytes, step: Step<E>)
    requires
        call_ensures(Reading::data::<E>, (reading, chunk), step),
    ensures
        reading@.range.start + chunk_bytes(chunk).len() <= reading@.range.end ==> (step
            matches Step::Deliver(delivered, rest) && {
            &&& chunk_bytes(delivered) == chunk_bytes(chunk)
            &&& rest@.range.start == reading@.range.start + chunk_bytes(chunk).len()
            &&& rest@.range.end == reading@.range.end
            &&& rest@.etag == reading@.etag
            &&& rest@.store == reading@.store
        }),
        reading@.range.start + chunk_bytes(chunk).len() > reading@.range.end ==> (step
            matches Step::Fail(Error::Generic { store, source: StreamError::Get(e) }) && store@
            == reading@.store && e@ == (GetResultErrorView::BodyTooLong {
            expected: reading@.range.end,
        })),
{
}

/// A retry that was waited for asks for the bounds of what is not delivered yet.
pub proof fn law_slept<E>(waiting: Waiting<E>, step: Step<E>)
    requires
        call_ensures(Waiting::<E>::slept, (waiting,), step),
    ensures
        step matches Step::Request(request, requesting) && {
            &&& request.range matches GetRange::Bounded(r) && r.start == waiting@.0.range.start
                && r.end == waiting@.0.range.end
            &&& request.if_range matches Some(tag) ==> tag.0@ == waiting@.0.etag
            &&& requesting@ == waiting@
        },
{
}

/// A transfer starts with the store and the whole range that it is made for, and keeps the entity tag
/// exactly if that is strong.
pub proof fn law_reading_new(
    store: &'static str,
    etag: Option<String>,
    range: Range<u64>,
    reading: Reading,
)
    requires
        call_ensures(Reading::new, (store, etag, range), reading),
    ensures
        reading@.store == store@,
        reading@.range.start == range.start && reading@.range.end == range.end,
        reading@.etag is Some <==> (etag matches Some(tag) && strong_etag(tag@)),
        reading@.etag matches Some(kept) ==> (etag matches Some(tag) && tag@ == kept),
{
}

/// A retry is requested of the object of the context, with its options, and with the range and the
/// validator that the retry has.
pub proof fn law_retry_is_handed_on<O>(
    context: GetContext<O>,
    retry: RetryRequest,
    request: GetRequest<'static, O>,
)
    requires
        call_ensures(GetContext::<O>::retry_request, (&context, retry), request),
    ensures
        request.location@ == context.location@,
        *request.options == context.options,
        request.range == Some(retry.range),
        request.if_range == retry.if_range,
{
}

/// The version that is extracted is the whole text of the field of that name, or nothing where there
/// is no such field.
pub proof fn law_get_version(
    headers: HeaderMap,
    name: &str,
    r: Result<Option<String>, header::Error>,
)
    requires
        call_ensures(get_version, (&headers, name), r),
    ensures
        match field_text(header_fields(headers), name@) {
            FieldText::Text(text) => r matches Ok(Some(version)) && version@ == text,
            FieldText::NotText => r matches Err(header::Error::BadHeader { .. }),
            FieldText::Absent => r matches Ok(None),
        },
{
}

/// The content range that is extracted is what the whole text of its field reads as.
pub proof fn law_parse_range(
    headers: HeaderMap,
    r: Result<ContentRange, GetResultError>,
    c: ContentRange,
)
    requires
        call_ensures(parse_range, (&headers,), r),
    ensures
        r == Ok::<ContentRange, GetResultError>(c) <==> (field_text(
            header_fields(headers),
            "content-range"@,
        ) matches FieldText::Text(text) && read_content_range(text) == Some(c)),
        field_text(header_fields(headers), "content-range"@) is Absent ==> (r
            matches Err(GetResultError::NoContentRange)),
{
}

} // verus!
