use http::header::{CONTENT_LENGTH, CONTENT_RANGE};
use http::{HeaderMap, HeaderName, HeaderValue, StatusCode};
use object_store_get::attributes::{Attribute, Attributes};
use object_store_get::context::GetContext;
use object_store_get::get::{
    get_range_meta, is_strong_etag, parse_range, validate_identity_encoding,
    validate_range_response, ContentRange, ResponseParts,
};
use object_store_get::get_attributes::get_attributes;
use object_store_get::get_error::GetResultError;
use object_store_get::header::{self, get_etag, get_version, header_meta, HeaderConfig};
use object_store_get::range::{GetRange, InvalidGetRange};
use object_store_get::stream::Error;

fn make_response(
    object_size: usize,
    status: StatusCode,
    content_range: Option<&str>,
    headers: Option<Vec<(&str, &str)>>,
) -> ResponseParts<http::Extensions> {
    let mut builder = http::Response::builder();
    if let Some(range) = content_range {
        builder = builder.header(CONTENT_RANGE, range);
    }

    if let Some(headers) = headers {
        for (key, value) in headers {
            builder = builder.header(key, value);
        }
    }

    let parts = builder
        .status(status)
        .header(CONTENT_LENGTH, object_size)
        .body(())
        .unwrap()
        .into_parts()
        .0;
    ResponseParts {
        status: parts.status.as_u16(),
        headers: parts.headers,
        extensions: parts.extensions,
    }
}

fn headers(fields: &[(&str, &[u8])]) -> HeaderMap {
    let mut map = HeaderMap::new();
    for (name, value) in fields {
        map.append(
            HeaderName::from_bytes(name.as_bytes()).unwrap(),
            HeaderValue::from_bytes(value).unwrap(),
        );
    }
    map
}

const CFG: HeaderConfig = HeaderConfig {
    etag_required: false,
    last_modified_required: false,
    version_header: None,
    user_defined_metadata_prefix: Some("x-test-meta-"),
};

#[test]
fn strong_etag_validation_follows_entity_tag_grammar() {
    assert!(is_strong_etag("\"\""));
    assert!(is_strong_etag("\"abc\""));
    assert!(!is_strong_etag("W/\"abc\""));
    assert!(!is_strong_etag("abc"));
    assert!(!is_strong_etag("\"abc"));
    assert!(!is_strong_etag("\"abc\",\"other\""));
    assert!(!is_strong_etag("\"abc def\""));
}

#[test]
fn strong_etag_edges() {
    assert!(is_strong_etag(" \t\"abc\"\u{a0}"));
    assert!(is_strong_etag("\"\u{e9}\u{1f600}\""));
    assert!(is_strong_etag("\"!#~\""));
    assert!(!is_strong_etag(""));
    assert!(!is_strong_etag("\""));
    assert!(!is_strong_etag("\"\u{7f}\""));
    assert!(!is_strong_etag("\u{e9}\""));
}

#[test]
fn test_get_range_meta() {
    let path = "test";

    let resp = make_response(12, StatusCode::OK, None, None);
    let (range, meta) = get_range_meta(CFG, path, None, &resp).unwrap();
    assert_eq!(meta.size, 12);
    assert_eq!(range, 0..12);

    let get_range = GetRange::from(2..3);

    let resp = make_response(1, StatusCode::PARTIAL_CONTENT, Some("bytes 2-2/12"), None);
    let (range, meta) = get_range_meta(CFG, path, Some(&get_range), &resp).unwrap();
    assert_eq!(meta.size, 12);
    assert_eq!(range, 2..3);

    let resp = make_response(12, StatusCode::OK, None, None);
    let err = get_range_meta(CFG, path, Some(&get_range), &resp).unwrap_err();
    assert_eq!(
        err.to_string(),
        "Received non-partial response when range requested"
    );

    let resp = make_response(2, StatusCode::PARTIAL_CONTENT, Some("bytes 2-3/12"), None);
    let err = get_range_meta(CFG, path, Some(&get_range), &resp).unwrap_err();
    assert_eq!(err.to_string(), "Requested 2..3, got 2..4");

    let resp = make_response(12, StatusCode::PARTIAL_CONTENT, Some("bytes 2-2/*"), None);
    let err = get_range_meta(CFG, path, Some(&get_range), &resp).unwrap_err();
    assert_eq!(
        err.to_string(),
        "Failed to parse value for CONTENT_RANGE header: \"bytes 2-2/*\""
    );

    let resp = make_response(12, StatusCode::PARTIAL_CONTENT, None, None);
    let err = get_range_meta(CFG, path, Some(&get_range), &resp).unwrap_err();
    assert_eq!(
        err.to_string(),
        "Content-Range header not present in partial response; for browser requests verify CORS exposes Content-Range"
    );

    let resp = make_response(2, StatusCode::PARTIAL_CONTENT, Some("bytes 0-1/2"), None);
    let err = get_range_meta(CFG, path, Some(&get_range), &resp).unwrap_err();
    assert_eq!(
        err.to_string(),
        "Wanted range starting at 2, but object was only 2 bytes long"
    );

    let resp = make_response(4, StatusCode::PARTIAL_CONTENT, Some("bytes 2-5/6"), None);
    let (range, meta) = get_range_meta(CFG, path, Some(&GetRange::Suffix(4)), &resp).unwrap();
    assert_eq!(meta.size, 6);
    assert_eq!(range, 2..6);

    let resp = make_response(2, StatusCode::PARTIAL_CONTENT, Some("bytes 2-3/6"), None);
    let err = get_range_meta(CFG, path, Some(&GetRange::Suffix(4)), &resp).unwrap_err();
    assert_eq!(err.to_string(), "Requested 2..6, got 2..4");
}

#[test]
fn test_get_range_meta_rejects_encoded_body() {
    let path = "test";
    let get_range = GetRange::from(2..5);
    let resp = make_response(
        3,
        StatusCode::PARTIAL_CONTENT,
        Some("bytes 2-4/12"),
        Some(vec![("content-encoding", "gzip")]),
    );

    let err = get_range_meta(CFG, path, Some(&get_range), &resp).unwrap_err();
    assert_eq!(
        err.to_string(),
        "Range response used unsupported Content-Encoding \"gzip\"; expected identity"
    );
}

#[test]
fn test_get_range_meta_rejects_invalid_lengths() {
    let path = "test";
    let get_range = GetRange::from(2..5);
    let resp = make_response(2, StatusCode::PARTIAL_CONTENT, Some("bytes 2-4/12"), None);

    let err = get_range_meta(CFG, path, Some(&get_range), &resp).unwrap_err();
    assert_eq!(
        err.to_string(),
        "Range response declared 2 bytes for Content-Range 2..5"
    );

    assert!(ContentRange::from_str("bytes 4-2/12").is_none());
    assert!(ContentRange::from_str("bytes 2-12/12").is_none());
    assert!(ContentRange::from_str("bytes 2-18446744073709551615/18446744073709551615").is_none());
}

#[test]
fn test_get_attributes() {
    let resp = make_response(
        12,
        StatusCode::OK,
        None,
        Some(vec![("x-test-meta-foo", "bar")]),
    );

    let attributes = get_attributes(CFG, &resp.headers).unwrap();
    assert_eq!(
        attributes.get(&Attribute::Metadata("foo".into())),
        Some(&"bar".into())
    );
}

#[test]
fn content_range_is_read() {
    let c = ContentRange::from_str(" bytes 0-0/1\t").unwrap();
    assert_eq!((c.range, c.size), (0..1, 1));
    let c = ContentRange::from_str("bytes 007-+9/10").unwrap();
    assert_eq!((c.range, c.size), (7..10, 10));
    let c = ContentRange::from_str(
        "bytes 18446744073709551613-18446744073709551614/18446744073709551615",
    )
    .unwrap();
    assert_eq!(c.range, 18446744073709551613..18446744073709551615);
    assert_eq!(c.size, 18446744073709551615);
}

#[test]
fn content_range_is_refused() {
    for s in [
        "",
        "bytes",
        "bytes ",
        "Bytes 0-0/1",
        "bytes  0-0/1",
        "bytes 0-0",
        "bytes 00/1",
        "bytes 0-0/",
        "bytes -0/1",
        "bytes 0-/1",
        "bytes 0-0/*",
        "bytes */1",
        "bytes 0-0/1/1",
        "bytes 0-0-0/1",
        "bytes 0-1/1",
        "bytes 0-0/18446744073709551616",
    ] {
        assert!(ContentRange::from_str(s).is_none(), "{s:?}");
    }
}

#[test]
fn content_range_reads_back() {
    for (start, end, size) in [(0u64, 1u64, 1u64), (5, 10, 10), (99, 1000, 12345)] {
        let text = format!("bytes {}-{}/{}", start, end - 1, size);
        let c = ContentRange::from_str(&text).unwrap();
        assert_eq!((c.range, c.size), (start..end, size));
    }
}

#[test]
fn identity_encoding_is_accepted_in_any_case() {
    assert!(validate_identity_encoding(&headers(&[])).is_ok());
    assert!(validate_identity_encoding(&headers(&[("content-encoding", b"identity")])).is_ok());
    assert!(validate_identity_encoding(&headers(&[("Content-Encoding", b"\tIDENTity ")])).is_ok());
    assert!(matches!(
        validate_identity_encoding(&headers(&[("content-encoding", b"")])),
        Err(GetResultError::EncodedRange { encoding }) if encoding.is_empty()
    ));
    assert!(matches!(
        validate_identity_encoding(&headers(&[("content-encoding", b"\xff")])),
        Err(GetResultError::InvalidContentEncoding { .. })
    ));
}

#[test]
fn the_first_value_of_a_field_counts() {
    let map = headers(&[
        ("content-range", b"bytes 0-1/4"),
        ("content-length", b"2"),
        ("content-range", b"bytes 2-3/4"),
        ("content-length", b"3"),
    ]);
    assert_eq!(parse_range(&map).unwrap().range, 0..2);
    assert_eq!(validate_range_response(&map).unwrap().range, 0..2);
}

#[test]
fn partial_responses_are_refused() {
    let ok: (&str, &[u8]) = ("content-range", b"bytes 0-1/4");
    let err = validate_range_response(&headers(&[ok])).unwrap_err();
    assert!(matches!(
        err,
        GetResultError::Header {
            source: header::Error::MissingContentLength
        }
    ));
    let err = validate_range_response(&headers(&[ok, ("content-length", b"\xe9")])).unwrap_err();
    assert!(matches!(
        err,
        GetResultError::Header {
            source: header::Error::BadHeader { .. }
        }
    ));
    let err = validate_range_response(&headers(&[ok, ("content-length", b"two")])).unwrap_err();
    assert_eq!(
        err.to_string(),
        "Invalid content length 'two': invalid digit found in string"
    );
    let err = validate_range_response(&headers(&[ok, ("content-length", b"")])).unwrap_err();
    assert_eq!(
        err.to_string(),
        "Invalid content length '': cannot parse integer from empty string"
    );
    let err =
        validate_range_response(&headers(&[ok, ("content-length", b"18446744073709551616")]))
            .unwrap_err();
    assert_eq!(
        err.to_string(),
        "Invalid content length '18446744073709551616': number too large to fit in target type"
    );
    let err = validate_range_response(&headers(&[("content-range", b"bytes \x80-1/4")]))
        .unwrap_err();
    assert_eq!(
        err.to_string(),
        "Content-Range header contained non UTF-8 characters"
    );
    let err = parse_range(&headers(&[])).unwrap_err();
    assert!(matches!(err, GetResultError::NoContentRange));
}

#[test]
fn header_meta_reads_all_fields() {
    let cfg = HeaderConfig {
        version_header: Some("X-Version"),
        ..CFG
    };
    let map = headers(&[
        ("etag", b"\"v1\""),
        ("last-modified", b"Mon, 01 Jan 2024 00:00:00 GMT"),
        ("content-length", b"7"),
        ("x-version", b"42"),
    ]);
    let meta = header_meta("a/b", &map, cfg).unwrap();
    assert_eq!(meta.location, "a/b");
    assert_eq!(meta.e_tag.as_deref(), Some("\"v1\""));
    assert_eq!(
        meta.last_modified.as_deref(),
        Some("Mon, 01 Jan 2024 00:00:00 GMT")
    );
    assert_eq!(meta.size, 7);
    assert_eq!(meta.version.as_deref(), Some("42"));
    assert_eq!(get_etag(&map).unwrap(), "\"v1\"");
    assert_eq!(get_version(&map, "x-other").unwrap(), None);
}

#[test]
fn a_name_held_with_a_quotation_mark_is_not_found() {
    let mut map = HeaderMap::new();
    map.insert(
        HeaderName::from_lowercase(b"x\"y").unwrap(),
        HeaderValue::from_static("1"),
    );
    assert_eq!(get_version(&map, "x\"y").unwrap(), None);
    let long = format!("x\"{}", "y".repeat(80));
    map.insert(
        HeaderName::from_lowercase(long.as_bytes()).unwrap(),
        HeaderValue::from_static("1"),
    );
    assert_eq!(get_version(&map, &long).unwrap(), None);
    let plain = format!("x-{}", "Y".repeat(80));
    map.insert(
        HeaderName::from_bytes(plain.as_bytes()).unwrap(),
        HeaderValue::from_static("2"),
    );
    assert_eq!(get_version(&map, &plain).unwrap().as_deref(), Some("2"));
}

#[test]
fn a_long_name_is_looked_up_with_odd_characters_alike() {
    const NAME: &str =
        "yyyyyyyyyyyyyyyyyyyyyyyyyyyyyyyyyyyyyyyyyyyyyyyyyyyyyyyyyyyyyyyy(";
    let stem = "y".repeat(64);
    assert_eq!(NAME, format!("{stem}("));
    let mut map = HeaderMap::new();
    map.insert(NAME, HeaderValue::from_static("1"));
    assert_eq!(get_version(&map, NAME).unwrap().as_deref(), Some("1"));
    for last in ["(", ")", "\"", " ", "\0"] {
        let name = format!("{stem}{last}").to_uppercase();
        assert_eq!(get_version(&map, &name).unwrap().as_deref(), Some("1"));
    }
    // Two bytes, and a character of field names
    for last in ["\u{e9}", "y", ""] {
        let name = format!("{stem}{last}");
        assert_eq!(get_version(&map, &name).unwrap(), None);
    }

    let mut map = HeaderMap::new();
    let name = "z".repeat(65535);
    map.insert(
        HeaderName::from_bytes(name.as_bytes()).unwrap(),
        HeaderValue::from_static("2"),
    );
    assert_eq!(get_version(&map, &name).unwrap().as_deref(), Some("2"));
    for name in [String::new(), format!("{name}z"), "x(".to_string()] {
        assert_eq!(get_version(&map, &name).unwrap(), None);
    }
}

#[test]
fn every_character_of_field_names_is_looked_up() {
    let mut map = HeaderMap::new();
    let name = "X-!#$%&'*+.^_`|~019azAZ";
    map.insert(
        HeaderName::from_bytes(name.as_bytes()).unwrap(),
        HeaderValue::from_static("1"),
    );
    for name in [name.to_string(), name.to_lowercase(), name.to_uppercase()] {
        assert_eq!(get_version(&map, &name).unwrap().as_deref(), Some("1"));
    }
}

#[test]
fn header_meta_reports_what_is_missing() {
    let strict = HeaderConfig {
        etag_required: true,
        last_modified_required: true,
        ..CFG
    };
    let err = header_meta("x", &headers(&[]), strict).unwrap_err();
    assert_eq!(err.to_string(), "Last-Modified Header missing from response");
    let err = header_meta("x", &headers(&[("last-modified", b"now")]), strict).unwrap_err();
    assert_eq!(err.to_string(), "ETag Header missing from response");
    let err = header_meta("x", &headers(&[]), CFG).unwrap_err();
    assert_eq!(
        err.to_string(),
        "Content-Length Header missing from response"
    );
    let err = header_meta("x", &headers(&[("etag", b"\xfe")]), CFG).unwrap_err();
    assert_eq!(err.to_string(), "Received header containing non-ASCII data");
}

#[test]
fn content_headers_become_attributes() {
    let map = headers(&[
        ("cache-control", b"no-cache"),
        ("content-disposition", b"inline"),
        ("content-encoding", b"gzip"),
        ("content-language", b"en"),
        ("content-type", b"text/plain"),
        ("x-test-meta-a", b"1"),
        ("x-test-meta-a", b"2"),
        ("x-test-meta-", b"empty"),
        ("x-other", b"3"),
    ]);
    let attributes = get_attributes(CFG, &map).unwrap();
    for (key, value) in [
        (Attribute::CacheControl, "no-cache"),
        (Attribute::ContentDisposition, "inline"),
        (Attribute::ContentEncoding, "gzip"),
        (Attribute::ContentLanguage, "en"),
        (Attribute::ContentType, "text/plain"),
        (Attribute::Metadata("a".to_string()), "2"),
        (Attribute::Metadata("".to_string()), "empty"),
    ] {
        assert_eq!(attributes.get(&key).unwrap(), value);
    }
    assert_eq!(attributes.get(&Attribute::Metadata("x-other".into())), None);

    let plain = HeaderConfig {
        user_defined_metadata_prefix: None,
        ..CFG
    };
    let attributes = get_attributes(plain, &map).unwrap();
    assert_eq!(attributes.get(&Attribute::Metadata("a".into())), None);
}

#[test]
fn attributes_that_are_no_text_are_refused() {
    for (name, message) in [
        ("cache-control", "Cache-Control header contained non UTF-8 characters"),
        (
            "content-disposition",
            "Content-Disposition header contained non UTF-8 characters",
        ),
        (
            "content-encoding",
            "Content-Encoding header contained non UTF-8 characters",
        ),
        (
            "content-language",
            "Content-Language header contained non UTF-8 characters",
        ),
        ("content-type", "Content-Type header contained non UTF-8 characters"),
        (
            "x-test-meta-foo",
            "Metadata value for \"\"x-test-meta-foo\"\" contained non UTF-8 characters",
        ),
    ] {
        let err = get_attributes(CFG, &headers(&[(name, b"\xc3")])).unwrap_err();
        assert_eq!(err.to_string(), message);
    }
}

#[test]
fn invalid_ranges_are_refused_before_the_request() {
    let mut ctx = GetContext {
        store: "mem",
        header_config: CFG,
        location: "test".to_string(),
        range: None,
        options: (),
    };
    assert!(ctx.first_request().unwrap().range.is_none());
    ctx.range = Some(GetRange::Bounded(3..4));
    assert!(matches!(
        ctx.first_request().unwrap().range,
        Some(GetRange::Bounded(r)) if r == (3..4)
    ));
    ctx.range = Some(GetRange::Bounded(3..3));
    let Error::Generic { store, source } = ctx.first_request().unwrap_err();
    assert_eq!(store, "mem");
    assert_eq!(source, InvalidGetRange::Inconsistent { start: 3, end: 3 });
    assert_eq!(source.to_string(), "Range started at 3 and ended at 3");
    let Error::Generic { store, source } = ctx.err("oops");
    assert_eq!((store, source), ("mem", "oops"));
}

#[test]
fn ranges_are_cut_to_the_object() {
    assert_eq!(GetRange::Bounded(2..9).as_range(5), Ok(2..5));
    assert_eq!(GetRange::Bounded(2..4).as_range(5), Ok(2..4));
    assert_eq!(GetRange::Offset(2).as_range(5), Ok(2..5));
    assert_eq!(
        GetRange::Offset(5).as_range(5),
        Err(InvalidGetRange::StartTooLarge {
            requested: 5,
            length: 5
        })
    );
    assert_eq!(GetRange::Suffix(9).as_range(5), Ok(0..5));
    assert_eq!(GetRange::Suffix(0).as_range(0), Ok(0..0));
    assert_eq!(
        InvalidGetRange::TooLarge {
            requested: 12,
            max: 7
        }
        .to_string(),
        "Range 12 is larger than system memory limit 7"
    );
}

#[test]
fn a_response_gives_the_object() {
    let ctx = GetContext {
        store: "mem",
        header_config: CFG,
        location: "test".to_string(),
        range: Some(GetRange::Bounded(2..5)),
        options: (),
    };
    let resp = make_response(
        3,
        StatusCode::PARTIAL_CONTENT,
        Some("bytes 2-4/12"),
        Some(vec![("etag", "\"v1\""), ("content-type", "text/plain")]),
    );
    let resp = ResponseParts {
        status: resp.status,
        headers: resp.headers,
        extensions: "from the connection",
    };
    let result = ctx.get_result(resp).unwrap();
    assert_eq!(result.extensions, "from the connection");
    assert_eq!(result.meta.size, 12);
    assert_eq!(result.meta.location, "test");
    assert_eq!(result.meta.e_tag.as_deref(), Some("\"v1\""));
    assert_eq!(result.range, 2..5);
    assert_eq!(result.stream.range(), 2..5);
    assert_eq!(
        result.attributes.get(&Attribute::ContentType).unwrap(),
        "text/plain"
    );

    let resp = make_response(3, StatusCode::OK, None, None);
    let Error::Generic { store, source } = ctx.get_result(resp).unwrap_err();
    assert_eq!(store, "mem");
    assert!(matches!(source, GetResultError::NotPartial));
}

#[test]
fn white_space_around_a_value_does_not_matter() {
    for s in ["bytes 2-4/12", "bytes 2-4/1", "bytes2-4/12", ""] {
        let plain = ContentRange::from_str(s).map(|c| (c.range, c.size));
        for (before, after) in [("  ", ""), ("", "\t"), (" \u{3000}", "\r\n ")] {
            let padded = ContentRange::from_str(&format!("{before}{s}{after}"));
            assert_eq!(padded.map(|c| (c.range, c.size)), plain);
        }
    }
    assert_eq!(
        ContentRange::from_str(" bytes 2-4/12 ").unwrap().range,
        2..5
    );
    assert!(is_strong_etag(" \"v1\"\t"));
    assert!(!is_strong_etag(" W/\"v1\"\t"));
}

#[test]
fn an_attribute_is_held_once() {
    let mut attributes = Attributes::new();
    let key = || Attribute::Metadata("a".to_string());
    assert!(attributes.get(&key()).is_none());
    assert_eq!(attributes.insert(key(), "1".to_string()), None);
    assert_eq!(
        attributes.insert(Attribute::ContentType, "text/plain".to_string()),
        None
    );
    assert_eq!(
        attributes.insert(key(), "2".to_string()).as_deref(),
        Some("1")
    );
    assert_eq!(attributes.get(&key()).unwrap(), "2");
    assert_eq!(
        attributes.get(&Attribute::ContentType).unwrap(),
        "text/plain"
    );
    assert!(attributes.get(&Attribute::CacheControl).is_none());
}
