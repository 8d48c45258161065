//! What can go wrong when an object is retrieved.

use crate::decimal::{numeral, u64_to_string};
use crate::header;
use crate::range::{range_text, range_to_string, InvalidGetRange};
use crate::text::{debug_string, debug_text};
use http::header::ToStrError;
use std::ops::Range;
use vstd::prelude::*;
use vstd::string::StringExecFns;

verus! {

/// What can go wrong when an object is retrieved.
#[allow(inconsistent_fields)]
#[derive(Debug)]
pub enum GetResultError {
    /// The header fields do not describe an object.
    Header {
        /// What is wrong with them.
        source: header::Error,
    },
    /// The range cannot be asked for.
    InvalidRangeRequest {
        /// What is wrong with it.
        source: InvalidGetRange,
    },
    /// The response to a range request is not partial.
    NotPartial,
    /// A partial response has no content range.
    NoContentRange,
    /// The content range is malformed.
    ParseContentRange {
        /// The value of the field.
        value: String,
    },
    /// The content range is no text.
    InvalidContentRange {
        /// What reading the value as text gave.
        source: ToStrError,
    },
    /// The cache control is no text.
    InvalidCacheControl {
        /// What reading the value as text gave.
        source: ToStrError,
    },
    /// The content disposition is no text.
    InvalidContentDisposition {
        /// What reading the value as text gave.
        source: ToStrError,
    },
    /// The content encoding is no text.
    InvalidContentEncoding {
        /// What reading the value as text gave.
        source: ToStrError,
    },
    /// The content language is no text.
    InvalidContentLanguage {
        /// What reading the value as text gave.
        source: ToStrError,
    },
    /// The content type is no text.
    InvalidContentType {
        /// What reading the value as text gave.
        source: ToStrError,
    },
    /// User-defined metadata is no text.
    InvalidMetadata {
        /// The name of the field.
        key: String,
    },
    /// The response carries another range than the one asked for.
    UnexpectedRange {
        /// The range asked for.
        expected: Range<u64>,
        /// The range of the response.
        actual: Range<u64>,
    },
    /// The body of a partial response is encoded.
    EncodedRange {
        /// The encoding.
        encoding: String,
    },
    /// The content length is not the length of the content range.
    InvalidRangeLength {
        /// The content length.
        declared: u64,
        /// The content range.
        actual: Range<u64>,
    },
    /// The body ended early.
    TruncatedBody {
        /// Where the body was to end.
        expected: u64,
        /// Where it ended.
        actual: u64,
    },
    /// The body went on past its end.
    BodyTooLong {
        /// Where the body was to end.
        expected: u64,
    },
}

/// What can go wrong when an object is retrieved, with strings as sequences of characters and
/// without the error of the text reader.
#[allow(inconsistent_fields)]
pub enum GetResultErrorView {
    Header { source: header::ErrorView },
    InvalidRangeRequest { source: InvalidGetRange },
    NotPartial,
    NoContentRange,
    ParseContentRange { value: Seq<char> },
    InvalidContentRange,
    InvalidCacheControl,
    InvalidContentDisposition,
    InvalidContentEncoding,
    InvalidContentLanguage,
    InvalidContentType,
    InvalidMetadata { key: Seq<char> },
    UnexpectedRange { expected: Range<u64>, actual: Range<u64> },
    EncodedRange { encoding: Seq<char> },
    InvalidRangeLength { declared: u64, actual: Range<u64> },
    TruncatedBody { expected: u64, actual: u64 },
    BodyTooLong { expected: u64 },
}

impl View for GetResultError {
    type V = GetResultErrorView;

    open spec fn view(&self) -> GetResultErrorView {
        match *self {
            GetResultError::Header { source } => GetResultErrorView::Header { source: source@ },
            GetResultError::InvalidRangeRequest { source } => {
                GetResultErrorView::InvalidRangeRequest { source }
            },
            GetResultError::NotPartial => GetResultErrorView::NotPartial,
            GetResultError::NoContentRange => GetResultErrorView::NoContentRange,
            GetResultError::ParseContentRange { value } => {
                GetResultErrorView::ParseContentRange { value: value@ }
            },
            GetResultError::InvalidContentRange { .. } => GetResultErrorView::InvalidContentRange,
            GetResultError::InvalidCacheControl { .. } => GetResultErrorView::InvalidCacheControl,
            GetResultError::InvalidContentDisposition { .. } => {
                GetResultErrorView::InvalidContentDisposition
            },
            GetResultError::InvalidContentEncoding { .. } => {
                GetResultErrorView::InvalidContentEncoding
            },
            GetResultError::InvalidContentLanguage { .. } => {
                GetResultErrorView::InvalidContentLanguage
            },
            GetResultError::InvalidContentType { .. } => GetResultErrorView::InvalidContentType,
            GetResultError::InvalidMetadata { key } => {
                GetResultErrorView::InvalidMetadata { key: key@ }
            },
            GetResultError::UnexpectedRange { expected, actual } => {
                GetResultErrorView::UnexpectedRange { expected, actual }
            },
            GetResultError::EncodedRange { encoding } => {
                GetResultErrorView::EncodedRange { encoding: encoding@ }
            },
            GetResultError::InvalidRangeLength { declared, actual } => {
                GetResultErrorView::InvalidRangeLength { declared, actual }
            },
            GetResultError::TruncatedBody { expected, actual } => {
                GetResultErrorView::TruncatedBody { expected, actual }
            },
            GetResultError::BodyTooLong { expected } => {
                GetResultErrorView::BodyTooLong { expected }
            },
        }
    }
}

impl GetResultErrorView {
    /// What the error says.
    pub open spec fn message(self) -> Seq<char> {
        match self {
            GetResultErrorView::Header { source } => source.message(),
            GetResultErrorView::InvalidRangeRequest { source } => source.message(),
            GetResultErrorView::NotPartial => "Received non-partial response when range requested"@,
            GetResultErrorView::NoContentRange => {
                "Content-Range header not present in partial response; for browser requests verify CORS exposes Content-Range"@
            },
            GetResultErrorView::ParseContentRange { value } => {
                "Failed to parse value for CONTENT_RANGE header: \""@ + value + "\""@
            },
            GetResultErrorView::InvalidContentRange => {
                "Content-Range header contained non UTF-8 characters"@
            },
            GetResultErrorView::InvalidCacheControl => {
                "Cache-Control header contained non UTF-8 characters"@
            },
            GetResultErrorView::InvalidContentDisposition => {
                "Content-Disposition header contained non UTF-8 characters"@
            },
            GetResultErrorView::InvalidContentEncoding => {
                "Content-Encoding header contained non UTF-8 characters"@
            },
            GetResultErrorView::InvalidContentLanguage => {
                "Content-Language header contained non UTF-8 characters"@
            },
            GetResultErrorView::InvalidContentType => {
                "Content-Type header contained non UTF-8 characters"@
            },
            GetResultErrorView::InvalidMetadata { key } => {
                "Metadata value for \""@ + debug_text(key) + "\" contained non UTF-8 characters"@
            },
            GetResultErrorView::UnexpectedRange { expected, actual } => {
                "Requested "@ + range_text(expected) + ", got "@ + range_text(actual)
            },
            GetResultErrorView::EncodedRange { encoding } => {
                "Range response used unsupported Content-Encoding \""@ + encoding
                    + "\"; expected identity"@
            },
            GetResultErrorView::InvalidRangeLength { declared, actual } => {
                "Range response declared "@ + numeral(declared as nat)
                    + " bytes for Content-Range "@ + range_text(actual)
            },
            GetResultErrorView::TruncatedBody { expected, actual } => {
                "Response body ended at byte "@ + numeral(actual as nat) + ", expected byte "@
                    + numeral(expected as nat)
            },
            GetResultErrorView::BodyTooLong { expected } => {
                "Response body exceeded expected end byte "@ + numeral(expected as nat)
            },
        }
    }
}

impl GetResultError {
    /// The error as text.
    pub fn to_string(&self) -> (r: String)
        ensures
            r@ == self@.message(),
    {
        match self {
            GetResultError::Header { source } => source.to_string(),
            GetResultError::InvalidRangeRequest { source } => source.to_string(),
            GetResultError::NotPartial => {
                "Received non-partial response when range requested".to_owned()
            },
            GetResultError::NoContentRange => {
                "Content-Range header not present in partial response; for browser requests verify CORS exposes Content-Range".to_owned()
            },
            GetResultError::ParseContentRange { value } => {
                "Failed to parse value for CONTENT_RANGE header: \"".to_owned().concat(
                    value.as_str(),
                ).concat("\"")
            },
            GetResultError::InvalidContentRange { .. } => {
                "Content-Range header contained non UTF-8 characters".to_owned()
            },
            GetResultError::InvalidCacheControl { .. } => {
                "Cache-Control header contained non UTF-8 characters".to_owned()
            },
            GetResultError::InvalidContentDisposition { .. } => {
                "Content-Disposition header contained non UTF-8 characters".to_owned()
            },
            GetResultError::InvalidContentEncoding { .. } => {
                "Content-Encoding header contained non UTF-8 characters".to_owned()
            },
            GetResultError::InvalidContentLanguage { .. } => {
                "Content-Language header contained non UTF-8 characters".to_owned()
            },
            GetResultError::InvalidContentType { .. } => {
                "Content-Type header contained non UTF-8 characters".to_owned()
            },
            GetResultError::InvalidMetadata { key } => {
                "Metadata value for \"".to_owned().concat(
                    debug_string(key.as_str()).as_str(),
                ).concat("\" contained non UTF-8 characters")
            },
            GetResultError::UnexpectedRange { expected, actual } => {
                "Requested ".to_owned().concat(range_to_string(expected).as_str()).concat(
                    ", got ",
                ).concat(range_to_string(actual).as_str())
            },
            GetResultError::EncodedRange { encoding } => {
                "Range response used unsupported Content-Encoding \"".to_owned().concat(
                    encoding.as_str(),
                ).concat("\"; expected identity")
            },
            GetResultError::InvalidRangeLength { declared, actual } => {
                "Range response declared ".to_owned().concat(
                    u64_to_string(*declared).as_str(),
                ).concat(" bytes for Content-Range ").concat(range_to_string(actual).as_str())
            },
            GetResultError::TruncatedBody { expected, actual } => {
                "Response body ended at byte ".to_owned().concat(
                    u64_to_string(*actual).as_str(),
                ).concat(", expected byte ").concat(u64_to_string(*expected).as_str())
            },
            GetResultError::BodyTooLong { expected } => {
                "Response body exceeded expected end byte ".to_owned().concat(
                    u64_to_string(*expected).as_str(),
                )
            },
        }
    }
}

} // verus!
