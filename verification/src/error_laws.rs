//! What errors say, and that nothing of them is lost in their views.

use crate::decimal::{numeral, ParseNumberError};
use crate::get_error::{GetResultError, GetResultErrorView};
use crate::header;
use crate::range::{range_text, InvalidGetRange};
use crate::runtime::RetryRuntimeError;
use crate::stream::{Error, Step, StreamError, StreamErrorView, StreamView};
use crate::text::debug_text;
use std::ops::Range;
use vstd::prelude::*;

verus! {

/// A message names a value between two fixed parts.
pub open spec fn names(
    message: Seq<char>,
    before: Seq<char>,
    value: Seq<char>,
    after: Seq<char>,
) -> bool {
    &&& message.len() == before.len() + value.len() + after.len()
    &&& message.take(before.len() as int) == before
    &&& message.subrange(before.len() as int, (before.len() + value.len()) as int) == value
    &&& message.skip((before.len() + value.len()) as int) == after
}

/// Fixed parts around a value name that value.
proof fn lemma_names(before: Seq<char>, value: Seq<char>, after: Seq<char>)
    ensures
        names(before + value + after, before, value, after),
        names(before + value, before, value, Seq::empty()),
{
    let message = before + value + after;
    assert(message.take(before.len() as int) =~= before);
    assert(message.subrange(before.len() as int, (before.len() + value.len()) as int) =~= value);
    assert(message.skip((before.len() + value.len()) as int) =~= after);
    let short = before + value;
    assert(short.take(before.len() as int) =~= before);
    assert(short.subrange(before.len() as int, (before.len() + value.len()) as int) =~= value);
    assert(short.skip((before.len() + value.len()) as int) =~= Seq::<char>::empty());
}

/// A range is written as its bounds with two dots between them.
pub proof fn law_range_text(range: Range<u64>)
    ensures
        range_text(range) == numeral(range.start as nat) + seq!['.', '.'] + numeral(
            range.end as nat,
        ),
{
    reveal_strlit("..");
    assert(".."@ =~= seq!['.', '.']);
}

/// Errors about a value name that value in full: a content range and an encoding as they are
/// written, a name of metadata as `Debug` prints it, and ranges and positions by their numbers.
pub proof fn law_messages_name_their_values(e: GetResultErrorView)
    ensures
        match e {
            GetResultErrorView::ParseContentRange { value } => names(
                e.message(),
                "Failed to parse value for CONTENT_RANGE header: \""@,
                value,
                "\""@,
            ),
            GetResultErrorView::InvalidMetadata { key } => names(
                e.message(),
                "Metadata value for \""@,
                debug_text(key),
                "\" contained non UTF-8 characters"@,
            ),
            GetResultErrorView::EncodedRange { encoding } => names(
                e.message(),
                "Range response used unsupported Content-Encoding \""@,
                encoding,
                "\"; expected identity"@,
            ),
            GetResultErrorView::UnexpectedRange { expected, actual } => names(
                e.message(),
                "Requested "@,
                range_text(expected) + ", got "@ + range_text(actual),
                Seq::empty(),
            ),
            GetResultErrorView::InvalidRangeLength { declared, actual } => names(
                e.message(),
                "Range response declared "@,
                numeral(declared as nat) + " bytes for Content-Range "@ + range_text(actual),
                Seq::empty(),
            ),
            GetResultErrorView::TruncatedBody { expected, actual } => names(
                e.message(),
                "Response body ended at byte "@,
                numeral(actual as nat) + ", expected byte "@ + numeral(expected as nat),
                Seq::empty(),
            ),
            GetResultErrorView::BodyTooLong { expected } => names(
                e.message(),
                "Response body exceeded expected end byte "@,
                numeral(expected as nat),
                Seq::empty(),
            ),
            GetResultErrorView::Header { source } => e.message() == source.message(),
            GetResultErrorView::InvalidRangeRequest { source } => e.message() == source.message(),
            _ => true,
        },
{
    match e {
        GetResultErrorView::ParseContentRange { value } => lemma_names(
            "Failed to parse value for CONTENT_RANGE header: \""@,
            value,
            "\""@,
        ),
        GetResultErrorView::InvalidMetadata { key } => lemma_names(
            "Metadata value for \""@,
            debug_text(key),
            "\" contained non UTF-8 characters"@,
        ),
        GetResultErrorView::EncodedRange { encoding } => lemma_names(
            "Range response used unsupported Content-Encoding \""@,
            encoding,
            "\"; expected identity"@,
        ),
        GetResultErrorView::UnexpectedRange { expected, actual } => {
            let value = range_text(expected) + ", got "@ + range_text(actual);
            lemma_names("Requested "@, value, Seq::empty());
            assert(e.message() =~= "Requested "@ + value);
        },
        GetResultErrorView::InvalidRangeLength { declared, actual } => {
            let value = numeral(declared as nat) + " bytes for Content-Range "@ + range_text(actual);
            lemma_names("Range response declared "@, value, Seq::empty());
            assert(e.message() =~= "Range response declared "@ + value);
        },
        GetResultErrorView::TruncatedBody { expected, actual } => {
            let value = numeral(actual as nat) + ", expected byte "@ + numeral(expected as nat);
            lemma_names("Response body ended at byte "@, value, Seq::empty());
            assert(e.message() =~= "Response body ended at byte "@ + value);
        },
        GetResultErrorView::BodyTooLong { expected } => lemma_names(
            "Response body exceeded expected end byte "@,
            numeral(expected as nat),
            Seq::empty(),
        ),
        _ => {},
    }
}

/// Errors about a header say which header it is.
pub proof fn law_messages_name_their_header(e: GetResultErrorView)
    ensures
        ({
            let after = " header contained non UTF-8 characters"@;
            let none = Seq::<char>::empty();
            match e {
                GetResultErrorView::NotPartial => e.message()
                    == "Received non-partial response when range requested"@,
                GetResultErrorView::NoContentRange => e.message()
                    == "Content-Range header not present in partial response; for browser requests verify CORS exposes Content-Range"@,
                GetResultErrorView::InvalidContentRange => names(
                    e.message(),
                    none,
                    "Content-Range"@,
                    after,
                ),
                GetResultErrorView::InvalidCacheControl => names(
                    e.message(),
                    none,
                    "Cache-Control"@,
                    after,
                ),
                GetResultErrorView::InvalidContentDisposition => names(
                    e.message(),
                    none,
                    "Content-Disposition"@,
                    after,
                ),
                GetResultErrorView::InvalidContentEncoding => names(
                    e.message(),
                    none,
                    "Content-Encoding"@,
                    after,
                ),
                GetResultErrorView::InvalidContentLanguage => names(
                    e.message(),
                    none,
                    "Content-Language"@,
                    after,
                ),
                GetResultErrorView::InvalidContentType => names(
                    e.message(),
                    none,
                    "Content-Type"@,
                    after,
                ),
                _ => true,
            }
        }),
{
    let after = " header contained non UTF-8 characters"@;
    let none = Seq::<char>::empty();
    reveal_strlit(" header contained non UTF-8 characters");
    match e {
        GetResultErrorView::InvalidContentRange => {
            reveal_strlit("Content-Range");
            reveal_strlit("Content-Range header contained non UTF-8 characters");
            assert(e.message() =~= none + "Content-Range"@ + after);
            lemma_names(none, "Content-Range"@, after);
        },
        GetResultErrorView::InvalidCacheControl => {
            reveal_strlit("Cache-Control");
            reveal_strlit("Cache-Control header contained non UTF-8 characters");
            assert(e.message() =~= none + "Cache-Control"@ + after);
            lemma_names(none, "Cache-Control"@, after);
        },
        GetResultErrorView::InvalidContentDisposition => {
            reveal_strlit("Content-Disposition");
            reveal_strlit("Content-Disposition header contained non UTF-8 characters");
            assert(e.message() =~= none + "Content-Disposition"@ + after);
            lemma_names(none, "Content-Disposition"@, after);
        },
        GetResultErrorView::InvalidContentEncoding => {
            reveal_strlit("Content-Encoding");
            reveal_strlit("Content-Encoding header contained non UTF-8 characters");
            assert(e.message() =~= none + "Content-Encoding"@ + after);
            lemma_names(none, "Content-Encoding"@, after);
        },
        GetResultErrorView::InvalidContentLanguage => {
            reveal_strlit("Content-Language");
            reveal_strlit("Content-Language header contained non UTF-8 characters");
            assert(e.message() =~= none + "Content-Language"@ + after);
            lemma_names(none, "Content-Language"@, after);
        },
        GetResultErrorView::InvalidContentType => {
            reveal_strlit("Content-Type");
            reveal_strlit("Content-Type header contained non UTF-8 characters");
            assert(e.message() =~= none + "Content-Type"@ + after);
            lemma_names(none, "Content-Type"@, after);
        },
        _ => {},
    }
}

/// Errors about a range name its bounds, or its length, and the limit that they exceed.
pub proof fn law_messages_of_ranges(e: InvalidGetRange)
    ensures
        match e {
            InvalidGetRange::StartTooLarge { requested, length } => names(
                e.message(),
                "Wanted range starting at "@,
                numeral(requested as nat) + ", but object was only "@ + numeral(length as nat),
                " bytes long"@,
            ),
            InvalidGetRange::Inconsistent { start, end } => names(
                e.message(),
                "Range started at "@,
                numeral(start as nat) + " and ended at "@ + numeral(end as nat),
                Seq::empty(),
            ),
            InvalidGetRange::TooLarge { requested, max } => names(
                e.message(),
                "Range "@,
                numeral(requested as nat) + " is larger than system memory limit "@ + numeral(
                    max as nat,
                ),
                Seq::empty(),
            ),
        },
{
    match e {
        InvalidGetRange::StartTooLarge { requested, length } => {
            let value = numeral(requested as nat) + ", but object was only "@ + numeral(
                length as nat,
            );
            lemma_names("Wanted range starting at "@, value, " bytes long"@);
            assert(e.message() =~= "Wanted range starting at "@ + value + " bytes long"@);
        },
        InvalidGetRange::Inconsistent { start, end } => {
            let value = numeral(start as nat) + " and ended at "@ + numeral(end as nat);
            lemma_names("Range started at "@, value, Seq::empty());
            assert(e.message() =~= "Range started at "@ + value);
        },
        InvalidGetRange::TooLarge { requested, max } => {
            let value = numeral(requested as nat) + " is larger than system memory limit "@
                + numeral(max as nat);
            lemma_names("Range "@, value, Seq::empty());
            assert(e.message() =~= "Range "@ + value);
        },
    }
}

/// An error about a content length names the value and why it is no number.
pub proof fn law_message_of_content_length(value: Seq<char>, source: ParseNumberError)
    ensures
        names(
            header::ErrorView::InvalidContentLength { content_length: value, source }.message(),
            "Invalid content length '"@,
            value,
            "': "@ + source.message(),
        ),
{
    lemma_names("Invalid content length '"@, value, "': "@ + source.message());
    assert(header::ErrorView::InvalidContentLength { content_length: value, source }.message()
        =~= "Invalid content length '"@ + value + ("': "@ + source.message()));
}

/// Errors that carry nothing say what is missing or wrong.
pub proof fn law_fixed_messages(runtime: RetryRuntimeError)
    ensures
        runtime.message()
            == "delayed retry requires a native Tokio timer or the explicit browser `web` host capability"@,
        header::ErrorView::MissingEtag.message() == "ETag Header missing from response"@,
        header::ErrorView::MissingLastModified.message()
            == "Last-Modified Header missing from response"@,
        header::ErrorView::MissingContentLength.message()
            == "Content-Length Header missing from response"@,
        header::ErrorView::BadHeader.message() == "Received header containing non-ASCII data"@,
        ParseNumberError::Empty.message() == "cannot parse integer from empty string"@,
        ParseNumberError::InvalidDigit.message() == "invalid digit found in string"@,
        ParseNumberError::Overflow.message() == "number too large to fit in target type"@,
{
}

/// The view of an error has the values that the error has, each in its place.
pub proof fn law_errors_keep_their_values(e: GetResultError)
    ensures
        e matches GetResultError::Header { source } ==> e@ == (GetResultErrorView::Header {
            source: source@,
        }),
        e matches GetResultError::InvalidRangeRequest { source } ==> e@ == (
        GetResultErrorView::InvalidRangeRequest { source }),
        e matches GetResultError::ParseContentRange { value } ==> e@ == (
        GetResultErrorView::ParseContentRange { value: value@ }),
        e matches GetResultError::InvalidMetadata { key } ==> e@ == (
        GetResultErrorView::InvalidMetadata { key: key@ }),
        e matches GetResultError::UnexpectedRange { expected, actual } ==> e@ == (
        GetResultErrorView::UnexpectedRange { expected, actual }),
        e matches GetResultError::EncodedRange { encoding } ==> e@ == (
        GetResultErrorView::EncodedRange { encoding: encoding@ }),
        e matches GetResultError::InvalidRangeLength { declared, actual } ==> e@ == (
        GetResultErrorView::InvalidRangeLength { declared, actual }),
        e matches GetResultError::TruncatedBody { expected, actual } ==> e@ == (
        GetResultErrorView::TruncatedBody { expected, actual }),
        e matches GetResultError::BodyTooLong { expected } ==> e@ == (
        GetResultErrorView::BodyTooLong { expected }),
        e is NotPartial <==> e@ is NotPartial,
        e is NoContentRange <==> e@ is NoContentRange,
        e is InvalidContentRange <==> e@ is InvalidContentRange,
        e is InvalidCacheControl <==> e@ is InvalidCacheControl,
        e is InvalidContentDisposition <==> e@ is InvalidContentDisposition,
        e is InvalidContentEncoding <==> e@ is InvalidContentEncoding,
        e is InvalidContentLanguage <==> e@ is InvalidContentLanguage,
        e is InvalidContentType <==> e@ is InvalidContentType,
{
}

/// The view of a header error tells the errors apart, and keeps a content length that is no number.
pub proof fn law_header_errors_keep_their_values(e: header::Error)
    ensures
        e is MissingEtag <==> e@ is MissingEtag,
        e is BadHeader <==> e@ is BadHeader,
        e is MissingLastModified <==> e@ is MissingLastModified,
        e is MissingContentLength <==> e@ is MissingContentLength,
        e matches header::Error::InvalidContentLength { content_length, source } ==> e@ == (
        header::ErrorView::InvalidContentLength { content_length: content_length@, source }),
{
}

/// A step that fails says so with the store and the error, and no other step does.
pub proof fn law_failed_steps<X>(step: Step<X>, store: &'static str, source: StreamError<X>)
    ensures
        step@.state is Broken <==> step is Fail,
        step@.state is Finished <==> step is Finish,
        step == Step::Fail(Error::Generic { store, source }) ==> step@.state == StreamView::Broken(
            store@,
            source@,
        ),
        source matches StreamError::Get(e) ==> source@ == StreamErrorView::<X>::Get(e@),
        source matches StreamError::Header(e) ==> source@ == StreamErrorView::<X>::Header(e@),
        source matches StreamError::Body(e) ==> source@ == StreamErrorView::Body(e),
        source matches StreamError::Request(e) ==> source@ == StreamErrorView::Request(e),
        source is Runtime <==> source@ is Runtime,
{
}

/// A step delivers a chunk exactly if it says so, and then the bytes of that chunk.
pub proof fn law_delivering_steps<X>(step: Step<X>)
    ensures
        step@.chunk is Some <==> step is Deliver,
        step matches Step::Deliver(chunk, reading) ==> step@.chunk == Some(
            crate::chunk::chunk_bytes(chunk),
        ) && step@.state == StreamView::<X>::Reading(reading@),
{
}

} // verus!
