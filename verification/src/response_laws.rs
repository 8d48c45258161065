//! Which responses are accepted, and what is reported of the others.

use crate::decimal::{law_read_numbers_are_digits, read_number, ParseNumberError};
use crate::fields::{field_text, Field, FieldText};
use crate::get::{
    content_range_field, encoding_fault, range_meta_of, range_response_of, read_content_range,
    strong_etag, ContentRange,
};
use crate::get_error::GetResultErrorView;
use crate::header::{content_length_of, meta_of, ErrorView, HeaderConfig, ObjectMetaView};
use crate::range::{GetRange, InvalidGetRange};
use crate::stream::new_transfer;
use crate::text::{
    ascii_lowered, law_trimming_ignores_white_space, trimmed, trimmed_end, trimmed_start, white_space,
};
use crate::text_laws::{law_ascii_lowered, law_halves, law_prefix, same_but_for_case};
use std::ops::Range;
use vstd::prelude::*;

verus! {

/// A string that is put together as a content range is.
pub open spec fn is_content_range_text(
    s: Seq<char>,
    first: Seq<char>,
    last: Seq<char>,
    size: Seq<char>,
) -> bool {
    s == seq!['b', 'y', 't', 'e', 's', ' '] + (first + seq!['-'] + last + seq!['/'] + size)
}

/// A string is read as a content range exactly if, but for white space around it, it is `bytes`, a
/// space and three numbers, with a hyphen and a slash between them: the first byte, the last byte,
/// which does not come before it, and the size of the object, which both bytes lie within.
pub proof fn law_content_range(s: Seq<char>, c: ContentRange)
    ensures
        read_content_range(s) == Some(c) <==> {
            &&& c.range.start < c.range.end <= c.size
            &&& exists|first: Seq<char>, last: Seq<char>, size: Seq<char>|
                {
                    &&& #[trigger] is_content_range_text(trimmed(s), first, last, size)
                    &&& read_number(first) == Ok::<u64, ParseNumberError>(c.range.start)
                    &&& read_number(last) == Ok::<u64, ParseNumberError>((c.range.end - 1) as u64)
                    &&& read_number(size) == Ok::<u64, ParseNumberError>(c.size)
                }
        },
{
    let t = trimmed(s);
    let unit = "bytes "@;
    reveal_strlit("bytes ");
    assert(unit =~= seq!['b', 'y', 't', 'e', 's', ' ']);
    if read_content_range(s) == Some(c) {
        let rem = crate::text::after_prefix(t, unit)->0;
        law_prefix(t, unit, rem);
        let (bounds, size) = crate::text::halves(rem, '/')->0;
        law_halves(rem, '/', bounds, size);
        let (first, last) = crate::text::halves(bounds, '-')->0;
        law_halves(bounds, '-', first, last);
        assert(is_content_range_text(t, first, last, size));
    }
    if c.range.start < c.range.end <= c.size && exists|
        first: Seq<char>,
        last: Seq<char>,
        size: Seq<char>,
    |
        {
            &&& #[trigger] is_content_range_text(t, first, last, size)
            &&& read_number(first) == Ok::<u64, ParseNumberError>(c.range.start)
            &&& read_number(last) == Ok::<u64, ParseNumberError>((c.range.end - 1) as u64)
            &&& read_number(size) == Ok::<u64, ParseNumberError>(c.size)
        } {
        let (first, last, size) = choose|first: Seq<char>, last: Seq<char>, size: Seq<char>|
            {
                &&& #[trigger] is_content_range_text(t, first, last, size)
                &&& read_number(first) == Ok::<u64, ParseNumberError>(c.range.start)
                &&& read_number(last) == Ok::<u64, ParseNumberError>((c.range.end - 1) as u64)
                &&& read_number(size) == Ok::<u64, ParseNumberError>(c.size)
            };
        lemma_number_holds_no_separator(first, c.range.start);
        lemma_number_holds_no_separator(last, (c.range.end - 1) as u64);
        let bounds = first + seq!['-'] + last;
        let rem = bounds + seq!['/'] + size;
        assert(rem =~= first + seq!['-'] + last + seq!['/'] + size);
        law_prefix(t, unit, rem);
        assert(!bounds.contains('/')) by {
            if bounds.contains('/') {
                let i = choose|i: int| 0 <= i < bounds.len() && bounds[i] == '/';
                if i < first.len() {
                    assert(first[i] == '/');
                } else if i > first.len() {
                    assert(last[i - first.len() - 1] == '/');
                }
            }
        }
        law_halves(rem, '/', bounds, size);
        law_halves(bounds, '-', first, last);
    }
}

/// What reads as a number holds neither a hyphen nor a slash.
proof fn lemma_number_holds_no_separator(s: Seq<char>, n: u64)
    requires
        read_number(s) == Ok::<u64, ParseNumberError>(n),
    ensures
        !s.contains('-'),
        !s.contains('/'),
{
    law_read_numbers_are_digits(s, n);
    let from = choose|from: int|
        from < s.len() && crate::decimal::is_digit_run(s, from, s.len() as int)
            && #[trigger] crate::decimal::digits_value(s.subrange(from, s.len() as int)) == n;
    assert forall|i: int| 0 <= i < s.len() implies #[trigger] s[i] != '-' && s[i] != '/' by {
        if i >= from {
            assert('0' <= s[i]);
        }
    }
}

/// The word `identity`, whatever the case of its letters.
pub open spec fn spells_identity(s: Seq<char>) -> bool {
    &&& s.len() == 8
    &&& s[0] == 'i' || s[0] == 'I'
    &&& s[1] == 'd' || s[1] == 'D'
    &&& s[2] == 'e' || s[2] == 'E'
    &&& s[3] == 'n' || s[3] == 'N'
    &&& s[4] == 't' || s[4] == 'T'
    &&& s[5] == 'i' || s[5] == 'I'
    &&& s[6] == 't' || s[6] == 'T'
    &&& s[7] == 'y' || s[7] == 'Y'
}

/// The body of a response stands for bytes of the object: there is no content encoding, or it is
/// `identity`, whatever the case of its letters and the white space around it.
pub open spec fn is_unencoded(fields: Seq<Field>) -> bool {
    match field_text(fields, "content-encoding"@) {
        FieldText::Absent => true,
        FieldText::NotText => false,
        FieldText::Text(encoding) => spells_identity(trimmed(encoding)),
    }
}

/// A response is at fault for its content encoding exactly if there is one and it does not spell
/// `identity`. An encoding that is no text is reported as such, and any other as it is written.
pub proof fn law_encoding(fields: Seq<Field>)
    ensures
        encoding_fault(fields) is None <==> is_unencoded(fields),
        field_text(fields, "content-encoding"@) is NotText ==> encoding_fault(fields) == Some(
            GetResultErrorView::InvalidContentEncoding,
        ),
        field_text(fields, "content-encoding"@) matches FieldText::Text(encoding)
            ==> !spells_identity(trimmed(encoding)) ==> encoding_fault(fields) == Some(
            GetResultErrorView::EncodedRange { encoding },
        ),
{
    if let FieldText::Text(encoding) = field_text(fields, "content-encoding"@) {
        let t = trimmed(encoding);
        let word = "identity"@;
        reveal_strlit("identity");
        law_ascii_lowered(t, word);
        if spells_identity(t) {
            assert forall|i: int| 0 <= i < t.len() implies #[trigger] same_but_for_case(
                t[i],
                word[i],
            ) by {}
        }
        if ascii_lowered(t) == ascii_lowered(word) {
            assert(same_but_for_case(t[0], word[0]));
            lemma_letter_of_identity(t[0], word[0]);
            assert(same_but_for_case(t[1], word[1]));
            lemma_letter_of_identity(t[1], word[1]);
            assert(same_but_for_case(t[2], word[2]));
            lemma_letter_of_identity(t[2], word[2]);
            assert(same_but_for_case(t[3], word[3]));
            lemma_letter_of_identity(t[3], word[3]);
            assert(same_but_for_case(t[4], word[4]));
            lemma_letter_of_identity(t[4], word[4]);
            assert(same_but_for_case(t[5], word[5]));
            lemma_letter_of_identity(t[5], word[5]);
            assert(same_but_for_case(t[6], word[6]));
            lemma_letter_of_identity(t[6], word[6]);
            assert(same_but_for_case(t[7], word[7]));
            lemma_letter_of_identity(t[7], word[7]);
        }
    }
}

/// The letters of `identity`, small or capital.
proof fn lemma_letter_of_identity(c: char, letter: char)
    requires
        same_but_for_case(c, letter),
    ensures
        letter == 'i' ==> c == 'i' || c == 'I',
        letter == 'd' ==> c == 'd' || c == 'D',
        letter == 'e' ==> c == 'e' || c == 'E',
        letter == 'n' ==> c == 'n' || c == 'N',
        letter == 't' ==> c == 't' || c == 'T',
        letter == 'y' ==> c == 'y' || c == 'Y',
{
}

/// The content range of a response is what the whole text of its field reads as. It is missing
/// exactly if there is no such field; a text that is none is reported as it is written.
pub proof fn law_content_range_field(fields: Seq<Field>, c: ContentRange, value: Seq<char>)
    ensures
        content_range_field(fields) == Ok::<ContentRange, GetResultErrorView>(c) <==> (field_text(
            fields,
            "content-range"@,
        ) matches FieldText::Text(text) && read_content_range(text) == Some(c)),
        field_text(fields, "content-range"@) is Absent ==> content_range_field(fields) == Err::<
            ContentRange,
            GetResultErrorView,
        >(GetResultErrorView::NoContentRange),
        field_text(fields, "content-range"@) is NotText ==> content_range_field(fields) == Err::<
            ContentRange,
            GetResultErrorView,
        >(GetResultErrorView::InvalidContentRange),
        field_text(fields, "content-range"@) == FieldText::Text(value) && read_content_range(
            value,
        ) is None ==> content_range_field(fields) == Err::<ContentRange, GetResultErrorView>(
            GetResultErrorView::ParseContentRange { value },
        ),
{
}

/// A partial response passes the checks exactly if its body is not encoded, it has a content range,
/// and its content length is the number of bytes in that range.
pub proof fn law_range_response_is_accepted(fields: Seq<Field>, c: ContentRange)
    ensures
        range_response_of(fields) == Ok::<ContentRange, GetResultErrorView>(c) <==> {
            &&& is_unencoded(fields)
            &&& field_text(fields, "content-range"@) matches FieldText::Text(text)
                && read_content_range(text) == Some(c)
            &&& content_length_of(fields) matches Ok(n) && n == c.range.end - c.range.start
        },
{
    law_encoding(fields);
}

/// What is reported of a partial response that does not pass: its encoding first, then its content
/// range, then its content length, and last that the two do not agree.
pub proof fn law_range_response_errors(fields: Seq<Field>)
    ensures
        encoding_fault(fields) matches Some(e) ==> range_response_of(fields) == Err::<
            ContentRange,
            GetResultErrorView,
        >(e),
        is_unencoded(fields) ==> {
            &&& content_range_field(fields) matches Err(e) ==> range_response_of(fields) == Err::<
                ContentRange,
                GetResultErrorView,
            >(e)
            &&& content_range_field(fields) matches Ok(c) ==> {
                &&& content_length_of(fields) matches Err(source) ==> range_response_of(fields)
                    == Err::<ContentRange, GetResultErrorView>(
                    GetResultErrorView::Header { source },
                )
                &&& content_length_of(fields) matches Ok(n) ==> n + c.range.start != c.range.end
                    ==> range_response_of(fields) == Err::<ContentRange, GetResultErrorView>(
                    GetResultErrorView::InvalidRangeLength { declared: n, actual: c.range },
                )
            }
        },
{
    law_encoding(fields);
}

/// A response is accepted exactly if its fields describe an object and, where a range was asked for,
/// its status is 206, it passes the checks of a partial response, and its range is the one that an
/// object of its size serves the request with. It is accepted with that range and that size, and all
/// else that is known of the object is what its fields say. Where no range was asked for, the range
/// is the whole object.
pub proof fn law_response_is_accepted(
    cfg: HeaderConfig,
    location: Seq<char>,
    asked: Option<GetRange>,
    status: u16,
    fields: Seq<Field>,
    range: Range<u64>,
    found: ObjectMetaView,
)
    ensures
        range_meta_of(cfg, location, asked, status, fields) == Ok::<
            (Range<u64>, ObjectMetaView),
            GetResultErrorView,
        >((range, found)) <==> {
            &&& meta_of(location, fields, cfg) matches Ok(meta) && {
                &&& found.location == meta.location
                &&& found.last_modified == meta.last_modified
                &&& found.e_tag == meta.e_tag
                &&& found.version == meta.version
                &&& asked is None ==> found.size == meta.size && range.start == 0 && range.end
                    == meta.size
            }
            &&& asked matches Some(a) ==> {
                &&& status == 206
                &&& range_response_of(fields) == Ok::<ContentRange, GetResultErrorView>(
                    ContentRange { range, size: found.size },
                )
                &&& a.within(found.size) == Ok::<Range<u64>, InvalidGetRange>(range)
            }
        },
{
}

/// The result is this error.
pub open spec fn is_error<T>(
    result: Result<T, GetResultErrorView>,
    error: GetResultErrorView,
) -> bool {
    result == Err::<T, GetResultErrorView>(error)
}

/// What is reported of a response that is not accepted: that its fields do not describe an object,
/// that it is not partial although a range was asked for, that it does not pass the checks of a
/// partial response, that an object of its size does not serve the range, or that it carries another
/// range, in this order.
pub proof fn law_response_errors(
    cfg: HeaderConfig,
    location: Seq<char>,
    asked: Option<GetRange>,
    status: u16,
    fields: Seq<Field>,
)
    ensures
        ({
            let result = range_meta_of(cfg, location, asked, status, fields);
            &&& meta_of(location, fields, cfg) matches Err(source) ==> is_error(
                result,
                GetResultErrorView::Header { source },
            )
            &&& meta_of(location, fields, cfg) is Ok ==> (asked matches Some(a) ==> if status
                != 206 {
                is_error(result, GetResultErrorView::NotPartial)
            } else {
                match range_response_of(fields) {
                    Err(e) => is_error(result, e),
                    Ok(c) => match a.within(c.size) {
                        Err(source) => is_error(
                            result,
                            GetResultErrorView::InvalidRangeRequest { source },
                        ),
                        Ok(r) => r != c.range ==> is_error(
                            result,
                            GetResultErrorView::UnexpectedRange { expected: r, actual: c.range },
                        ),
                    },
                }
            })
        }),
{
}

/// An entity tag is strong exactly if, but for white space around it, it starts and ends with two
/// different quotation marks, and between them there is no control character of ASCII, no space
/// and no quotation mark. Every other character may stand there.
pub proof fn law_strong_etag(s: Seq<char>)
    ensures
        strong_etag(s) <==> {
            let tag = trimmed(s);
            &&& tag.len() >= 2
            &&& tag[0] == '"'
            &&& tag[tag.len() - 1] == '"'
            &&& forall|i: int|
                0 < i < tag.len() - 1 ==> !is_barred_from_tags(#[trigger] tag[i])
        },
{
    let tag = trimmed(s);
    if forall|i: int| 0 < i < tag.len() - 1 ==> !is_barred_from_tags(#[trigger] tag[i]) {
        assert forall|i: int| 0 < i < tag.len() - 1 implies crate::get::is_etag_char(
            #[trigger] tag[i],
        ) by {
            assert(!is_barred_from_tags(tag[i]));
        }
    }
    if strong_etag(s) {
        assert forall|i: int| 0 < i < tag.len() - 1 implies !is_barred_from_tags(
            #[trigger] tag[i],
        ) by {
            assert(crate::get::is_etag_char(tag[i]));
        }
    }
}

/// A control character of ASCII, a space or a quotation mark.
pub open spec fn is_barred_from_tags(c: char) -> bool {
    c <= '\u{20}' || c == '\u{7f}' || c == '"'
}

/// Whatever is put between two quotation marks makes a strong tag, unless it holds a control
/// character of ASCII, a space or a quotation mark. White space around the tag does not matter.
/// A transfer keeps such a tag as it is written.
pub proof fn law_strong_etag_is_kept(
    store: Seq<char>,
    before: Seq<char>,
    inner: Seq<char>,
    after: Seq<char>,
    range: Range<u64>,
)
    requires
        forall|i: int| 0 <= i < inner.len() ==> !is_barred_from_tags(#[trigger] inner[i]),
        forall|i: int| 0 <= i < before.len() ==> white_space(#[trigger] before[i]),
        forall|i: int| 0 <= i < after.len() ==> white_space(#[trigger] after[i]),
    ensures
        ({
            let tag = before + (seq!['"'] + inner + seq!['"']) + after;
            &&& strong_etag(tag)
            &&& new_transfer(store, Some(tag), range).etag == Some(tag)
        }),
{
    let tag = seq!['"'] + inner + seq!['"'];
    let padded = before + tag + after;
    law_trimming_ignores_white_space(before, tag, after);
    assert(trimmed_start(tag) == tag);
    assert(tag.last() == '"');
    assert(trimmed_end(tag) == tag);
    assert forall|i: int| 0 < i < tag.len() - 1 implies !is_barred_from_tags(#[trigger] tag[i]) by {
        assert(tag[i] == inner[i - 1]);
    }
    law_strong_etag(padded);
}

/// A new transfer is that of the store and of the range that it is made for. It keeps the entity tag
/// exactly if there is one and it is strong.
pub proof fn law_new_transfer(store: Seq<char>, etag: Option<Seq<char>>, range: Range<u64>)
    ensures
        ({
            let t = new_transfer(store, etag, range);
            &&& t.store == store
            &&& t.range.start == range.start && t.range.end == range.end
            &&& etag is None ==> t.etag is None
            &&& etag matches Some(tag) ==> t.etag == if strong_etag(tag) {
                Some(tag)
            } else {
                None
            }
        }),
{
}

} // verus!
