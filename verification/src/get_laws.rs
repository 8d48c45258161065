//! What holds of a response that passed the checks.

use crate::attributes::AttributeView;
use crate::decimal::{is_digit, law_numeral_reads_back, lemma_numeral, numeral};
use crate::fields::{last_value, text_of, Field};
use crate::get::{
    encoding_fault, is_etag_char, range_meta_of, range_response_of, read_content_range, strong_etag,
    ContentRange, PARTIAL_CONTENT,
};
use crate::get_attributes::{attributes_fault, attributes_of, metadata_fault};
use crate::header::{content_length_of, HeaderConfig};
use crate::range::{law_range_lies_within_object, GetRange, InvalidGetRange};
use crate::text::{halves, law_trimmed, law_trimming_ignores_white_space, trimmed, white_space};
use std::ops::Range;
use vstd::prelude::*;

verus! {

/// The text of a content range.
pub open spec fn content_range_text(range: Range<u64>, size: u64) -> Seq<char> {
    "bytes "@ + (numeral(range.start as nat) + seq!['-'] + numeral((range.end - 1) as nat))
        + seq!['/'] + numeral(size as nat)
}

/// The first separator parts a string where it stands.
proof fn lemma_halves(left: Seq<char>, sep: char, right: Seq<char>)
    requires
        !left.contains(sep),
    ensures
        halves(left + seq![sep] + right, sep) == Some((left, right)),
{
    let s = left + seq![sep] + right;
    let at = left.len() as int;
    assert(s[at] == sep);
    s.index_of_first_ensures(sep);
    let found = s.index_of_first(sep)->0;
    if found < at {
        assert(left[found] == s[found]);
    }
    assert(s.take(at) =~= left);
    assert(s.skip(at + 1) =~= right);
}

/// White space around a content range, or around an entity tag, never matters.
pub proof fn law_white_space_around_a_value(before: Seq<char>, s: Seq<char>, after: Seq<char>)
    requires
        forall|i: int| 0 <= i < before.len() ==> white_space(#[trigger] before[i]),
        forall|i: int| 0 <= i < after.len() ==> white_space(#[trigger] after[i]),
    ensures
        read_content_range(before + s + after) == read_content_range(s),
        strong_etag(before + s + after) == strong_etag(s),
{
    law_trimming_ignores_white_space(before, s, after);
}

/// A non-empty range within an object, written as a content range, reads as that range.
pub proof fn law_content_range_reads_back(range: Range<u64>, size: u64)
    requires
        range.start < range.end <= size,
    ensures
        read_content_range(content_range_text(range, size)) == Some(ContentRange { range, size }),
{
    let first = numeral(range.start as nat);
    let last = numeral((range.end - 1) as nat);
    let total = numeral(size as nat);
    lemma_numeral(range.start as nat);
    lemma_numeral((range.end - 1) as nat);
    lemma_numeral(size as nat);
    law_numeral_reads_back(range.start);
    law_numeral_reads_back((range.end - 1) as u64);
    law_numeral_reads_back(size);
    let s = content_range_text(range, size);
    let bounds = first + seq!['-'] + last;
    let rem = bounds + seq!['/'] + total;
    reveal_strlit("bytes ");
    assert(s =~= "bytes "@ + rem);
    assert(s[0] == 'b');
    assert(s.last() == total.last());
    assert(is_digit(total[total.len() - 1]));
    assert(trimmed(s) == s);
    assert(s.take("bytes "@.len() as int) =~= "bytes "@);
    assert(s.skip("bytes "@.len() as int) =~= rem);
    assert(!first.contains('-')) by {
        if first.contains('-') {
            let i = choose|i: int| 0 <= i < first.len() && first[i] == '-';
            assert(is_digit(first[i]));
        }
    }
    assert(!bounds.contains('/')) by {
        if bounds.contains('/') {
            let i = choose|i: int| 0 <= i < bounds.len() && bounds[i] == '/';
            if i < first.len() {
                assert(is_digit(first[i]));
            } else if i > first.len() {
                assert(is_digit(last[i - first.len() - 1]));
            }
        }
    }
    lemma_halves(bounds, '/', total);
    lemma_halves(first, '-', last);
}

/// A range that was read from a content range is not empty and lies within the object.
pub proof fn law_content_range_lies_within_object(s: Seq<char>)
    ensures
        read_content_range(s) matches Some(c) ==> c.range.start < c.range.end <= c.size,
{
}

/// A weak entity tag, which starts with `W/`, is not strong, whatever follows.
pub proof fn law_weak_etag_is_not_strong(tag: Seq<char>)
    ensures
        !strong_etag("W/"@ + tag),
{
    let s = "W/"@ + tag;
    reveal_strlit("W/");
    law_trimmed(s);
    let (from, to) = choose|from: int, to: int|
        {
            &&& 0 <= from <= to <= s.len()
            &&& trimmed(s) == #[trigger] s.subrange(from, to)
            &&& forall|i: int| 0 <= i < from ==> white_space(#[trigger] s[i])
            &&& forall|i: int| to <= i < s.len() ==> white_space(#[trigger] s[i])
        };
    assert(s[0] == 'W');
    if trimmed(s).len() > 0 {
        assert(trimmed(s)[0] == s[from]);
    }
}

/// A strong entity tag is one tag: between its quotation marks there is neither another quotation
/// mark, as in a list of tags, nor a space.
pub proof fn law_strong_etag_is_one_tag(s: Seq<char>, i: int)
    requires
        strong_etag(s),
        0 < i < trimmed(s).len() - 1,
    ensures
        trimmed(s)[i] != '"',
        trimmed(s)[i] != ' ',
{
    assert(is_etag_char(trimmed(s)[i]));
}

/// A partial response that passed the checks carries, unencoded, as many bytes as its content range
/// has, and at least one.
pub proof fn law_range_response(fields: Seq<Field>)
    ensures
        range_response_of(fields) matches Ok(c) ==> {
            &&& encoding_fault(fields) is None
            &&& content_length_of(fields) matches Ok(n) && n == c.range.end - c.range.start
            &&& c.range.start < c.range.end <= c.size
        },
{
}

/// The range that a response is accepted with is the one that was asked for, cut to the size of the
/// object, or else the whole object; it lies within the object. A range that was asked for is only
/// accepted from a partial response.
pub proof fn law_accepted_range(
    cfg: HeaderConfig,
    location: Seq<char>,
    asked: Option<GetRange>,
    status: u16,
    fields: Seq<Field>,
)
    ensures
        range_meta_of(cfg, location, asked, status, fields) matches Ok((range, meta)) ==> {
            &&& range.start <= range.end <= meta.size
            &&& meta.location == location
            &&& match asked {
                Some(a) => status == PARTIAL_CONTENT && a.within(meta.size) == Ok::<
                    Range<u64>,
                    InvalidGetRange,
                >(range),
                None => range == (Range { start: 0, end: meta.size }),
            }
        },
{
    if let Some(a) = asked {
        match range_response_of(fields) {
            Ok(c) => law_range_lies_within_object(a, c.size),
            Err(_) => {},
        }
    }
}

/// No user-defined metadata is lost: where no attribute is at fault, each field whose name is the
/// prefix and a name gives the metadata of that name a value.
pub proof fn law_metadata_is_kept(
    fields: Seq<Field>,
    cfg: HeaderConfig,
    prefix: &'static str,
    name: Seq<char>,
    i: int,
)
    requires
        cfg.user_defined_metadata_prefix == Some(prefix),
        attributes_fault(fields, cfg) is None,
        0 <= i < fields.len(),
        fields[i].0 == prefix@ + name,
    ensures
        attributes_of(fields, cfg).dom().contains(AttributeView::Metadata(name)),
{
    lemma_metadata_text(fields, prefix@, name, i);
}

/// Where no metadata is at fault, the last value of a field with the prefix is text.
proof fn lemma_metadata_text(fields: Seq<Field>, prefix: Seq<char>, name: Seq<char>, i: int)
    requires
        metadata_fault(fields, prefix) is None,
        0 <= i < fields.len(),
        fields[i].0 == prefix + name,
    ensures
        last_value(fields, prefix + name) matches Some(value) && text_of(value) is Some,
    decreases fields.len(),
{
    if fields.last().0 == prefix + name {
        assert(prefix =~= (prefix + name).take(prefix.len() as int));
        assert(prefix.is_prefix_of(fields.last().0));
    } else {
        assert(fields.drop_last()[i] == fields[i]);
        lemma_metadata_text(fields.drop_last(), prefix, name, i);
    }
}

} // verus!
