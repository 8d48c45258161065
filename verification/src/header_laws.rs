//! What holds of the header fields that describe an object.

use crate::decimal::{read_number, ParseNumberError};
use crate::fields::{field_text, Field, FieldText};
use crate::header::{
    content_length_of, etag_of, meta_of, ErrorView, HeaderConfig, ObjectMeta, ObjectMetaView,
};
use vstd::prelude::*;

verus! {

/// The entity tag is the whole text of its field. It is missing exactly if there is no such field.
pub proof fn law_etag(fields: Seq<Field>, tag: Seq<char>)
    ensures
        etag_of(fields) == Ok::<Seq<char>, ErrorView>(tag) <==> field_text(fields, "etag"@)
            == FieldText::Text(tag),
        etag_of(fields) == Err::<Seq<char>, ErrorView>(ErrorView::MissingEtag) <==> field_text(
            fields,
            "etag"@,
        ) is Absent,
        etag_of(fields) == Err::<Seq<char>, ErrorView>(ErrorView::BadHeader) <==> field_text(
            fields,
            "etag"@,
        ) is NotText,
{
}

/// The content length is the number that the text of its field reads as. It is missing exactly if
/// there is no such field, and a text that is no number is reported with why it is none.
pub proof fn law_content_length(fields: Seq<Field>, n: u64, text: Seq<char>)
    ensures
        content_length_of(fields) == Ok::<u64, ErrorView>(n) <==> (field_text(
            fields,
            "content-length"@,
        ) matches FieldText::Text(t) && read_number(t) == Ok::<u64, ParseNumberError>(n)),
        content_length_of(fields) == Err::<u64, ErrorView>(ErrorView::MissingContentLength)
            <==> field_text(fields, "content-length"@) is Absent,
        content_length_of(fields) == Err::<u64, ErrorView>(ErrorView::BadHeader) <==> field_text(
            fields,
            "content-length"@,
        ) is NotText,
        field_text(fields, "content-length"@) == FieldText::Text(text) ==> (read_number(
            text,
        ) matches Err(e) ==> content_length_of(fields) == Err::<u64, ErrorView>(
            ErrorView::InvalidContentLength { content_length: text, source: e },
        )),
{
}

/// What is known of an object is known from its fields: the location is the one asked for, the size
/// is the content length, and the time of the last modification, the entity tag and the version are
/// the whole texts of their fields, or nothing where there is no such field.
pub proof fn law_meta(location: Seq<char>, fields: Seq<Field>, cfg: HeaderConfig)
    ensures
        meta_of(location, fields, cfg) matches Ok(meta) ==> {
            &&& meta.location == location
            &&& content_length_of(fields) == Ok::<u64, ErrorView>(meta.size)
            &&& is_text_of(meta.last_modified, fields, "last-modified"@)
            &&& is_text_of(meta.e_tag, fields, "etag"@)
            &&& match cfg.version_header {
                Some(name) => is_text_of(meta.version, fields, name@),
                None => meta.version is None,
            }
        },
{
}

/// The text of a field that is there, or nothing for a field that is not.
pub open spec fn is_text_of(text: Option<Seq<char>>, fields: Seq<Field>, name: Seq<char>) -> bool {
    match text {
        Some(t) => field_text(fields, name) == FieldText::Text(t),
        None => field_text(fields, name) is Absent,
    }
}

/// Header fields describe an object exactly if they carry what the store requires, what they carry
/// is text, and the content length is a number. What is not required may be missing.
pub proof fn law_meta_is_accepted(location: Seq<char>, fields: Seq<Field>, cfg: HeaderConfig)
    ensures
        meta_of(location, fields, cfg) is Ok <==> {
            &&& !(field_text(fields, "last-modified"@) is NotText)
            &&& !(field_text(fields, "etag"@) is NotText)
            &&& cfg.last_modified_required ==> !(field_text(fields, "last-modified"@) is Absent)
            &&& cfg.etag_required ==> !(field_text(fields, "etag"@) is Absent)
            &&& field_text(fields, "content-length"@) matches FieldText::Text(t) && read_number(
                t,
            ) is Ok
            &&& cfg.version_header matches Some(name) ==> !(field_text(fields, name@) is NotText)
        },
{
}

/// What is reported of header fields that do not describe an object: a time of the last modification
/// that is required and missing, or no text; else such an entity tag; else what is wrong with the
/// content length; else a version that is no text.
pub proof fn law_meta_errors(location: Seq<char>, fields: Seq<Field>, cfg: HeaderConfig)
    ensures
        ({
            let meta = meta_of(location, fields, cfg);
            let modified = field_text(fields, "last-modified"@);
            let tag = field_text(fields, "etag"@);
            let modified_ok = modified is Text || (modified is Absent
                && !cfg.last_modified_required);
            let tag_ok = tag is Text || (tag is Absent && !cfg.etag_required);
            &&& modified is Absent && !modified_ok ==> meta == Err::<ObjectMetaView, ErrorView>(
                ErrorView::MissingLastModified,
            )
            &&& modified is NotText ==> meta == Err::<ObjectMetaView, ErrorView>(
                ErrorView::BadHeader,
            )
            &&& modified_ok && tag is Absent && !tag_ok ==> meta == Err::<
                ObjectMetaView,
                ErrorView,
            >(ErrorView::MissingEtag)
            &&& modified_ok && tag is NotText ==> meta == Err::<ObjectMetaView, ErrorView>(
                ErrorView::BadHeader,
            )
            &&& modified_ok && tag_ok ==> (content_length_of(fields) matches Err(e) ==> meta
                == Err::<ObjectMetaView, ErrorView>(e))
            &&& modified_ok && tag_ok && content_length_of(fields) is Ok && (
            cfg.version_header matches Some(name) && field_text(fields, name@) is NotText) ==> meta
                == Err::<ObjectMetaView, ErrorView>(ErrorView::BadHeader)
        }),
{
}

/// The view of what is known of an object has each value in its place.
pub proof fn law_meta_keeps_its_values(meta: ObjectMeta)
    ensures
        meta@.location == meta.location@,
        meta@.size == meta.size,
        meta@.last_modified is Some <==> meta.last_modified is Some,
        meta.last_modified matches Some(text) ==> meta@.last_modified == Some(text@),
        meta@.e_tag is Some <==> meta.e_tag is Some,
        meta.e_tag matches Some(text) ==> meta@.e_tag == Some(text@),
        meta@.version is Some <==> meta.version is Some,
        meta.version matches Some(text) ==> meta@.version == Some(text@),
{
}

} // verus!
