//! Which attributes an object has, and with which values.

use crate::attributes::{Attribute, AttributeView, Attributes};
use crate::field_laws::law_last_value;
use crate::fields::{field_text, last_value, text_of, Field, FieldText};
use crate::get_attributes::{attributes_fault, attributes_of, content_fault, metadata_fault};
use crate::get_error::GetResultErrorView;
use crate::header::HeaderConfig;
use vstd::prelude::*;

verus! {

/// An attribute has a value exactly if there is a text, and its value is then that text.
pub open spec fn is_given_by(
    attributes: Map<AttributeView, Seq<char>>,
    key: AttributeView,
    field: FieldText,
) -> bool {
    match field {
        FieldText::Text(text) => attributes.dom().contains(key) && attributes[key] == text,
        _ => !attributes.dom().contains(key),
    }
}

/// Each content header gives the attribute that it stands for its whole text, neither cut nor
/// changed. Without the header, the object does not have the attribute.
pub proof fn law_content_attributes(fields: Seq<Field>, cfg: HeaderConfig)
    ensures
        ({
            let attributes = attributes_of(fields, cfg);
            &&& is_given_by(
                attributes,
                AttributeView::CacheControl,
                field_text(fields, "cache-control"@),
            )
            &&& is_given_by(
                attributes,
                AttributeView::ContentDisposition,
                field_text(fields, "content-disposition"@),
            )
            &&& is_given_by(
                attributes,
                AttributeView::ContentEncoding,
                field_text(fields, "content-encoding"@),
            )
            &&& is_given_by(
                attributes,
                AttributeView::ContentLanguage,
                field_text(fields, "content-language"@),
            )
            &&& is_given_by(
                attributes,
                AttributeView::ContentType,
                field_text(fields, "content-type"@),
            )
        }),
{
}

/// The last field called by the prefix and a name gives the metadata of that name its whole text.
pub proof fn law_metadata_value(
    before: Seq<Field>,
    value: Seq<u8>,
    after: Seq<Field>,
    cfg: HeaderConfig,
    prefix: &'static str,
    name: Seq<char>,
)
    requires
        cfg.user_defined_metadata_prefix == Some(prefix),
        forall|i: int| 0 <= i < after.len() ==> (#[trigger] after[i]).0 != prefix@ + name,
        text_of(value) is Some,
    ensures
        ({
            let attributes = attributes_of(before + seq![(prefix@ + name, value)] + after, cfg);
            &&& attributes.dom().contains(AttributeView::Metadata(name))
            &&& text_of(value) == Some(attributes[AttributeView::Metadata(name)])
        }),
{
    law_last_value(before, prefix@ + name, value, after);
}

/// An object has no metadata of a name that no field has behind the prefix, and none at all if the
/// store has no prefix for it.
pub proof fn law_no_other_metadata(fields: Seq<Field>, cfg: HeaderConfig, name: Seq<char>)
    requires
        cfg.user_defined_metadata_prefix matches Some(prefix) ==> forall|i: int|
            0 <= i < fields.len() ==> (#[trigger] fields[i]).0 != prefix@ + name,
    ensures
        !attributes_of(fields, cfg).dom().contains(AttributeView::Metadata(name)),
{
    if let Some(prefix) = cfg.user_defined_metadata_prefix {
        law_last_value(Seq::empty(), prefix@ + name, Seq::empty(), fields);
    }
}

/// A field carries metadata that is no text.
pub open spec fn is_bad_metadata(field: Field, prefix: Seq<char>) -> bool {
    &&& field.0.len() >= prefix.len()
    &&& field.0.take(prefix.len() as int) == prefix
    &&& text_of(field.1) is None
}

/// Metadata is at fault exactly if a field whose name starts with the prefix is no text, and the
/// first such field is reported, by its whole name.
pub proof fn law_metadata_faults(fields: Seq<Field>, prefix: Seq<char>, i: int)
    ensures
        metadata_fault(fields, prefix) is None <==> forall|j: int|
            0 <= j < fields.len() ==> !is_bad_metadata(#[trigger] fields[j], prefix),
        0 <= i < fields.len() && is_bad_metadata(fields[i], prefix) && (forall|j: int|
            0 <= j < i ==> !is_bad_metadata(#[trigger] fields[j], prefix)) ==> metadata_fault(
            fields,
            prefix,
        ) == Some(GetResultErrorView::InvalidMetadata { key: fields[i].0 }),
    decreases fields.len(),
{
    if fields.len() > 0 {
        let init = fields.drop_last();
        law_metadata_faults(init, prefix, i);
        let last = fields[fields.len() - 1];
        assert(prefix.is_prefix_of(last.0) <==> last.0.len() >= prefix.len() && last.0.take(
            prefix.len() as int,
        ) == prefix);
        assert forall|j: int| 0 <= j < init.len() implies init[j] == #[trigger] fields[j] by {}
        if metadata_fault(fields, prefix) is None {
            assert forall|j: int| 0 <= j < fields.len() implies !is_bad_metadata(
                #[trigger] fields[j],
                prefix,
            ) by {
                if j < init.len() {
                    assert(init[j] == fields[j]);
                }
            }
        }
        if forall|j: int| 0 <= j < fields.len() ==> !is_bad_metadata(#[trigger] fields[j], prefix) {
            assert forall|j: int| 0 <= j < init.len() implies !is_bad_metadata(
                #[trigger] init[j],
                prefix,
            ) by {
                assert(init[j] == fields[j]);
            }
            assert(!is_bad_metadata(last, prefix));
        }
        if 0 <= i < fields.len() && is_bad_metadata(fields[i], prefix) && (forall|j: int|
            0 <= j < i ==> !is_bad_metadata(#[trigger] fields[j], prefix)) {
            assert forall|j: int| 0 <= j < i implies !is_bad_metadata(#[trigger] init[j], prefix) by {
                assert(init[j] == fields[j]);
            }
        }
    }
}

/// Content headers are at fault exactly if one of them is no text. The first of them is reported, in
/// the order of cache control, disposition, encoding, language and type.
pub proof fn law_content_faults(fields: Seq<Field>)
    ensures
        ({
            let control = field_text(fields, "cache-control"@) is NotText;
            let disposition = field_text(fields, "content-disposition"@) is NotText;
            let encoding = field_text(fields, "content-encoding"@) is NotText;
            let language = field_text(fields, "content-language"@) is NotText;
            let kind = field_text(fields, "content-type"@) is NotText;
            let fault = content_fault(fields);
            &&& fault is None <==> !control && !disposition && !encoding && !language && !kind
            &&& fault == Some(GetResultErrorView::InvalidCacheControl) <==> control
            &&& fault == Some(GetResultErrorView::InvalidContentDisposition) <==> disposition
                && !control
            &&& fault == Some(GetResultErrorView::InvalidContentEncoding) <==> encoding && !control
                && !disposition
            &&& fault == Some(GetResultErrorView::InvalidContentLanguage) <==> language && !control
                && !disposition && !encoding
            &&& fault == Some(GetResultErrorView::InvalidContentType) <==> kind && !control
                && !disposition && !encoding && !language
        }),
{
}

/// The attributes are at fault exactly if a content header is, or the metadata behind the prefix of
/// the store. A content header is reported before any metadata.
pub proof fn law_attribute_faults(fields: Seq<Field>, cfg: HeaderConfig)
    ensures
        content_fault(fields) is Some ==> attributes_fault(fields, cfg) == content_fault(fields),
        content_fault(fields) is None ==> match cfg.user_defined_metadata_prefix {
            Some(prefix) => attributes_fault(fields, cfg) == metadata_fault(fields, prefix@),
            None => attributes_fault(fields, cfg) is None,
        },
{
}

/// The value of an attribute is found exactly if the object has the attribute, and is then the value
/// that it has.
pub proof fn law_attributes_are_found(attributes: Attributes, key: Attribute, found: Option<&String>)
    requires
        call_ensures(Attributes::get, (&attributes, &key), found),
    ensures
        found is Some <==> attributes@.dom().contains(key@),
        found matches Some(value) ==> value@ == attributes@[key@],
{
}

/// Attributes are told apart by what they are about, and metadata by its whole name.
pub proof fn law_attributes_are_told_apart(a: Attribute, b: Attribute)
    ensures
        a@ == b@ <==> match (a, b) {
            (Attribute::Metadata(x), Attribute::Metadata(y)) => x@ == y@,
            (Attribute::ContentDisposition, Attribute::ContentDisposition) => true,
            (Attribute::ContentEncoding, Attribute::ContentEncoding) => true,
            (Attribute::ContentLanguage, Attribute::ContentLanguage) => true,
            (Attribute::ContentType, Attribute::ContentType) => true,
            (Attribute::CacheControl, Attribute::CacheControl) => true,
            _ => false,
        },
        a matches Attribute::Metadata(x) ==> a@ == AttributeView::Metadata(x@),
        a is ContentDisposition <==> a@ is ContentDisposition,
        a is ContentEncoding <==> a@ is ContentEncoding,
        a is ContentLanguage <==> a@ is ContentLanguage,
        a is ContentType <==> a@ is ContentType,
        a is CacheControl <==> a@ is CacheControl,
{
}

} // verus!
