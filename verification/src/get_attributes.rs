//! The attributes of an object, from the header fields of a response.

use crate::attributes::{Attribute, AttributeView, Attributes};
use crate::fields::{
    all_fields, field_text, get_text, header_fields, last_value, text_of, value_bytes, Field,
    FieldText,
};
use crate::get_error::{GetResultError, GetResultErrorView};
use crate::header::HeaderConfig;
use crate::text::{after_prefix, strip_prefix};
use http::header::ToStrError;
use http::HeaderMap;
use vstd::prelude::*;

verus! {

/// The text of a field, if there is such a field and it is text.
pub open spec fn optional_field(fields: Seq<Field>, name: Seq<char>) -> Option<Seq<char>> {
    match field_text(fields, name) {
        FieldText::Text(text) => Some(text),
        _ => None,
    }
}

/// The value of an attribute: that of the content header that it stands for, or, of user-defined
/// metadata, the last value in `metadata` of the field called by the prefix and the name.
pub open spec fn attribute_value(
    fields: Seq<Field>,
    metadata: Seq<Field>,
    cfg: HeaderConfig,
    key: AttributeView,
) -> Option<Seq<char>> {
    match key {
        AttributeView::CacheControl => optional_field(fields, "cache-control"@),
        AttributeView::ContentDisposition => optional_field(fields, "content-disposition"@),
        AttributeView::ContentEncoding => optional_field(fields, "content-encoding"@),
        AttributeView::ContentLanguage => optional_field(fields, "content-language"@),
        AttributeView::ContentType => optional_field(fields, "content-type"@),
        AttributeView::Metadata(name) => match cfg.user_defined_metadata_prefix {
            Some(prefix) => match last_value(metadata, prefix@ + name) {
                Some(value) => text_of(value),
                None => None,
            },
            None => None,
        },
    }
}

/// The attributes that header fields give, with the user-defined ones from `metadata`.
pub open spec fn attributes_with(
    fields: Seq<Field>,
    metadata: Seq<Field>,
    cfg: HeaderConfig,
) -> Map<AttributeView, Seq<char>> {
    Map::new(
        |key: AttributeView| attribute_value(fields, metadata, cfg, key) is Some,
        |key: AttributeView| attribute_value(fields, metadata, cfg, key)->0,
    )
}

/// The attributes that header fields give.
pub open spec fn attributes_of(fields: Seq<Field>, cfg: HeaderConfig) -> Map<
    AttributeView,
    Seq<char>,
> {
    attributes_with(fields, fields, cfg)
}

/// The first of `fields` that carries user-defined metadata that is no text.
pub open spec fn metadata_fault(fields: Seq<Field>, prefix: Seq<char>) -> Option<GetResultErrorView>
    decreases fields.len(),
{
    if fields.len() == 0 {
        None
    } else {
        match metadata_fault(fields.drop_last(), prefix) {
            Some(fault) => Some(fault),
            None => if prefix.is_prefix_of(fields.last().0) && text_of(fields.last().1) is None {
                Some(GetResultErrorView::InvalidMetadata { key: fields.last().0 })
            } else {
                None
            },
        }
    }
}

/// The first content header, in this order, that is no text.
pub open spec fn content_fault(fields: Seq<Field>) -> Option<GetResultErrorView> {
    if field_text(fields, "cache-control"@) is NotText {
        Some(GetResultErrorView::InvalidCacheControl)
    } else if field_text(fields, "content-disposition"@) is NotText {
        Some(GetResultErrorView::InvalidContentDisposition)
    } else if field_text(fields, "content-encoding"@) is NotText {
        Some(GetResultErrorView::InvalidContentEncoding)
    } else if field_text(fields, "content-language"@) is NotText {
        Some(GetResultErrorView::InvalidContentLanguage)
    } else if field_text(fields, "content-type"@) is NotText {
        Some(GetResultErrorView::InvalidContentType)
    } else {
        None
    }
}

/// The first attribute that is no text: a content header, or else user-defined metadata.
pub open spec fn attributes_fault(fields: Seq<Field>, cfg: HeaderConfig) -> Option<
    GetResultErrorView,
> {
    match (content_fault(fields), cfg.user_defined_metadata_prefix) {
        (Some(fault), _) => Some(fault),
        (None, Some(prefix)) => metadata_fault(fields, prefix@),
        (None, None) => None,
    }
}

/// Gives an attribute the text of a field, if there is such a field.
fn read_attribute(
    attributes: &mut Attributes,
    headers: &HeaderMap,
    name: &str,
    key: Attribute,
) -> (r: Result<(), ToStrError>)
    ensures
        match field_text(header_fields(*headers), name@) {
            FieldText::Absent => r is Ok && final(attributes)@ == old(attributes)@,
            FieldText::NotText => r is Err && final(attributes)@ == old(attributes)@,
            FieldText::Text(text) => r is Ok && final(attributes)@ == old(attributes)@.insert(
                key@,
                text,
            ),
        },
{
    match get_text(headers, name) {
        None => Ok(()),
        Some(Err(source)) => Err(source),
        Some(Ok(text)) => {
            attributes.insert(key, text.to_owned());
            Ok(())
        },
    }
}

/// The content headers as attributes.
fn get_content_attributes(headers: &HeaderMap) -> (r: Result<Attributes, GetResultError>)
    ensures
        match r {
            Ok(attributes) => {
                &&& content_fault(header_fields(*headers)) is None
                &&& forall|cfg: HeaderConfig|
                    attributes@ == #[trigger] attributes_with(
                        header_fields(*headers),
                        Seq::<Field>::empty(),
                        cfg,
                    )
            },
            Err(e) => content_fault(header_fields(*headers)) == Some(e@),
        },
{
    let mut attributes = Attributes::new();
    match read_attribute(&mut attributes, headers, "cache-control", Attribute::CacheControl) {
        Ok(()) => {},
        Err(source) => return Err(GetResultError::InvalidCacheControl { source }),
    }
    match read_attribute(
        &mut attributes,
        headers,
        "content-disposition",
        Attribute::ContentDisposition,
    ) {
        Ok(()) => {},
        Err(source) => return Err(GetResultError::InvalidContentDisposition { source }),
    }
    match read_attribute(&mut attributes, headers, "content-encoding", Attribute::ContentEncoding) {
        Ok(()) => {},
        Err(source) => return Err(GetResultError::InvalidContentEncoding { source }),
    }
    match read_attribute(&mut attributes, headers, "content-language", Attribute::ContentLanguage) {
        Ok(()) => {},
        Err(source) => return Err(GetResultError::InvalidContentLanguage { source }),
    }
    match read_attribute(&mut attributes, headers, "content-type", Attribute::ContentType) {
        Ok(()) => {},
        Err(source) => return Err(GetResultError::InvalidContentType { source }),
    }
    proof {
        let fields = header_fields(*headers);
        assert forall|cfg: HeaderConfig|
            attributes@ == #[trigger] attributes_with(fields, Seq::<Field>::empty(), cfg) by {
            assert(attributes@ =~= attributes_with(fields, Seq::<Field>::empty(), cfg));
        }
    }
    Ok(attributes)
}

/// Extracts [`Attributes`] from the response headers
pub fn get_attributes(cfg: HeaderConfig, headers: &HeaderMap) -> (r: Result<
    Attributes,
    GetResultError,
>)
    ensures
        match attributes_fault(header_fields(*headers), cfg) {
            None => r matches Ok(attributes) && attributes@ == attributes_of(
                header_fields(*headers),
                cfg,
            ),
            Some(fault) => r matches Err(e) && e@ == fault,
        },
{
    let ghost fields = header_fields(*headers);
    let mut attributes = match get_content_attributes(headers) {
        Ok(attributes) => attributes,
        Err(e) => return Err(e),
    };

    // Add attributes that match the user-defined metadata prefix (e.g. x-amz-meta-)
    if let Some(prefix) = cfg.user_defined_metadata_prefix {
        let entries = all_fields(headers);
        let mut i: usize = 0;
        assert(fields.take(0) =~= Seq::<Field>::empty());
        while i < entries.len()
            invariant
                cfg.user_defined_metadata_prefix == Some(prefix),
                fields == header_fields(*headers),
                entries@.len() == fields.len(),
                forall|j: int|
                    0 <= j < entries@.len() ==> {
                        &&& (#[trigger] entries@[j]).0@ == fields[j].0
                        &&& value_bytes(*entries@[j].1) == fields[j].1
                    },
                i <= entries.len(),
                attributes_fault(fields, cfg) == metadata_fault(fields, prefix@),
                metadata_fault(fields.take(i as int), prefix@) is None,
                attributes@ == attributes_with(fields, fields.take(i as int), cfg),
            decreases entries.len() - i,
        {
            let (name, value) = entries[i];
            let ghost known = fields.take(i as int);
            let ghost next = fields.take(i + 1);
            proof {
                assert(next.drop_last() =~= known);
                assert(next.last() == fields[i as int]);
            }
            match strip_prefix(name, prefix) {
                Some(suffix) => match value.to_str() {
                    Ok(text) => {
                        proof {
                            lemma_metadata_found(fields, known, fields[i as int], cfg, suffix@);
                            assert(next =~= known.push(fields[i as int]));
                        }
                        attributes.insert(Attribute::Metadata(suffix.to_owned()), text.to_owned());
                    },
                    Err(_) => {
                        proof {
                            lemma_metadata_fault_stops(fields, prefix@, i + 1);
                        }
                        return Err(GetResultError::InvalidMetadata { key: name.to_owned() });
                    },
                },
                None => {
                    proof {
                        lemma_metadata_passed(fields, known, fields[i as int], cfg);
                        assert(next =~= known.push(fields[i as int]));
                    }
                },
            }
            i = i + 1;
        }
        assert(fields.take(i as int) =~= fields);
    } else {
        assert(attributes@ == attributes_with(fields, Seq::<Field>::empty(), cfg));
        assert(attributes@ =~= attributes_of(fields, cfg));
    }
    Ok(attributes)
}

/// A field with metadata that is text gives the metadata of its name that text.
proof fn lemma_metadata_found(
    fields: Seq<Field>,
    known: Seq<Field>,
    field: Field,
    cfg: HeaderConfig,
    name: Seq<char>,
)
    requires
        cfg.user_defined_metadata_prefix matches Some(prefix) && after_prefix(field.0, prefix@)
            == Some(name),
        text_of(field.1) is Some,
    ensures
        attributes_with(fields, known.push(field), cfg) == attributes_with(
            fields,
            known,
            cfg,
        ).insert(AttributeView::Metadata(name), text_of(field.1)->0),
{
    let prefix = cfg.user_defined_metadata_prefix->0@;
    assert(prefix + name =~= field.0);
    assert(known.push(field).drop_last() =~= known);
    assert forall|key: AttributeView| key != AttributeView::Metadata(name) implies attribute_value(
        fields,
        known.push(field),
        cfg,
        key,
    ) == attribute_value(fields, known, cfg, key) by {
        if let AttributeView::Metadata(other) = key {
            if prefix + other == field.0 {
                assert(other =~= (prefix + other).skip(prefix.len() as int));
                assert(name =~= (prefix + name).skip(prefix.len() as int));
            }
        }
    }
    assert(attributes_with(fields, known.push(field), cfg) =~= attributes_with(
        fields,
        known,
        cfg,
    ).insert(AttributeView::Metadata(name), text_of(field.1)->0));
}

/// A field without the prefix gives no attribute a value.
proof fn lemma_metadata_passed(
    fields: Seq<Field>,
    known: Seq<Field>,
    field: Field,
    cfg: HeaderConfig,
)
    requires
        cfg.user_defined_metadata_prefix matches Some(prefix) && after_prefix(
            field.0,
            prefix@,
        ) is None,
    ensures
        attributes_with(fields, known.push(field), cfg) == attributes_with(fields, known, cfg),
{
    let prefix = cfg.user_defined_metadata_prefix->0@;
    assert(known.push(field).drop_last() =~= known);
    assert forall|key: AttributeView|
        attribute_value(fields, known.push(field), cfg, key) == attribute_value(
            fields,
            known,
            cfg,
            key,
        ) by {
        if let AttributeView::Metadata(other) = key {
            if prefix + other == field.0 {
                assert(prefix =~= (prefix + other).take(prefix.len() as int));
                assert(prefix.is_prefix_of(field.0));
            }
        }
    }
    assert(attributes_with(fields, known.push(field), cfg) =~= attributes_with(fields, known, cfg));
}

/// The first fault among the first `k` fields is the first fault of all.
proof fn lemma_metadata_fault_stops(fields: Seq<Field>, prefix: Seq<char>, k: int)
    requires
        0 <= k <= fields.len(),
        metadata_fault(fields.take(k), prefix) is Some,
    ensures
        metadata_fault(fields, prefix) == metadata_fault(fields.take(k), prefix),
    decreases fields.len() - k,
{
    if k < fields.len() {
        assert(fields.take(k + 1).drop_last() =~= fields.take(k));
        lemma_metadata_fault_stops(fields, prefix, k + 1);
    } else {
        assert(fields.take(k) =~= fields);
    }
}

} // verus!
