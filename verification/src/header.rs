//! What the header fields of a response say of the object.

use crate::decimal::{parse_u64, read_number, ParseNumberError};
use crate::fields::{field_text, get_text, header_fields, Field, FieldText};
use crate::views::{option_view, result_view};
use http::header::ToStrError;
use http::HeaderMap;
use vstd::prelude::*;
use vstd::string::StringExecFns;

verus! {

/// How a store uses header fields.
#[derive(Debug, Clone, Copy)]
pub struct HeaderConfig {
    /// Whether a response has to carry an entity tag.
    pub etag_required: bool,
    /// Whether a response has to carry the time of the last modification.
    pub last_modified_required: bool,
    /// The field that carries the version of the object, if the store has one.
    pub version_header: Option<&'static str>,
    /// The prefix of the fields that carry user-defined metadata, if the store has any.
    pub user_defined_metadata_prefix: Option<&'static str>,
}

/// What is known of an object.
#[derive(Debug)]
pub struct ObjectMeta {
    /// Where the object is.
    pub location: String,
    /// The time of the last modification, as the response gives it.
    pub last_modified: Option<String>,
    /// The size of the object in bytes.
    pub size: u64,
    /// The entity tag of the object.
    pub e_tag: Option<String>,
    /// The version of the object.
    pub version: Option<String>,
}

/// What is known of an object, with strings as sequences of characters.
pub struct ObjectMetaView {
    pub location: Seq<char>,
    pub last_modified: Option<Seq<char>>,
    pub size: u64,
    pub e_tag: Option<Seq<char>>,
    pub version: Option<Seq<char>>,
}

impl View for ObjectMeta {
    type V = ObjectMetaView;

    open spec fn view(&self) -> ObjectMetaView {
        ObjectMetaView {
            location: self.location@,
            last_modified: option_view(self.last_modified),
            size: self.size,
            e_tag: option_view(self.e_tag),
            version: option_view(self.version),
        }
    }
}

/// What can be wrong with the header fields of a response.
#[allow(inconsistent_fields)]
#[derive(Debug)]
pub enum Error {
    /// There is no entity tag.
    MissingEtag,
    /// A value is no text.
    BadHeader {
        /// What reading the value as text gave.
        source: ToStrError,
    },
    /// There is no time of the last modification.
    MissingLastModified,
    /// There is no content length.
    MissingContentLength,
    /// The content length is no number.
    InvalidContentLength {
        /// The value of the field.
        content_length: String,
        /// What reading the value as a number gave.
        source: ParseNumberError,
    },
}

/// What can be wrong with the header fields of a response, without the error of the text reader.
pub enum ErrorView {
    MissingEtag,
    BadHeader,
    MissingLastModified,
    MissingContentLength,
    InvalidContentLength { content_length: Seq<char>, source: ParseNumberError },
}

impl View for Error {
    type V = ErrorView;

    open spec fn view(&self) -> ErrorView {
        match self {
            Error::MissingEtag => ErrorView::MissingEtag,
            Error::BadHeader { .. } => ErrorView::BadHeader,
            Error::MissingLastModified => ErrorView::MissingLastModified,
            Error::MissingContentLength => ErrorView::MissingContentLength,
            Error::InvalidContentLength { content_length, source } => {
                ErrorView::InvalidContentLength { content_length: content_length@, source: *source }
            },
        }
    }
}

impl ErrorView {
    /// What the error says.
    pub open spec fn message(self) -> Seq<char> {
        match self {
            ErrorView::MissingEtag => "ETag Header missing from response"@,
            ErrorView::BadHeader => "Received header containing non-ASCII data"@,
            ErrorView::MissingLastModified => "Last-Modified Header missing from response"@,
            ErrorView::MissingContentLength => "Content-Length Header missing from response"@,
            ErrorView::InvalidContentLength { content_length, source } => {
                "Invalid content length '"@ + content_length + "': "@ + source.message()
            },
        }
    }
}

impl Error {
    /// The error as text.
    pub fn to_string(&self) -> (r: String)
        ensures
            r@ == self@.message(),
    {
        match self {
            Error::MissingEtag => "ETag Header missing from response".to_owned(),
            Error::BadHeader { .. } => "Received header containing non-ASCII data".to_owned(),
            Error::MissingLastModified => "Last-Modified Header missing from response".to_owned(),
            Error::MissingContentLength => {
                "Content-Length Header missing from response".to_owned()
            },
            Error::InvalidContentLength { content_length, source } => {
                "Invalid content length '".to_owned().concat(content_length.as_str()).concat(
                    "': ",
                ).concat(source.to_string().as_str())
            },
        }
    }
}

/// The entity tag that header fields give.
pub open spec fn etag_of(fields: Seq<Field>) -> Result<Seq<char>, ErrorView> {
    match field_text(fields, "etag"@) {
        FieldText::Absent => Err(ErrorView::MissingEtag),
        FieldText::NotText => Err(ErrorView::BadHeader),
        FieldText::Text(text) => Ok(text),
    }
}

/// The content length that header fields give.
pub open spec fn content_length_of(fields: Seq<Field>) -> Result<u64, ErrorView> {
    match field_text(fields, "content-length"@) {
        FieldText::Absent => Err(ErrorView::MissingContentLength),
        FieldText::NotText => Err(ErrorView::BadHeader),
        FieldText::Text(text) => match read_number(text) {
            Ok(n) => Ok(n),
            Err(source) => Err(ErrorView::InvalidContentLength { content_length: text, source }),
        },
    }
}

/// The text of a field that may be missing, unless it is required.
pub open spec fn optional_text(
    fields: Seq<Field>,
    name: Seq<char>,
    required: bool,
    missing: ErrorView,
) -> Result<Option<Seq<char>>, ErrorView> {
    match field_text(fields, name) {
        FieldText::Absent => if required {
            Err(missing)
        } else {
            Ok(None)
        },
        FieldText::NotText => Err(ErrorView::BadHeader),
        FieldText::Text(text) => Ok(Some(text)),
    }
}

/// The version of the object that header fields give, where the store has a field for it.
pub open spec fn version_of(fields: Seq<Field>, cfg: HeaderConfig) -> Result<
    Option<Seq<char>>,
    ErrorView,
> {
    match cfg.version_header {
        Some(name) => optional_text(fields, name@, false, ErrorView::BadHeader),
        None => Ok(None),
    }
}

/// What header fields say of the object at `location`. The first of these that is wrong is
/// reported: the time of the last modification, the entity tag, the content length, the version.
pub open spec fn meta_of(
    location: Seq<char>,
    fields: Seq<Field>,
    cfg: HeaderConfig,
) -> Result<ObjectMetaView, ErrorView> {
    let last_modified = optional_text(
        fields,
        "last-modified"@,
        cfg.last_modified_required,
        ErrorView::MissingLastModified,
    );
    let e_tag = optional_text(fields, "etag"@, cfg.etag_required, ErrorView::MissingEtag);
    match (last_modified, e_tag, content_length_of(fields), version_of(fields, cfg)) {
        (Err(e), _, _, _) => Err(e),
        (_, Err(e), _, _) => Err(e),
        (_, _, Err(e), _) => Err(e),
        (_, _, _, Err(e)) => Err(e),
        (Ok(last_modified), Ok(e_tag), Ok(size), Ok(version)) => Ok(
            ObjectMetaView { location, last_modified, size, e_tag, version },
        ),
    }
}

/// The entity tag of the response.
pub fn get_etag(headers: &HeaderMap) -> (r: Result<String, Error>)
    ensures
        result_view(r) == etag_of(header_fields(*headers)),
{
    match get_text(headers, "etag") {
        None => Err(Error::MissingEtag),
        Some(Err(source)) => Err(Error::BadHeader { source }),
        Some(Ok(text)) => Ok(text.to_owned()),
    }
}

/// The content length of the response.
pub fn get_content_length(headers: &HeaderMap) -> (r: Result<u64, Error>)
    ensures
        result_view(r) == content_length_of(header_fields(*headers)),
{
    match get_text(headers, "content-length") {
        None => Err(Error::MissingContentLength),
        Some(Err(source)) => Err(Error::BadHeader { source }),
        Some(Ok(text)) => match parse_u64(text) {
            Ok(n) => Ok(n),
            Err(source) => Err(
                Error::InvalidContentLength { content_length: text.to_owned(), source },
            ),
        },
    }
}

/// The version of the object, from the field of that name.
pub fn get_version(headers: &HeaderMap, version_header: &str) -> (r: Result<Option<String>, Error>)
    ensures
        match r {
            Ok(version) => optional_text(
                header_fields(*headers),
                version_header@,
                false,
                ErrorView::BadHeader,
            ) == Ok::<Option<Seq<char>>, ErrorView>(option_view(version)),
            Err(e) => optional_text(
                header_fields(*headers),
                version_header@,
                false,
                ErrorView::BadHeader,
            ) == Err::<Option<Seq<char>>, ErrorView>(e@),
        },
{
    match get_text(headers, version_header) {
        None => Ok(None),
        Some(Err(source)) => Err(Error::BadHeader { source }),
        Some(Ok(text)) => Ok(Some(text.to_owned())),
    }
}

/// What the response says of the object at `location`.
pub fn header_meta(location: &str, headers: &HeaderMap, cfg: HeaderConfig) -> (r: Result<
    ObjectMeta,
    Error,
>)
    ensures
        result_view(r) == meta_of(location@, header_fields(*headers), cfg),
{
    let last_modified: Option<String> = match get_text(headers, "last-modified") {
        Some(Ok(text)) => Some(text.to_owned()),
        Some(Err(source)) => return Err(Error::BadHeader { source }),
        None => {
            if cfg.last_modified_required {
                return Err(Error::MissingLastModified);
            }
            None
        },
    };
    let e_tag: Option<String> = match get_etag(headers) {
        Ok(e_tag) => Some(e_tag),
        Err(Error::MissingEtag) => {
            if cfg.etag_required {
                return Err(Error::MissingEtag);
            }
            None
        },
        Err(e) => return Err(e),
    };
    let size: u64 = match get_content_length(headers) {
        Ok(size) => size,
        Err(e) => return Err(e),
    };
    let version: Option<String> = match cfg.version_header {
        Some(name) => match get_version(headers, name) {
            Ok(version) => version,
            Err(e) => return Err(e),
        },
        None => None,
    };
    Ok(ObjectMeta { location: location.to_owned(), last_modified, size, e_tag, version })
}

} // verus!
