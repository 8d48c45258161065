//! The header fields of a response.
//!
//! They are held in a [`http::HeaderMap`]; what is believed of that type and of its values is
//! stated here and nowhere else.

use crate::text::{ascii_lower, ascii_lowered};
use http::header::ToStrError;
use http::{HeaderMap, HeaderValue};
use vstd::prelude::*;
use vstd::utf8::{encode_utf8, is_ascii_chars, is_ascii_chars_encode_utf8};

verus! {

#[verifier::external_type_specification]
#[verifier::external_body]
#[verifier::reject_recursive_types(T)]
pub struct ExHeaderMap<T>(HeaderMap<T>);

#[verifier::external_type_specification]
#[verifier::external_body]
pub struct ExHeaderValue(HeaderValue);

#[verifier::external_type_specification]
#[verifier::external_body]
pub struct ExToStrError(ToStrError);

/// A header field: its name, as it is held, and the bytes of its value.
pub type Field = (Seq<char>, Seq<u8>);

/// The bytes that a [`HeaderValue`] holds.
pub uninterp spec fn value_bytes(value: HeaderValue) -> Seq<u8>;

/// The fields that a [`HeaderMap`] holds, in the order in which its iterator visits them.
pub uninterp spec fn header_fields(headers: HeaderMap) -> Seq<Field>;

/// The bytes that may stand in a value that is read as text: visible ASCII, space and tab.
pub open spec fn is_text_byte(b: u8) -> bool {
    32 <= b < 127 || b == 9
}

/// The text of a field value, if it consists of text bytes only.
pub open spec fn text_of(value: Seq<u8>) -> Option<Seq<char>> {
    if forall|i: int| 0 <= i < value.len() ==> is_text_byte(#[trigger] value[i]) {
        Some(value.map_values(|b: u8| b as char))
    } else {
        None
    }
}

/// The value of the first of `fields` that is called `name`.
pub open spec fn first_value(fields: Seq<Field>, name: Seq<char>) -> Option<Seq<u8>>
    decreases fields.len(),
{
    if fields.len() == 0 {
        None
    } else if fields[0].0 == name {
        Some(fields[0].1)
    } else {
        first_value(fields.skip(1), name)
    }
}

/// The value of the last of `fields` that is called `name`.
pub open spec fn last_value(fields: Seq<Field>, name: Seq<char>) -> Option<Seq<u8>>
    decreases fields.len(),
{
    if fields.len() == 0 {
        None
    } else if fields.last().0 == name {
        Some(fields.last().1)
    } else {
        last_value(fields.drop_last(), name)
    }
}

/// The characters that field names are made of: ASCII letters, digits and these marks.
pub open spec fn is_name_char(c: char) -> bool {
    ||| 'a' <= c <= 'z'
    ||| 'A' <= c <= 'Z'
    ||| '0' <= c <= '9'
    ||| c == '!' || c == '#' || c == '$' || c == '%' || c == '&' || c == '\''
    ||| c == '*' || c == '+' || c == '-' || c == '.'
    ||| c == '^' || c == '_' || c == '`' || c == '|' || c == '~'
}

/// What a byte of a key is compared as: the byte of a field-name character as that character, in
/// lower case, and any other byte as NUL.
pub open spec fn name_char(b: u8) -> char {
    if is_name_char(b as char) {
        ascii_lower(b as char)
    } else {
        '\0'
    }
}

/// What `name` is compared as when it is looked up, or nothing if it is refused. A name is refused
/// if it is empty or longer than 65535 bytes, or if it has at most 64 bytes and one of them is not
/// that of a field-name character. A longer name is looked up with such bytes as NUL.
pub open spec fn lookup_key(name: Seq<char>) -> Option<Seq<char>> {
    let bytes = encode_utf8(name);
    let key = bytes.map_values(|b: u8| name_char(b));
    if 0 < bytes.len() <= 65535 && (bytes.len() > 64 || !key.contains('\0')) {
        Some(key)
    } else {
        None
    }
}

/// The value found under `name`: that of the first field called what the name is compared as.
pub open spec fn field_value(fields: Seq<Field>, name: Seq<char>) -> Option<Seq<u8>> {
    match lookup_key(name) {
        None => None,
        Some(key) => first_value(fields, key),
    }
}

/// A name that is made of field-name characters, and is not too long, finds the first field called
/// so, whatever the case of its letters.
pub proof fn law_field_is_found_by_name(fields: Seq<Field>, name: Seq<char>)
    requires
        0 < name.len() <= 65535,
        forall|i: int| 0 <= i < name.len() ==> is_name_char(#[trigger] name[i]),
    ensures
        lookup_key(name) == Some(ascii_lowered(name)),
        field_value(fields, name) == first_value(fields, ascii_lowered(name)),
{
    let bytes = encode_utf8(name);
    let key = bytes.map_values(|b: u8| name_char(b));
    assert(is_ascii_chars(name)) by {
        assert forall|i: int| 0 <= i < name.len() implies '\0' <= #[trigger] name[i] <= '\u{7f}' by {
            assert(is_name_char(name[i]));
        }
    }
    is_ascii_chars_encode_utf8(name);
    assert forall|i: int| 0 <= i < name.len() implies #[trigger] key[i] == ascii_lower(name[i])
        && key[i] != '\0' by {
        assert(is_name_char(name[i]));
        assert(name[i] as u8 == bytes[i]);
        assert(bytes[i] as char == name[i]);
    }
    assert(key =~= ascii_lowered(name));
    assert(!key.contains('\0'));
}

/// [`HeaderMap::get`] with a string as the key: the first value of the field of that name.
///
/// The bytes of the key are compared with those of the names held: a byte of a field-name character
/// as that character in lower case, and any other byte as NUL. A key of no or of more than 65535
/// bytes finds nothing, nor does one of at most 64 bytes that holds such another byte. A longer one
/// finds a name that holds NUL in its place, as a name that was put in from such a string does.
#[verifier::external_body]
pub(crate) fn get_field<'a>(headers: &'a HeaderMap, name: &str) -> (value: Option<&'a HeaderValue>)
    ensures
        match value {
            Some(v) => field_value(header_fields(*headers), name@) == Some(value_bytes(*v)),
            None => field_value(header_fields(*headers), name@) is None,
        },
{
    headers.get(name)
}

/// [`HeaderMap::iter`]: every field held, a field with several values once for each of them. A
/// name is given as a string and a value by reference.
#[verifier::external_body]
pub(crate) fn all_fields<'a>(headers: &'a HeaderMap) -> (fields: Vec<(&'a str, &'a HeaderValue)>)
    ensures
        fields@.len() == header_fields(*headers).len(),
        forall|i: int|
            0 <= i < fields@.len() ==> {
                &&& (#[trigger] fields@[i]).0@ == header_fields(*headers)[i].0
                &&& value_bytes(*fields@[i].1) == header_fields(*headers)[i].1
            },
{
    headers.iter().map(|(name, value)| (name.as_str(), value)).collect()
}

/// [`HeaderValue::to_str`]: the value as text, if it consists of visible ASCII characters, spaces
/// and tabs.
pub assume_specification[ HeaderValue::to_str ](value: &HeaderValue) -> (text: Result<
    &str,
    ToStrError,
>)
    ensures
        match text {
            Ok(t) => text_of(value_bytes(*value)) == Some(t@),
            Err(_) => text_of(value_bytes(*value)) is None,
        },
;

/// What is read when a field is looked up and its value taken as text.
pub enum FieldText {
    /// There is no such field.
    Absent,
    /// The value holds bytes that are no text.
    NotText,
    /// The value is this text.
    Text(Seq<char>),
}

/// The text of the field called `name`.
pub open spec fn field_text(fields: Seq<Field>, name: Seq<char>) -> FieldText {
    match field_value(fields, name) {
        None => FieldText::Absent,
        Some(value) => match text_of(value) {
            None => FieldText::NotText,
            Some(text) => FieldText::Text(text),
        },
    }
}

/// Looks a field up and takes its value as text.
pub fn get_text<'a>(headers: &'a HeaderMap, name: &str) -> (r: Option<Result<&'a str, ToStrError>>)
    ensures
        match r {
            None => field_text(header_fields(*headers), name@) is Absent,
            Some(Err(_)) => field_text(header_fields(*headers), name@) is NotText,
            Some(Ok(text)) => field_text(header_fields(*headers), name@) == FieldText::Text(text@),
        },
{
    match get_field(headers, name) {
        Some(value) => Some(value.to_str()),
        None => None,
    }
}

} // verus!
