//! What holds of looking up header fields, told field by field and byte by byte.

use crate::fields::{
    field_text, field_value, first_value, is_name_char, last_value, law_field_is_found_by_name,
    lookup_key, name_char, text_of, Field, FieldText,
};
use crate::text::ascii_lowered;
use vstd::prelude::*;
use vstd::utf8::{encode_utf8, is_ascii_chars, is_ascii_chars_encode_utf8};

verus! {

/// A value reads as text exactly if each of its bytes is a tab or lies between space and tilde. The
/// text has then one character for each byte, with the number of the byte.
pub proof fn law_text(value: Seq<u8>)
    ensures
        text_of(value) is Some <==> forall|i: int|
            #![trigger value[i]]
            0 <= i < value.len() ==> value[i] == 9 || 0x20 <= value[i] <= 0x7e,
        text_of(value) matches Some(text) ==> {
            &&& text.len() == value.len()
            &&& forall|i: int|
                #![trigger text[i]]
                0 <= i < text.len() ==> text[i] as u32 == value[i] as u32
        },
{
}

/// Of several fields of a name, the first is found, and nothing is found of a name that no field has.
pub proof fn law_first_value(before: Seq<Field>, name: Seq<char>, value: Seq<u8>, after: Seq<Field>)
    requires
        forall|i: int| 0 <= i < before.len() ==> (#[trigger] before[i]).0 != name,
    ensures
        first_value(before, name) is None,
        first_value(before + seq![(name, value)] + after, name) == Some(value),
    decreases before.len(),
{
    let fields = before + seq![(name, value)] + after;
    if before.len() > 0 {
        let rest = before.skip(1);
        assert forall|i: int| 0 <= i < rest.len() implies (#[trigger] rest[i]).0 != name by {
            assert(rest[i] == before[i + 1]);
        }
        law_first_value(rest, name, value, after);
        assert(fields[0] == before[0]);
        assert(fields.skip(1) =~= rest + seq![(name, value)] + after);
    } else {
        assert(fields[0] == (name, value));
    }
}

/// Of several fields of a name, the last is taken, and nothing is taken of a name that no field has.
pub proof fn law_last_value(before: Seq<Field>, name: Seq<char>, value: Seq<u8>, after: Seq<Field>)
    requires
        forall|i: int| 0 <= i < after.len() ==> (#[trigger] after[i]).0 != name,
    ensures
        last_value(after, name) is None,
        last_value(before + seq![(name, value)] + after, name) == Some(value),
    decreases after.len(),
{
    let fields = before + seq![(name, value)] + after;
    if after.len() > 0 {
        let rest = after.drop_last();
        assert forall|i: int| 0 <= i < rest.len() implies (#[trigger] rest[i]).0 != name by {
            assert(rest[i] == after[i]);
        }
        law_last_value(before, name, value, rest);
        assert(fields.last() == after[after.len() - 1]);
        assert(fields.drop_last() =~= before + seq![(name, value)] + rest);
    } else {
        assert(fields.last() == (name, value));
    }
}

/// A name of at most 64 ASCII characters finds nothing if one of them is no field-name character,
/// nor does an empty name.
pub proof fn law_odd_name_finds_nothing(fields: Seq<Field>, name: Seq<char>, i: int)
    requires
        is_ascii_chars(name),
        name.len() <= 64,
        name.len() == 0 || (0 <= i < name.len() && !is_name_char(name[i])),
    ensures
        field_value(fields, name) is None,
{
    is_ascii_chars_encode_utf8(name);
    let bytes = encode_utf8(name);
    if name.len() > 0 {
        let key = bytes.map_values(|b: u8| name_char(b));
        assert(name[i] as u8 == bytes[i]);
        assert(bytes[i] as char == name[i]);
        assert(key[i] == '\0');
        assert(key.contains('\0'));
    }
}

/// The field-name characters are the letters and digits of ASCII and fifteen of its marks: all
/// visible ones but these seventeen delimiters.
pub proof fn law_name_chars(c: char)
    ensures
        is_name_char(c) <==> 0x21 <= c as u32 <= 0x7e && !(c == '"' || c == '(' || c == ')' || c == ','
            || c == '/' || c == ':' || c == ';' || c == '<' || c == '=' || c == '>' || c == '?' || c
            == '@' || c == '[' || c == '\\' || c == ']' || c == '{' || c == '}'),
{
}

/// What is read of a field: nothing if no field has the name in lower case, and else the value of
/// the first that has it, as text if each of its bytes is a tab or lies between space and tilde.
pub proof fn law_field_text(fields: Seq<Field>, name: Seq<char>, i: int)
    requires
        0 < name.len() <= 65535,
        forall|j: int| 0 <= j < name.len() ==> is_name_char(#[trigger] name[j]),
    ensures
        field_text(fields, name) is Absent <==> forall|j: int|
            0 <= j < fields.len() ==> (#[trigger] fields[j]).0 != ascii_lowered(name),
        is_first_called(fields, ascii_lowered(name), i) ==> {
            let value = fields[i].1;
            if forall|k: int|
                #![trigger value[k]]
                0 <= k < value.len() ==> value[k] == 9 || 0x20 <= value[k] <= 0x7e {
                field_text(fields, name) matches FieldText::Text(text) && {
                    &&& text.len() == value.len()
                    &&& forall|k: int|
                        #![trigger text[k]]
                        0 <= k < text.len() ==> text[k] as u32 == value[k] as u32
                }
            } else {
                field_text(fields, name) is NotText
            }
        },
{
    let key = ascii_lowered(name);
    law_field_is_found_by_name(fields, name);
    lemma_first_called(fields, key);
    if is_first_called(fields, key, i) {
        law_first_value(fields.take(i), key, fields[i].1, fields.skip(i + 1));
        assert(fields =~= fields.take(i) + seq![(key, fields[i].1)] + fields.skip(i + 1));
        law_text(fields[i].1);
    }
}

/// The field at `i` is the first that is called `name`.
pub open spec fn is_first_called(fields: Seq<Field>, name: Seq<char>, i: int) -> bool {
    &&& 0 <= i < fields.len()
    &&& fields[i].0 == name
    &&& forall|j: int| 0 <= j < i ==> (#[trigger] fields[j]).0 != name
}

/// Nothing is found exactly if no field has the name.
proof fn lemma_first_called(fields: Seq<Field>, name: Seq<char>)
    ensures
        first_value(fields, name) is None <==> forall|j: int|
            0 <= j < fields.len() ==> (#[trigger] fields[j]).0 != name,
    decreases fields.len(),
{
    if fields.len() > 0 {
        let rest = fields.skip(1);
        lemma_first_called(rest, name);
        if first_value(fields, name) is None {
            assert forall|j: int| 0 <= j < fields.len() implies (#[trigger] fields[j]).0 != name by {
                if j > 0 {
                    assert(rest[j - 1] == fields[j]);
                }
            }
        }
        if forall|j: int| 0 <= j < fields.len() ==> (#[trigger] fields[j]).0 != name {
            assert forall|j: int| 0 <= j < rest.len() implies (#[trigger] rest[j]).0 != name by {
                assert(rest[j] == fields[j + 1]);
            }
            assert(fields[0].0 != name);
        }
    }
}

} // verus!
