//! What holds of the plain text operations, told character by character.

use crate::text::{after_prefix, ascii_lower, ascii_lowered, halves, white_space};
use vstd::prelude::*;

verus! {

/// White space is what Unicode lists as such: the controls from tab to carriage return, next line,
/// and the spaces and separators with these numbers.
pub proof fn law_white_space(c: char)
    ensures
        white_space(c) <==> {
            let n = c as u32;
            ||| n == 9 || n == 10 || n == 11 || n == 12 || n == 13
            ||| n == 32 || n == 133 || n == 160 || n == 5760
            ||| 8192 <= n < 8203
            ||| n == 8232 || n == 8233 || n == 8239 || n == 8287 || n == 12288
        },
{
}

/// What follows a prefix is what was put behind it, and nothing follows a prefix that the string
/// does not start with.
pub proof fn law_prefix(s: Seq<char>, prefix: Seq<char>, rest: Seq<char>)
    ensures
        after_prefix(prefix + rest, prefix) == Some(rest),
        after_prefix(s, prefix) matches Some(found) ==> s == prefix + found,
{
    assert((prefix + rest).take(prefix.len() as int) =~= prefix);
    assert((prefix + rest).skip(prefix.len() as int) =~= rest);
    if after_prefix(s, prefix) is Some {
        assert(s =~= s.take(prefix.len() as int) + s.skip(prefix.len() as int));
    }
}

/// A string is parted at its first separator: what is put around a separator comes back, if the part
/// before it holds none, and a string without a separator is not parted.
pub proof fn law_halves(s: Seq<char>, sep: char, left: Seq<char>, right: Seq<char>)
    ensures
        !left.contains(sep) ==> halves(left + seq![sep] + right, sep) == Some((left, right)),
        halves(s, sep) matches Some((l, r)) ==> s == l + seq![sep] + r && !l.contains(sep),
        halves(s, sep) is None <==> forall|i: int| 0 <= i < s.len() ==> s[i] != sep,
{
    if !left.contains(sep) {
        let joined = left + seq![sep] + right;
        let at = left.len() as int;
        assert(joined[at] == sep);
        joined.index_of_first_ensures(sep);
        let found = joined.index_of_first(sep)->0;
        if found < at {
            assert(left[found] == joined[found]);
        }
        assert(joined.take(at) =~= left);
        assert(joined.skip(at + 1) =~= right);
    }
    if halves(s, sep) is Some {
        s.index_of_first_ensures(sep);
        let at = s.index_of_first(sep)->0;
        assert(s =~= s.take(at) + seq![sep] + s.skip(at + 1));
        assert(s[at] == sep);
        if s.take(at).contains(sep) {
            let i = choose|i: int| 0 <= i < at && s.take(at)[i] == sep;
            assert(s[i] == sep);
        }
    }
}

/// The 26 capital letters of ASCII become small letters, and no other character changes.
pub proof fn law_ascii_lower(c: char)
    ensures
        65 <= c as u32 <= 90 ==> ascii_lower(c) as u32 == c as u32 + 32,
        !(65 <= c as u32 <= 90) ==> ascii_lower(c) == c,
{
}

/// Two strings agree in lower case exactly if they are equally long and agree at every place, but
/// for a letter of ASCII that is capital in one and small in the other.
pub proof fn law_ascii_lowered(a: Seq<char>, b: Seq<char>)
    ensures
        ascii_lowered(a).len() == a.len(),
        ascii_lowered(a) == ascii_lowered(b) <==> a.len() == b.len() && forall|i: int|
            0 <= i < a.len() ==> #[trigger] same_but_for_case(a[i], b[i]),
{
    if a.len() == b.len() && forall|i: int|
        0 <= i < a.len() ==> #[trigger] same_but_for_case(a[i], b[i]) {
        assert forall|i: int| 0 <= i < a.len() implies ascii_lowered(a)[i] == ascii_lowered(b)[i] by {
            assert(same_but_for_case(a[i], b[i]));
        }
        assert(ascii_lowered(a) =~= ascii_lowered(b));
    }
    if ascii_lowered(a) == ascii_lowered(b) {
        assert(ascii_lowered(a).len() == ascii_lowered(b).len());
        assert forall|i: int| 0 <= i < a.len() implies #[trigger] same_but_for_case(a[i], b[i]) by {
            assert(ascii_lowered(a)[i] == ascii_lower(a[i]));
            assert(ascii_lowered(b)[i] == ascii_lower(b[i]));
        }
    }
}

/// Two characters are equal, or are the same letter of ASCII, one of them capital.
pub open spec fn same_but_for_case(a: char, b: char) -> bool {
    ||| a == b
    ||| 65 <= a as u32 <= 90 && b as u32 == a as u32 + 32
    ||| 65 <= b as u32 <= 90 && a as u32 == b as u32 + 32
}

} // verus!
