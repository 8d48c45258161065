//! Decimal numerals: reading and writing 64-bit unsigned integers.

use crate::text::chars_of;
use vstd::prelude::*;
use vstd::string::StringExecFns;

verus! {

/// Why a string is not the numeral of a 64-bit unsigned integer.
#[derive(Debug, Clone, Copy, PartialEq, Eq, Structural)]
pub enum ParseNumberError {
    /// The string is empty.
    Empty,
    /// A character is not a decimal digit, or there is no digit after the sign.
    InvalidDigit,
    /// The number does not fit into 64 bits.
    Overflow,
}

impl View for ParseNumberError {
    type V = ParseNumberError;

    open spec fn view(&self) -> ParseNumberError {
        *self
    }
}

impl ParseNumberError {
    /// What the error says.
    pub open spec fn message(self) -> Seq<char> {
        match self {
            ParseNumberError::Empty => "cannot parse integer from empty string"@,
            ParseNumberError::InvalidDigit => "invalid digit found in string"@,
            ParseNumberError::Overflow => "number too large to fit in target type"@,
        }
    }

    /// The error as text.
    pub fn to_string(&self) -> (r: String)
        ensures
            r@ == self.message(),
    {
        match self {
            ParseNumberError::Empty => "cannot parse integer from empty string".to_owned(),
            ParseNumberError::InvalidDigit => "invalid digit found in string".to_owned(),
            ParseNumberError::Overflow => "number too large to fit in target type".to_owned(),
        }
    }
}

/// A decimal digit.
pub open spec fn is_digit(c: char) -> bool {
    '0' <= c <= '9'
}

/// The value of a decimal digit.
pub open spec fn digit_value(c: char) -> nat {
    (c as int - '0' as int) as nat
}

/// The decimal digit of a value below ten.
pub open spec fn digit_of(d: nat) -> char {
    ('0' as int + d) as char
}

/// A string that consists of decimal digits only.
pub open spec fn all_digits(s: Seq<char>) -> bool {
    forall|i: int| 0 <= i < s.len() ==> is_digit(#[trigger] s[i])
}

/// The number that a string of decimal digits denotes.
pub open spec fn digits_value(s: Seq<char>) -> nat
    decreases s.len(),
{
    if s.len() == 0 {
        0
    } else {
        digits_value(s.drop_last()) * 10 + digit_value(s.last())
    }
}

/// The digits of `s` read from the left, up to the first character that is no digit or that makes
/// the number too large.
pub open spec fn read_digits(s: Seq<char>) -> Result<u64, ParseNumberError>
    decreases s.len(),
{
    if s.len() == 0 {
        Ok(0)
    } else {
        match read_digits(s.drop_last()) {
            Ok(n) => if !is_digit(s.last()) {
                Err(ParseNumberError::InvalidDigit)
            } else if n * 10 + digit_value(s.last()) > u64::MAX {
                Err(ParseNumberError::Overflow)
            } else {
                Ok((n * 10 + digit_value(s.last())) as u64)
            },
            Err(e) => Err(e),
        }
    }
}

/// `s` without one leading plus sign.
pub open spec fn unsigned(s: Seq<char>) -> Seq<char> {
    if s.len() > 0 && s[0] == '+' {
        s.skip(1)
    } else {
        s
    }
}

/// The number that `s` denotes: digits, after an optional plus sign.
pub open spec fn read_number(s: Seq<char>) -> Result<u64, ParseNumberError> {
    if s.len() == 0 {
        Err(ParseNumberError::Empty)
    } else if unsigned(s).len() == 0 {
        Err(ParseNumberError::InvalidDigit)
    } else {
        read_digits(unsigned(s))
    }
}

/// The decimal numeral of `n`, without leading zeros.
pub open spec fn numeral(n: nat) -> Seq<char>
    decreases n,
{
    if n < 10 {
        seq![digit_of(n)]
    } else {
        numeral(n / 10).push(digit_of(n % 10))
    }
}

/// Reading digits succeeds exactly on strings of digits whose number fits into 64 bits, and gives
/// that number.
proof fn lemma_read_digits(s: Seq<char>)
    ensures
        read_digits(s) is Ok <==> all_digits(s) && digits_value(s) <= u64::MAX,
        read_digits(s) matches Ok(n) ==> n == digits_value(s),
    decreases s.len(),
{
    if s.len() > 0 {
        let init = s.drop_last();
        lemma_read_digits(init);
        assert(s =~= init.push(s.last()));
        if all_digits(s) {
            assert forall|i: int| 0 <= i < init.len() implies is_digit(#[trigger] init[i]) by {
                assert(init[i] == s[i]);
            }
            assert(is_digit(s[s.len() - 1]));
        }
        if all_digits(init) && is_digit(s.last()) {
            assert forall|i: int| 0 <= i < s.len() implies is_digit(#[trigger] s[i]) by {
                if i < init.len() {
                    assert(init[i] == s[i]);
                }
            }
        }
    }
}

/// A number is read from a string exactly when the string is a non-empty run of digits, after an
/// optional plus sign, that denotes a number below 2^64.
pub proof fn law_read_number(s: Seq<char>)
    ensures
        read_number(s) is Ok <==> unsigned(s).len() > 0 && all_digits(unsigned(s)) && digits_value(
            unsigned(s),
        ) <= u64::MAX,
        read_number(s) matches Ok(n) ==> n == digits_value(unsigned(s)),
{
    lemma_read_digits(unsigned(s));
}

/// A numeral consists of digits, at least one, and denotes its number.
pub proof fn lemma_numeral(n: nat)
    ensures
        numeral(n).len() > 0,
        all_digits(numeral(n)),
        digits_value(numeral(n)) == n,
    decreases n,
{
    if n < 10 {
        reveal_with_fuel(digits_value, 2);
        assert(numeral(n).drop_last() =~= Seq::<char>::empty());
    } else {
        let init = numeral(n / 10);
        lemma_numeral(n / 10);
        let s = numeral(n);
        assert(s.drop_last() =~= init);
        assert forall|i: int| 0 <= i < s.len() implies is_digit(#[trigger] s[i]) by {
            if i < init.len() {
                assert(s[i] == init[i]);
            }
        }
    }
}

/// Reading gives back what writing wrote: the numeral of a number reads as that number.
pub proof fn law_numeral_reads_back(n: u64)
    ensures
        read_number(numeral(n as nat)) == Ok::<u64, ParseNumberError>(n),
{
    let s = numeral(n as nat);
    lemma_numeral(n as nat);
    assert(is_digit(s[0]));
    assert(unsigned(s) == s);
    lemma_read_digits(s);
}

/// A numeral is written digit by digit: one digit for a number below ten, and else the numeral of
/// the tens and one more digit.
pub proof fn law_numeral(n: nat, d: nat)
    requires
        d < 10,
    ensures
        numeral(d) == seq![(48 + d) as char],
        n > 0 ==> numeral(10 * n + d) == numeral(n).push((48 + d) as char),
{
    if n > 0 {
        assert((10 * n + d) / 10 == n);
        assert((10 * n + d) % 10 == d);
    }
}

/// The number of some digits, told digit by digit.
pub proof fn law_digits_value(s: Seq<char>, d: nat)
    requires
        d < 10,
    ensures
        digits_value(Seq::empty()) == 0,
        digits_value(s.push((48 + d) as char)) == 10 * digits_value(s) + d,
{
    assert(s.push((48 + d) as char).drop_last() =~= s);
}

/// A number is read from its numeral, also behind zeros, and also behind a plus sign.
pub proof fn law_number_is_read(zeros: Seq<char>, n: u64)
    requires
        forall|i: int| 0 <= i < zeros.len() ==> #[trigger] zeros[i] == '0',
    ensures
        read_number(zeros + numeral(n as nat)) == Ok::<u64, ParseNumberError>(n),
        read_number(seq!['+'] + zeros + numeral(n as nat)) == Ok::<u64, ParseNumberError>(n),
{
    let digits = zeros + numeral(n as nat);
    lemma_numeral(n as nat);
    lemma_zeros(zeros, numeral(n as nat));
    assert forall|i: int| 0 <= i < digits.len() implies is_digit(#[trigger] digits[i]) by {
        if i >= zeros.len() {
            assert(digits[i] == numeral(n as nat)[i - zeros.len()]);
        } else {
            assert(digits[i] == zeros[i]);
        }
    }
    assert(is_digit(digits[0]));
    assert(unsigned(digits) == digits);
    let signed = seq!['+'] + zeros + numeral(n as nat);
    assert(signed.skip(1) =~= digits);
    lemma_read_digits(digits);
}

/// Zeros in front do not change a number.
proof fn lemma_zeros(zeros: Seq<char>, s: Seq<char>)
    requires
        forall|i: int| 0 <= i < zeros.len() ==> #[trigger] zeros[i] == '0',
    ensures
        digits_value(zeros + s) == digits_value(s),
    decreases s.len(), zeros.len(),
{
    if s.len() > 0 {
        lemma_zeros(zeros, s.drop_last());
        assert((zeros + s).drop_last() =~= zeros + s.drop_last());
    } else if zeros.len() > 0 {
        lemma_zeros(zeros.drop_last(), s);
        assert((zeros + s).drop_last() =~= zeros.drop_last() + s);
        assert(zeros[zeros.len() - 1] == '0');
    } else {
        assert(zeros + s =~= s);
    }
}

/// Whatever reads as a number is a run of digits, at least one, from the start or from behind a plus
/// sign to the end, and it reads as the number of these digits.
pub proof fn law_read_numbers_are_digits(s: Seq<char>, n: u64)
    ensures
        read_number(s) == Ok::<u64, ParseNumberError>(n) <==> exists|from: int|
            from < s.len() && is_digit_run(s, from, s.len() as int) && #[trigger] digits_value(
                s.subrange(from, s.len() as int),
            ) == n,
{
    law_read_number(s);
    let end = s.len() as int;
    let start: int = if s.len() > 0 && s[0] == '+' {
        1
    } else {
        0
    };
    assert(unsigned(s) =~= s.subrange(start, end));
    if read_number(s) == Ok::<u64, ParseNumberError>(n) {
        assert forall|i: int| #![trigger s[i]] start <= i < end implies '0' <= s[i] && s[i] <= '9' by {
            assert(is_digit(unsigned(s)[i - start]));
        }
        assert(is_digit_run(s, start, end) && digits_value(s.subrange(start, end)) == n);
    }
    if exists|from: int|
        from < end && is_digit_run(s, from, end) && #[trigger] digits_value(s.subrange(from, end))
            == n {
        let from = choose|from: int|
            from < end && is_digit_run(s, from, end) && #[trigger] digits_value(
                s.subrange(from, end),
            ) == n;
        assert(from == start) by {
            if from == 0 {
                assert('0' <= s[0]);
            }
        }
        assert forall|i: int| 0 <= i < unsigned(s).len() implies is_digit(
            #[trigger] unsigned(s)[i],
        ) by {
            assert(unsigned(s)[i] == s[start + i]);
        }
    }
}

/// Why a string is no number. Nothing is no number. Of the rest, digits that make the number too
/// large, from the first digit on, are reported before any character behind them; else there is a
/// character that is no digit, or no digit at all.
pub proof fn law_number_errors(s: Seq<char>)
    ensures
        read_number(s) == Err::<u64, ParseNumberError>(ParseNumberError::Empty) <==> s.len() == 0,
        read_number(s) == Err::<u64, ParseNumberError>(ParseNumberError::Overflow)
            <==> exists|from: int, to: int|
            is_digit_run(s, from, to) && #[trigger] digits_value(s.subrange(from, to)) > u64::MAX,
{
    if read_number(s) == Err::<u64, ParseNumberError>(ParseNumberError::Overflow) {
        let (from, to) = lemma_overflow_found(s);
        assert(is_digit_run(s, from, to) && digits_value(s.subrange(from, to)) > u64::MAX);
    }
    if exists|from: int, to: int|
        is_digit_run(s, from, to) && #[trigger] digits_value(s.subrange(from, to)) > u64::MAX {
        let (from, to) = choose|from: int, to: int|
            is_digit_run(s, from, to) && #[trigger] digits_value(s.subrange(from, to)) > u64::MAX;
        lemma_overflow_reported(s, from, to);
    }
    lemma_overflow(unsigned(s));
}

/// Where the digits are that make a number too large.
proof fn lemma_overflow_found(s: Seq<char>) -> (bounds: (int, int))
    requires
        read_number(s) == Err::<u64, ParseNumberError>(ParseNumberError::Overflow),
    ensures
        is_digit_run(s, bounds.0, bounds.1),
        digits_value(s.subrange(bounds.0, bounds.1)) > u64::MAX,
{
    let from: int = if s[0] == '+' {
        1
    } else {
        0
    };
    let digits = s.skip(from);
    assert(unsigned(s) =~= digits);
    lemma_overflow(digits);
    let k = choose|k: int|
        0 <= k <= digits.len() && all_digits(digits.take(k)) && #[trigger] digits_value(
            digits.take(k),
        ) > u64::MAX;
    assert(digits.take(k) =~= s.subrange(from, from + k));
    assert forall|i: int| #![trigger s[i]] from <= i < from + k implies '0' <= s[i] && s[i] <= '9' by {
        assert(is_digit(digits.take(k)[i - from]));
    }
    (from, from + k)
}

/// Digits that make a number too large are reported as such.
proof fn lemma_overflow_reported(s: Seq<char>, from: int, to: int)
    requires
        is_digit_run(s, from, to),
        digits_value(s.subrange(from, to)) > u64::MAX,
    ensures
        read_number(s) == Err::<u64, ParseNumberError>(ParseNumberError::Overflow),
{
    if from == to {
        assert(s.subrange(from, to) =~= Seq::<char>::empty());
    }
    assert('0' <= s[from]);
    let digits = s.skip(from);
    assert(unsigned(s) =~= digits);
    let k = to - from;
    assert(digits.take(k) =~= s.subrange(from, to));
    assert forall|i: int| 0 <= i < k implies is_digit(#[trigger] digits.take(k)[i]) by {
        assert(digits.take(k)[i] == s[from + i]);
    }
    lemma_overflow(digits);
    assert(all_digits(digits.take(k)) && digits_value(digits.take(k)) > u64::MAX);
}

/// The digits from 0 to 9 fill `s` from its start, or from behind its plus sign, up to `to`.
pub open spec fn is_digit_run(s: Seq<char>, from: int, to: int) -> bool {
    &&& 0 <= from <= to <= s.len()
    &&& from == 0 || (from == 1 && s[0] == '+')
    &&& forall|i: int| #![trigger s[i]] from <= i < to ==> '0' <= s[i] && s[i] <= '9'
}

/// A number is too large exactly if some digits from the left on make it so.
proof fn lemma_overflow(s: Seq<char>)
    ensures
        read_digits(s) != Err::<u64, ParseNumberError>(ParseNumberError::Empty),
        read_digits(s) == Err::<u64, ParseNumberError>(ParseNumberError::Overflow) <==> exists|
            k: int,
        |
            0 <= k <= s.len() && all_digits(s.take(k)) && #[trigger] digits_value(s.take(k))
                > u64::MAX,
    decreases s.len(),
{
    if s.len() > 0 {
        let init = s.drop_last();
        lemma_overflow(init);
        lemma_read_digits(init);
        lemma_read_digits(s);
        assert(s.take(s.len() as int) =~= s);
        if exists|k: int|
            0 <= k <= init.len() && all_digits(init.take(k)) && #[trigger] digits_value(
                init.take(k),
            ) > u64::MAX {
            let k = choose|k: int|
                0 <= k <= init.len() && all_digits(init.take(k)) && #[trigger] digits_value(
                    init.take(k),
                ) > u64::MAX;
            assert(init.take(k) =~= s.take(k));
            assert(all_digits(s.take(k)) && digits_value(s.take(k)) > u64::MAX);
        }
        if exists|k: int|
            0 <= k <= s.len() && all_digits(s.take(k)) && #[trigger] digits_value(s.take(k))
                > u64::MAX {
            let k = choose|k: int|
                0 <= k <= s.len() && all_digits(s.take(k)) && #[trigger] digits_value(s.take(k))
                    > u64::MAX;
            if k < s.len() {
                assert(init.take(k) =~= s.take(k));
                assert(all_digits(init.take(k)) && digits_value(init.take(k)) > u64::MAX);
            } else {
                assert(all_digits(s));
                assert forall|i: int| 0 <= i < init.len() implies is_digit(#[trigger] init[i]) by {
                    assert(init[i] == s[i]);
                }
                assert(is_digit(s[s.len() - 1]));
                assert(init.take(init.len() as int) =~= init);
            }
        }
        if read_digits(s) == Err::<u64, ParseNumberError>(ParseNumberError::Overflow)
            && read_digits(init) is Ok {
            assert(all_digits(init));
            assert forall|i: int| 0 <= i < s.len() implies is_digit(#[trigger] s[i]) by {
                if i < init.len() {
                    assert(init[i] == s[i]);
                }
            }
            assert(all_digits(s.take(s.len() as int)));
            assert(digits_value(s.take(s.len() as int)) > u64::MAX);
        }
    } else {
        assert forall|k: int| 0 <= k <= s.len() implies !(#[trigger] digits_value(s.take(k))
            > u64::MAX) by {
            assert(s.take(k) =~= Seq::<char>::empty());
        }
    }
}

/// Reads a decimal number: an optional plus sign, then digits only.
pub fn parse_u64(s: &str) -> (r: Result<u64, ParseNumberError>)
    ensures
        r == read_number(s@),
{
    let chars = chars_of(s);
    if chars.len() == 0 {
        return Err(ParseNumberError::Empty);
    }
    let from: usize = if chars[0] == '+' {
        1
    } else {
        0
    };
    if from == chars.len() {
        return Err(ParseNumberError::InvalidDigit);
    }
    let ghost digits = unsigned(s@);
    let mut n: u64 = 0;
    let mut i: usize = from;
    assert(digits =~= s@.skip(from as int));
    assert(digits.take(0) =~= Seq::<char>::empty());
    while i < chars.len()
        invariant
            chars@ == s@,
            from <= i <= chars.len(),
            digits == unsigned(s@),
            digits == s@.skip(from as int),
            digits.len() > 0,
            read_digits(digits.take(i - from)) == Ok::<u64, ParseNumberError>(n),
        decreases chars.len() - i,
    {
        let c: char = chars[i];
        let ghost read = digits.take(i - from + 1);
        proof {
            assert(read.drop_last() =~= digits.take(i - from));
            assert(read.last() == c);
        }
        if c < '0' || c > '9' {
            proof {
                lemma_read_digits_stops(digits, i - from + 1);
            }
            return Err(ParseNumberError::InvalidDigit);
        }
        let d: u64 = (c as u32 - '0' as u32) as u64;
        let product: Option<u64> = n.checked_mul(10);
        let next: Option<u64> = match product {
            Some(p) => p.checked_add(d),
            None => None,
        };
        match next {
            Some(v) => {
                n = v;
            },
            None => {
                proof {
                    lemma_read_digits_stops(digits, i - from + 1);
                }
                return Err(ParseNumberError::Overflow);
            },
        }
        i = i + 1;
    }
    assert(digits.take(i - from) =~= digits);
    Ok(n)
}

/// Reading stops at the first error.
proof fn lemma_read_digits_stops(s: Seq<char>, k: int)
    requires
        0 <= k <= s.len(),
        read_digits(s.take(k)) is Err,
    ensures
        read_digits(s) == read_digits(s.take(k)),
    decreases s.len() - k,
{
    if k < s.len() {
        assert(s.take(k + 1).drop_last() =~= s.take(k));
        lemma_read_digits_stops(s, k + 1);
    } else {
        assert(s.take(k) =~= s);
    }
}

/// The digit of a value below ten, as a string.
fn digit_str(d: u64) -> (r: &'static str)
    requires
        d < 10,
    ensures
        r@ == seq![digit_of(d as nat)],
{
    proof {
        reveal_strlit("0");
        reveal_strlit("1");
        reveal_strlit("2");
        reveal_strlit("3");
        reveal_strlit("4");
        reveal_strlit("5");
        reveal_strlit("6");
        reveal_strlit("7");
        reveal_strlit("8");
        reveal_strlit("9");
    }
    match d {
        0 => "0",
        1 => "1",
        2 => "2",
        3 => "3",
        4 => "4",
        5 => "5",
        6 => "6",
        7 => "7",
        8 => "8",
        _ => "9",
    }
}

/// Writes a number in decimal.
pub fn u64_to_string(n: u64) -> (r: String)
    ensures
        r@ == numeral(n as nat),
    decreases n,
{
    if n < 10 {
        digit_str(n).to_owned()
    } else {
        let mut r: String = u64_to_string(n / 10);
        let last: u64 = n % 10;
        r.append(digit_str(last));
        assert(r@ =~= numeral(n as nat));
        r
    }
}

} // verus!
