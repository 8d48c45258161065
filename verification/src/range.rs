//! The part of an object that a request asks for.

use crate::decimal::{numeral, u64_to_string};
use std::ops::Range;
use vstd::prelude::*;
use vstd::string::StringExecFns;

verus! {

/// The part of an object that a request asks for.
#[derive(Debug)]
pub enum GetRange {
    /// The bytes of a range.
    Bounded(Range<u64>),
    /// All bytes from an offset on.
    Offset(u64),
    /// The last bytes, at most so many.
    Suffix(u64),
}

/// Why a range cannot be asked for.
#[derive(Debug, Clone, Copy, PartialEq, Eq, Structural)]
pub enum InvalidGetRange {
    /// The range starts behind the last byte of the object.
    StartTooLarge {
        /// Where the range starts.
        requested: u64,
        /// The size of the object.
        length: u64,
    },
    /// The range is empty.
    Inconsistent {
        /// Where the range starts.
        start: u64,
        /// Where the range ends.
        end: u64,
    },
    /// The range is longer than a buffer can be.
    TooLarge {
        /// The length of the range.
        requested: u64,
        /// The greatest length of a buffer.
        max: u64,
    },
}

impl View for InvalidGetRange {
    type V = InvalidGetRange;

    open spec fn view(&self) -> InvalidGetRange {
        *self
    }
}

/// A range written as its bounds with two dots between them.
pub open spec fn range_text(range: Range<u64>) -> Seq<char> {
    numeral(range.start as nat) + ".."@ + numeral(range.end as nat)
}

/// Writes a range as its bounds with two dots between them.
pub fn range_to_string(range: &Range<u64>) -> (r: String)
    ensures
        r@ == range_text(*range),
{
    u64_to_string(range.start).concat("..").concat(u64_to_string(range.end).as_str())
}

/// The same range again.
pub fn copy_range(range: &Range<u64>) -> (r: Range<u64>)
    ensures
        r == *range,
{
    Range { start: range.start, end: range.end }
}

impl InvalidGetRange {
    /// What the error says.
    pub open spec fn message(self) -> Seq<char> {
        match self {
            InvalidGetRange::StartTooLarge { requested, length } => {
                "Wanted range starting at "@ + numeral(requested as nat) + ", but object was only "@
                    + numeral(length as nat) + " bytes long"@
            },
            InvalidGetRange::Inconsistent { start, end } => {
                "Range started at "@ + numeral(start as nat) + " and ended at "@ + numeral(
                    end as nat,
                )
            },
            InvalidGetRange::TooLarge { requested, max } => {
                "Range "@ + numeral(requested as nat) + " is larger than system memory limit "@
                    + numeral(max as nat)
            },
        }
    }

    /// The error as text.
    pub fn to_string(&self) -> (r: String)
        ensures
            r@ == self.message(),
    {
        match self {
            InvalidGetRange::StartTooLarge { requested, length } => {
                "Wanted range starting at ".to_owned().concat(
                    u64_to_string(*requested).as_str(),
                ).concat(", but object was only ").concat(u64_to_string(*length).as_str()).concat(
                    " bytes long",
                )
            },
            InvalidGetRange::Inconsistent { start, end } => {
                "Range started at ".to_owned().concat(u64_to_string(*start).as_str()).concat(
                    " and ended at ",
                ).concat(u64_to_string(*end).as_str())
            },
            InvalidGetRange::TooLarge { requested, max } => {
                "Range ".to_owned().concat(u64_to_string(*requested).as_str()).concat(
                    " is larger than system memory limit ",
                ).concat(u64_to_string(*max).as_str())
            },
        }
    }
}

impl GetRange {
    /// Why the range cannot be asked for, whatever the size of the object.
    pub open spec fn fault(self) -> Option<InvalidGetRange> {
        match self {
            GetRange::Bounded(r) => if r.end <= r.start {
                Some(InvalidGetRange::Inconsistent { start: r.start, end: r.end })
            } else if r.end - r.start > usize::MAX {
                Some(
                    InvalidGetRange::TooLarge {
                        requested: (r.end - r.start) as u64,
                        max: usize::MAX as u64,
                    },
                )
            } else {
                None
            },
            _ => None,
        }
    }

    /// The bytes of an object of `len` bytes that the range asks for.
    pub open spec fn within(self, len: u64) -> Result<Range<u64>, InvalidGetRange> {
        match self.fault() {
            Some(e) => Err(e),
            None => match self {
                GetRange::Bounded(r) => if r.start >= len {
                    Err(InvalidGetRange::StartTooLarge { requested: r.start, length: len })
                } else if r.end > len {
                    Ok(Range { start: r.start, end: len })
                } else {
                    Ok(r)
                },
                GetRange::Offset(o) => if o >= len {
                    Err(InvalidGetRange::StartTooLarge { requested: o, length: len })
                } else {
                    Ok(Range { start: o, end: len })
                },
                GetRange::Suffix(n) => if n >= len {
                    Ok(Range { start: 0, end: len })
                } else {
                    Ok(Range { start: (len - n) as u64, end: len })
                },
            },
        }
    }

    /// Whether the range can be asked for at all.
    pub fn is_valid(&self) -> (r: Result<(), InvalidGetRange>)
        ensures
            match self.fault() {
                None => r is Ok,
                Some(e) => r == Err::<(), InvalidGetRange>(e),
            },
    {
        if let GetRange::Bounded(r) = self {
            if r.end <= r.start {
                return Err(InvalidGetRange::Inconsistent { start: r.start, end: r.end });
            }
            if r.end - r.start > usize::MAX as u64 {
                return Err(
                    InvalidGetRange::TooLarge {
                        requested: r.end - r.start,
                        max: usize::MAX as u64,
                    },
                );
            }
        }
        Ok(())
    }

    /// The bytes of an object of `len` bytes that the range asks for.
    pub fn as_range(&self, len: u64) -> (r: Result<Range<u64>, InvalidGetRange>)
        ensures
            r == self.within(len),
    {
        match self.is_valid() {
            Ok(()) => {},
            Err(e) => return Err(e),
        }
        match self {
            GetRange::Bounded(r) => {
                if r.start >= len {
                    Err(InvalidGetRange::StartTooLarge { requested: r.start, length: len })
                } else if r.end > len {
                    Ok(Range { start: r.start, end: len })
                } else {
                    Ok(copy_range(r))
                }
            },
            GetRange::Offset(o) => {
                if *o >= len {
                    Err(InvalidGetRange::StartTooLarge { requested: *o, length: len })
                } else {
                    Ok(Range { start: *o, end: len })
                }
            },
            GetRange::Suffix(n) => Ok(Range { start: len.saturating_sub(*n), end: len }),
        }
    }
}

impl Clone for GetRange {
    fn clone(&self) -> (r: GetRange)
        ensures
            r == *self,
    {
        match self {
            GetRange::Bounded(r) => GetRange::Bounded(copy_range(r)),
            GetRange::Offset(o) => GetRange::Offset(*o),
            GetRange::Suffix(n) => GetRange::Suffix(*n),
        }
    }
}

impl vstd::std_specs::convert::FromSpecImpl<Range<u64>> for GetRange {
    open spec fn obeys_from_spec() -> bool {
        true
    }

    open spec fn from_spec(range: Range<u64>) -> GetRange {
        GetRange::Bounded(range)
    }
}

impl From<Range<u64>> for GetRange {
    fn from(range: Range<u64>) -> (r: GetRange) {
        GetRange::Bounded(range)
    }
}

/// A range that an object of `len` bytes can serve lies within the object, and only the suffix of
/// an empty object, or a suffix of no bytes, is empty.
pub proof fn law_range_lies_within_object(range: GetRange, len: u64)
    ensures
        range.within(len) matches Ok(r) ==> {
            &&& r.start <= r.end <= len
            &&& r.start == r.end ==> (range matches GetRange::Suffix(n) && (n == 0
                || len == 0))
        },
{
}

/// The request asks for the byte at `p` of an object of `len` bytes.
pub open spec fn asks_for(range: GetRange, len: u64, p: int) -> bool {
    match range {
        GetRange::Bounded(r) => r.start <= p < r.end,
        GetRange::Offset(o) => o <= p,
        GetRange::Suffix(n) => len - n <= p,
    }
}

/// An object serves a range with exactly those of its bytes that are asked for. A range that is
/// served ends at the end of the object or where the request ends, whichever comes first.
pub proof fn law_range_serves_what_is_asked_for(range: GetRange, len: u64, p: int)
    requires
        0 <= p < len,
    ensures
        range.within(len) matches Ok(r) ==> {
            &&& r.start <= p < r.end <==> asks_for(range, len, p)
            &&& match range {
                GetRange::Bounded(b) => r.start == b.start && (r.end == b.end || (r.end == len && len
                    < b.end)),
                _ => r.end == len,
            }
        },
{
}

/// Of an empty object only a suffix is served, which is empty.
pub proof fn law_empty_object(range: GetRange)
    ensures
        range.within(0) matches Ok(r) ==> range is Suffix && r.start == 0 && r.end == 0,
        range is Suffix ==> range.within(0) is Ok,
{
}

/// Which ranges are refused, whatever the object: those that end before they have begun, and those
/// that are longer than a buffer can be. Only a range with both bounds is ever refused so.
pub proof fn law_refused_ranges(range: GetRange)
    ensures
        range.fault() is Some <==> (range matches GetRange::Bounded(r) && (r.start >= r.end || r.end
            - r.start > usize::MAX)),
        range.fault() matches Some(e) ==> (range matches GetRange::Bounded(r) && if r.start
            >= r.end {
            e matches InvalidGetRange::Inconsistent { start, end } && start == r.start && end
                == r.end
        } else {
            e matches InvalidGetRange::TooLarge { requested, max } && requested == r.end - r.start
                && max == usize::MAX
        }),
{
}

/// Which ranges an object of `len` bytes serves: each that is not refused and starts within the
/// object, and each suffix. The others are reported as starting too late.
pub proof fn law_served_ranges(range: GetRange, len: u64)
    ensures
        range.fault() matches Some(e) ==> range.within(len) == Err::<Range<u64>, InvalidGetRange>(e),
        range.within(len) is Ok <==> range.fault() is None && match range {
            GetRange::Bounded(r) => r.start < len,
            GetRange::Offset(o) => o < len,
            GetRange::Suffix(_) => true,
        },
        range.fault() is None ==> (range.within(len) matches Err(e) ==> (
        e matches InvalidGetRange::StartTooLarge { requested, length } && length == len && (range
            matches GetRange::Bounded(r) ==> requested == r.start) && (range
            matches GetRange::Offset(o) ==> requested == o))),
{
}

} // verus!
