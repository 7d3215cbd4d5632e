//! The major version: the leading field of a dotted version string.

use vstd::prelude::*;

verus! {

/// The number of bytes of `text` before its first `.`; all of them if it has
/// none.
pub open spec fn major_field_len(text: Seq<u8>) -> nat
    decreases text.len(),
{
    if text.len() == 0 || text[0] == 0x2e {
        0
    } else {
        1 + major_field_len(text.drop_first())
    }
}

/// Whether every byte is an ASCII decimal digit.
pub open spec fn all_digits(text: Seq<u8>) -> bool {
    forall|i: int| 0 <= i < text.len() ==> 0x30 <= #[trigger] text[i] <= 0x39
}

/// The number that a string of decimal digits writes.
pub open spec fn decimal(digits: Seq<u8>) -> nat
    decreases digits.len(),
{
    if digits.len() == 0 {
        0
    } else {
        (decimal(digits.drop_last()) * 10 + (digits.last() - 0x30)) as nat
    }
}

/// `text` read as an unsigned 32-bit number: decimal digits, at least one,
/// after at most one `+`, whose value fits.
pub open spec fn parse_u32(text: Seq<u8>) -> Option<u32> {
    let digits = if text.len() > 0 && text[0] == 0x2b {
        text.drop_first()
    } else {
        text
    };
    if digits.len() > 0 && all_digits(digits) && decimal(digits) <= u32::MAX {
        Some(decimal(digits) as u32)
    } else {
        None
    }
}

/// The major version that `text` names: its field before the first `.`,
/// read as a number.
pub open spec fn major_version(text: Seq<u8>) -> Option<u32> {
    parse_u32(text.take(major_field_len(text) as int))
}

/// The field ends at the first `.`, and holds none.
pub proof fn lemma_major_field(text: Seq<u8>)
    ensures
        major_field_len(text) <= text.len(),
        major_field_len(text) < text.len() ==> text[major_field_len(text) as int] == 0x2e,
        forall|i: int| 0 <= i < major_field_len(text) ==> #[trigger] text[i] != 0x2e,
    decreases text.len(),
{
    if text.len() > 0 && text[0] != 0x2e {
        let rest = text.drop_first();
        lemma_major_field(rest);
        assert forall|i: int| 0 <= i < major_field_len(text) implies #[trigger] text[i]
            != 0x2e by {
            if i > 0 {
                assert(text[i] == rest[i - 1]);
            }
        }
    }
}

/// A field that holds no `.` up to `end`, and ends there, has length `end`.
proof fn lemma_major_field_found(text: Seq<u8>, end: int)
    requires
        0 <= end <= text.len(),
        forall|i: int| 0 <= i < end ==> #[trigger] text[i] != 0x2e,
        end < text.len() ==> text[end] == 0x2e,
    ensures
        major_field_len(text) == end,
{
    lemma_major_field(text);
    let n = major_field_len(text) as int;
    if n < end {
        assert(text[n] == 0x2e);
    } else if end < n {
        assert(text[end] != 0x2e);
    }
}

/// More digits never write a smaller number.
proof fn lemma_decimal_grows(digits: Seq<u8>, shorter: int)
    requires
        0 <= shorter <= digits.len(),
        all_digits(digits),
    ensures
        decimal(digits.take(shorter)) <= decimal(digits),
    decreases digits.len(),
{
    if shorter == digits.len() {
        assert(digits.take(shorter) == digits);
    } else {
        let front = digits.drop_last();
        assert(all_digits(front)) by {
            assert forall|i: int| 0 <= i < front.len() implies 0x30 <= #[trigger] front[i]
                <= 0x39 by {
                assert(front[i] == digits[i]);
            }
        }
        lemma_decimal_grows(front, shorter);
        assert(front.take(shorter) == digits.take(shorter));
        assert(0x30 <= digits[digits.len() - 1] <= 0x39);
    }
}

/// Reads the major version out of the bytes of a version string.
pub fn major_of(text: &[u8]) -> (major: Option<u32>)
    ensures
        major == major_version(text@),
{
    let start: usize = if text.len() > 0 && text[0] == 0x2b {
        1
    } else {
        0
    };
    let mut value: u64 = 0;
    let mut i: usize = start;
    while i < text.len() && text[i] != 0x2e
        invariant
            start <= i <= text.len(),
            start == (if text@.len() > 0 && text@[0] == 0x2b { 1usize } else { 0usize }),
            forall|j: int| 0 <= j < i ==> #[trigger] text@[j] != 0x2e,
            all_digits(text@.subrange(start as int, i as int)),
            value == decimal(text@.subrange(start as int, i as int)),
            value <= u32::MAX,
        decreases text.len() - i,
    {
        let byte = text[i];
        let ghost read = text@.subrange(start as int, i as int);
        let ghost more = text@.subrange(start as int, i + 1);
        proof {
            assert(more.drop_last() == read);
            assert(more.last() == byte);
        }
        if byte < 0x30 || byte > 0x39 {
            proof {
                lemma_rest_is_refused(text@, start as int, i as int);
            }
            return None;
        }
        let next: u64 = value * 10 + (byte - 0x30) as u64;
        proof {
            assert(all_digits(more)) by {
                assert forall|j: int| 0 <= j < more.len() implies 0x30 <= #[trigger] more[j]
                    <= 0x39 by {
                    if j < read.len() {
                        assert(more[j] == read[j]);
                    }
                }
            }
            assert(next == decimal(more));
        }
        if next > 0xffff_ffff {
            proof {
                lemma_rest_is_refused(text@, start as int, i + 1);
            }
            return None;
        }
        value = next;
        i += 1;
    }
    proof {
        lemma_major_field_found(text@, i as int);
        let field = text@.take(i as int);
        let digits = text@.subrange(start as int, i as int);
        if start == 1 {
            assert(field.drop_first() == digits);
        } else {
            assert(field == digits);
        }
    }
    if i == start {
        None
    } else {
        Some(value as u32)
    }
}

/// Once the digits read so far include one that is no digit, or write a
/// number that does not fit, the field is no number, wherever it ends.
proof fn lemma_rest_is_refused(text: Seq<u8>, start: int, seen: int)
    requires
        start == (if text.len() > 0 && text[0] == 0x2b { 1int } else { 0int }),
        start <= seen <= text.len(),
        forall|j: int| 0 <= j < seen ==> #[trigger] text[j] != 0x2e,
        !all_digits(text.subrange(start, seen)) || decimal(text.subrange(start, seen)) > u32::MAX
            || (seen < text.len() && text[seen] != 0x2e && !(0x30 <= text[seen] <= 0x39)),
    ensures
        major_version(text) is None,
{
    lemma_major_field(text);
    let end = major_field_len(text) as int;
    let field = text.take(end);
    let digits = if field.len() > 0 && field[0] == 0x2b {
        field.drop_first()
    } else {
        field
    };
    if end < seen {
        assert(text[end] != 0x2e);
    }
    if seen < text.len() && text[seen] != 0x2e && !(0x30 <= text[seen] <= 0x39) {
        assert(end > seen);
        assert(digits[seen - start] == text[seen]);
    } else if digits.len() > 0 && all_digits(digits) {
        let prefix = text.subrange(start, seen);
        assert(digits == text.subrange(start, end));
        assert(prefix == digits.take(seen - start));
        if !all_digits(prefix) {
            let j = choose|j: int| 0 <= j < prefix.len() && !(0x30 <= #[trigger] prefix[j] <= 0x39);
            assert(prefix[j] == digits[j]);
        }
        lemma_decimal_grows(digits, seen - start);
    }
}

} // verus!
