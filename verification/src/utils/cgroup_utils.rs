use vstd::prelude::*;
use vstd::string::StringSliceAdditionalSpecFns;

verus! {

/// A white-space character that takes one byte: a tab, a line feed, a vertical tab, a
/// form feed, a carriage return or a space.
pub open spec fn is_blank(b: u8) -> bool {
    b == 9 || b == 10 || b == 11 || b == 12 || b == 13 || b == 32
}

/// A white-space character that takes two bytes: the next-line control or the
/// no-break space.
pub open spec fn is_blank_pair(a: u8, b: u8) -> bool {
    a == 0xC2 && (b == 0x85 || b == 0xA0)
}

/// A white-space character that takes three bytes: the ogham space mark, the spaces
/// of fixed width from the en quad to the hair space, the line and the paragraph
/// separator, the narrow no-break space, the medium mathematical space or the
/// ideographic space.
pub open spec fn is_blank_triple(a: u8, b: u8, c: u8) -> bool {
    ||| a == 0xE1 && b == 0x9A && c == 0x80
    ||| a == 0xE2 && b == 0x80 && (0x80 <= c <= 0x8A || c == 0xA8 || c == 0xA9 || c == 0xAF)
    ||| a == 0xE2 && b == 0x81 && c == 0x9F
    ||| a == 0xE3 && b == 0x80 && c == 0x80
}

/// A decimal digit.
pub open spec fn is_digit(b: u8) -> bool {
    48 <= b <= 57
}

/// The number of bytes that a white-space character takes at the start of `bytes`;
/// zero where `bytes` starts with none.
pub open spec fn leading_blank(bytes: Seq<u8>) -> nat {
    if bytes.len() >= 1 && is_blank(bytes[0]) {
        1
    } else if bytes.len() >= 2 && is_blank_pair(bytes[0], bytes[1]) {
        2
    } else if bytes.len() >= 3 && is_blank_triple(bytes[0], bytes[1], bytes[2]) {
        3
    } else {
        0
    }
}

/// The number of bytes that a white-space character takes at the end of `bytes`; zero
/// where `bytes` ends with none.
pub open spec fn trailing_blank(bytes: Seq<u8>) -> nat {
    let n = bytes.len() as int;
    if n >= 1 && is_blank(bytes[n - 1]) {
        1
    } else if n >= 2 && is_blank_pair(bytes[n - 2], bytes[n - 1]) {
        2
    } else if n >= 3 && is_blank_triple(bytes[n - 3], bytes[n - 2], bytes[n - 1]) {
        3
    } else {
        0
    }
}

/// `bytes` without the white space it starts with.
pub open spec fn trim_start(bytes: Seq<u8>) -> Seq<u8>
    decreases bytes.len(),
{
    if leading_blank(bytes) > 0 {
        trim_start(bytes.skip(leading_blank(bytes) as int))
    } else {
        bytes
    }
}

/// `bytes` without the white space it ends with.
pub open spec fn trim_end(bytes: Seq<u8>) -> Seq<u8>
    decreases bytes.len(),
{
    if trailing_blank(bytes) > 0 {
        trim_end(bytes.take(bytes.len() - trailing_blank(bytes)))
    } else {
        bytes
    }
}

/// Every byte is a decimal digit.
pub open spec fn all_digits(bytes: Seq<u8>) -> bool {
    forall|i: int| 0 <= i < bytes.len() ==> is_digit(#[trigger] bytes[i])
}

/// The number that decimal digits write.
pub open spec fn decimal_value(digits: Seq<u8>) -> nat
    decreases digits.len(),
{
    if digits.len() == 0 {
        0
    } else {
        (decimal_value(digits.drop_last()) * 10 + (digits.last() - 48)) as nat
    }
}

/// The digits of a number as it is written: what is left of the text once the white
/// space around it and one leading plus sign are gone.
pub open spec fn number_digits(bytes: Seq<u8>) -> Seq<u8> {
    let text = trim_end(trim_start(bytes));
    if text.len() > 0 && text[0] == 43 {
        text.drop_first()
    } else {
        text
    }
}

/// The memory reading that a text holds: the number it writes in decimal digits, white
/// space around it and a plus sign before it allowed, if it writes one that fits 64
/// bits.
pub open spec fn memory_reading(bytes: Seq<u8>) -> Option<u64> {
    let digits = number_digits(bytes);
    if digits.len() > 0 && all_digits(digits) && decimal_value(digits) <= u64::MAX {
        Some(decimal_value(digits) as u64)
    } else {
        None
    }
}

/// A number does not get smaller by more digits behind it.
proof fn lemma_decimal_value_grows(digits: Seq<u8>, n: int)
    requires
        all_digits(digits),
        0 <= n <= digits.len(),
    ensures
        decimal_value(digits.take(n)) <= decimal_value(digits),
    decreases digits.len() - n,
{
    if n < digits.len() {
        lemma_decimal_value_grows(digits, n + 1);
        assert(digits.take(n + 1).drop_last() =~= digits.take(n));
        assert(is_digit(digits[n]));
        assert(digits.take(n + 1).last() == digits[n]);
    } else {
        assert(digits.take(n) =~= digits);
    }
}

/// Whether the byte is a one-byte white-space character.
fn blank(b: u8) -> (r: bool)
    ensures
        r == is_blank(b),
{
    b == 9 || b == 10 || b == 11 || b == 12 || b == 13 || b == 32
}

/// Whether the two bytes are a two-byte white-space character.
fn blank_pair(a: u8, b: u8) -> (r: bool)
    ensures
        r == is_blank_pair(a, b),
{
    a == 0xC2 && (b == 0x85 || b == 0xA0)
}

/// Whether the three bytes are a three-byte white-space character.
fn blank_triple(a: u8, b: u8, c: u8) -> (r: bool)
    ensures
        r == is_blank_triple(a, b, c),
{
    (a == 0xE1 && b == 0x9A && c == 0x80) || (a == 0xE2 && b == 0x80 && ((0x80 <= c && c
        <= 0x8A) || c == 0xA8 || c == 0xA9 || c == 0xAF)) || (a == 0xE2 && b == 0x81 && c
        == 0x9F) || (a == 0xE3 && b == 0x80 && c == 0x80)
}

/// The number of bytes that a white-space character takes at the start of the bytes
/// from `start` up to `end`.
fn leading_blank_at(bytes: &[u8], start: usize, end: usize) -> (n: usize)
    requires
        start <= end <= bytes@.len(),
    ensures
        n == leading_blank(bytes@.subrange(start as int, end as int)),
        n <= end - start,
{
    let ghost part = bytes@.subrange(start as int, end as int);
    let len = end - start;
    if len >= 1 && blank(bytes[start]) {
        proof {
            assert(part[0] == bytes@[start as int]);
        }
        1
    } else if len >= 2 && blank_pair(bytes[start], bytes[start + 1]) {
        proof {
            assert(part[0] == bytes@[start as int]);
            assert(part[1] == bytes@[start + 1]);
        }
        2
    } else if len >= 3 && blank_triple(bytes[start], bytes[start + 1], bytes[start + 2]) {
        proof {
            assert(part[0] == bytes@[start as int]);
            assert(part[1] == bytes@[start + 1]);
            assert(part[2] == bytes@[start + 2]);
        }
        3
    } else {
        proof {
            if len >= 1 {
                assert(part[0] == bytes@[start as int]);
            }
            if len >= 2 {
                assert(part[1] == bytes@[start + 1]);
            }
            if len >= 3 {
                assert(part[2] == bytes@[start + 2]);
            }
        }
        0
    }
}

/// The number of bytes that a white-space character takes at the end of the bytes
/// from `start` up to `end`.
fn trailing_blank_at(bytes: &[u8], start: usize, end: usize) -> (n: usize)
    requires
        start <= end <= bytes@.len(),
    ensures
        n == trailing_blank(bytes@.subrange(start as int, end as int)),
        n <= end - start,
{
    let ghost part = bytes@.subrange(start as int, end as int);
    let len = end - start;
    proof {
        if len >= 1 {
            assert(part[len - 1] == bytes@[end - 1]);
        }
        if len >= 2 {
            assert(part[len - 2] == bytes@[end - 2]);
        }
        if len >= 3 {
            assert(part[len - 3] == bytes@[end - 3]);
        }
    }
    if len >= 1 && blank(bytes[end - 1]) {
        1
    } else if len >= 2 && blank_pair(bytes[end - 2], bytes[end - 1]) {
        2
    } else if len >= 3 && blank_triple(bytes[end - 3], bytes[end - 2], bytes[end - 1]) {
        3
    } else {
        0
    }
}

/// The memory reading that the text of a cgroup memory file holds.
pub fn read_cgroup_v2_memory_bytes(contents: &str) -> (memory_bytes: Option<u64>)
    ensures
        memory_bytes == memory_reading(contents.spec_bytes()),
{
    let bytes = contents.as_bytes();
    let ghost all = bytes@;
    let mut start: usize = 0;
    let mut trimmed = false;
    proof {
        assert(all.skip(0) =~= all);
    }
    while !trimmed
        invariant
            all == bytes@,
            0 <= start <= bytes.len(),
            trim_start(all) == trim_start(all.skip(start as int)),
            trimmed ==> leading_blank(all.skip(start as int)) == 0,
        decreases bytes.len() - start + (if trimmed { 0int } else { 1int }),
    {
        let n = leading_blank_at(bytes, start, bytes.len());
        proof {
            assert(all.subrange(start as int, bytes.len() as int) =~= all.skip(start as int));
            assert(all.skip(start as int).skip(n as int) =~= all.skip(start + n));
        }
        if n == 0 {
            trimmed = true;
        } else {
            start = start + n;
        }
    }
    let ghost front = all.skip(start as int);
    assert(trim_start(all) == front);
    let mut end: usize = bytes.len();
    trimmed = false;
    proof {
        assert(front.take(front.len() as int) =~= front);
    }
    while !trimmed
        invariant
            all == bytes@,
            front == all.skip(start as int),
            start <= end <= bytes.len(),
            trim_end(front) == trim_end(front.take(end - start)),
            trimmed ==> trailing_blank(front.take(end - start)) == 0,
        decreases end + (if trimmed { 0int } else { 1int }),
    {
        let n = trailing_blank_at(bytes, start, end);
        proof {
            assert(all.subrange(start as int, end as int) =~= front.take(end - start));
            assert(front.take(end - start).take(end - start - n) =~= front.take(
                end - start - n,
            ));
        }
        if n == 0 {
            trimmed = true;
        } else {
            end = end - n;
        }
    }
    let ghost text = front.take(end - start);
    proof {
        assert(trim_end(front) == text);
        assert(text =~= all.subrange(start as int, end as int));
    }
    let mut at: usize = start;
    if at < end && bytes[at] == 43 {
        at = at + 1;
    }
    let ghost digits = all.subrange(at as int, end as int);
    proof {
        if start < end && all[start as int] == 43 {
            assert(text[0] == 43);
            assert(text.drop_first() =~= digits);
        } else {
            assert(text =~= digits);
            if text.len() > 0 {
                assert(text[0] == all[start as int]);
            }
        }
        assert(number_digits(all) == digits);
    }
    if at == end {
        return None;
    }
    let first = at;
    let mut value: u64 = 0;
    let mut overflowed = false;
    proof {
        assert(digits.take(0) =~= Seq::<u8>::empty());
    }
    while at < end
        invariant
            all == bytes@,
            first <= at <= end <= bytes.len(),
            all == contents.spec_bytes(),
            digits == all.subrange(first as int, end as int),
            digits == number_digits(all),
            all_digits(digits.take(at - first)),
            !overflowed ==> value == decimal_value(digits.take(at - first)),
            overflowed ==> decimal_value(digits.take(at - first)) > u64::MAX,
        decreases end - at,
    {
        let b = bytes[at];
        if b < 48 || b > 57 {
            proof {
                let i = at - first;
                assert(0 <= i < digits.len());
                assert(digits[i] == b);
                assert(!is_digit(digits[i]));
                assert(!all_digits(digits));
            }
            return None;
        }
        let d: u64 = (b - 48) as u64;
        proof {
            let more = digits.take(at - first + 1);
            assert(more.drop_last() =~= digits.take(at - first));
            assert(more.last() == b);
            assert forall|i: int| 0 <= i < more.len() implies is_digit(#[trigger] more[i]) by {
                if i < at - first {
                    assert(more[i] == digits.take(at - first)[i]);
                }
            }
        }
        if !overflowed {
            if value > (u64::MAX - d) / 10 {
                overflowed = true;
            } else {
                value = value * 10 + d;
            }
        }
        at = at + 1;
    }
    proof {
        assert(digits.take(end - first) =~= digits);
    }
    if overflowed {
        None
    } else {
        Some(value)
    }
}

/// The memory use in kilobytes for a reading in bytes; no reading gives none.
pub fn read_cgroup_v2_memory_kb(memory_bytes: Option<u64>) -> (memory_kb: Option<u64>)
    ensures
        memory_kb == match memory_bytes {
            Some(bytes) => Some((bytes / 1024) as u64),
            None => None,
        },
{
    match memory_bytes {
        Some(bytes) => Some(bytes / 1024),
        None => None,
    }
}

} // verus!
