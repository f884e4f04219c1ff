//! Bytes as text: decimal numbers as they stand in headers, the value of a range
//! header, and the search for a marker in an error's description.

use vstd::prelude::*;

verus! {

/// The byte `0`.
pub const DIGIT_ZERO: u8 = 48;

/// The byte `9`.
pub const DIGIT_NINE: u8 = 57;

/// The byte `+`.
pub const PLUS: u8 = 43;

/// The byte `-`.
pub const HYPHEN: u8 = 45;

/// Whether `b` is one of the bytes `0` to `9`.
pub open spec fn is_digit(b: u8) -> bool {
    DIGIT_ZERO <= b <= DIGIT_NINE
}

/// Whether every byte of `s` is a digit.
pub open spec fn all_digits(s: Seq<u8>) -> bool {
    forall|i: int| 0 <= i < s.len() ==> is_digit(#[trigger] s[i])
}

/// The number that the digits `s` write in base ten.
pub open spec fn decimal_value(s: Seq<u8>) -> nat
    decreases s.len(),
{
    if s.len() == 0 {
        0
    } else {
        decimal_value(s.drop_last()) * 10 + (s.last() - DIGIT_ZERO) as nat
    }
}

/// The digits of `n` in base ten, without leading zeros.
pub open spec fn decimal_text(n: nat) -> Seq<u8>
    decreases n,
{
    if n < 10 {
        seq![(DIGIT_ZERO + n) as u8]
    } else {
        decimal_text(n / 10).push((DIGIT_ZERO + n % 10) as u8)
    }
}

/// `s` without a leading `+`.
pub open spec fn unsigned_part(s: Seq<u8>) -> Seq<u8> {
    if s.len() > 0 && s[0] == PLUS {
        s.skip(1)
    } else {
        s
    }
}

/// The `u64` that `s` writes: an optional `+`, then one digit or more, nothing
/// else, and a value that fits.
pub open spec fn parsed_u64(s: Seq<u8>) -> Option<u64> {
    let digits = unsigned_part(s);
    if digits.len() > 0 && all_digits(digits) && decimal_value(digits) <= u64::MAX {
        Some(decimal_value(digits) as u64)
    } else {
        None
    }
}

/// Whether `needle` stands in `hay` at position `i`.
pub open spec fn occurs_at(hay: Seq<u8>, needle: Seq<u8>, i: int) -> bool {
    &&& 0 <= i
    &&& i + needle.len() <= hay.len()
    &&& hay.subrange(i, i + needle.len()) == needle
}

/// Whether `needle` stands somewhere in `hay`.
pub open spec fn occurs(hay: Seq<u8>, needle: Seq<u8>) -> bool {
    exists|i: int| occurs_at(hay, needle, i)
}

/// The text `bytes=`.
pub open spec fn range_unit_prefix() -> Seq<u8> {
    seq![98u8, 121u8, 116u8, 101u8, 115u8, 61u8]
}

/// The value of the header that asks for the bytes `start` to `end`, both included:
/// `bytes=`, the first offset, a hyphen, the last offset.
pub open spec fn range_header_text(start: u64, end: u64) -> Seq<u8> {
    range_unit_prefix() + decimal_text(start as nat) + seq![HYPHEN] + decimal_text(end as nat)
}

/// More digits never write a smaller number.
pub proof fn lemma_prefix_value_le(s: Seq<u8>, k: int)
    requires
        all_digits(s),
        0 <= k <= s.len(),
    ensures
        decimal_value(s.take(k)) <= decimal_value(s),
    decreases s.len() - k,
{
    if k == s.len() {
        assert(s.take(k) =~= s);
    } else {
        lemma_prefix_value_le(s.drop_last(), k);
        assert(s.drop_last().take(k) =~= s.take(k));
        assert(is_digit(s.last()));
    }
}

/// A number reads back from its digits: what `decimal_text` writes, `parsed_u64`
/// reads as the same number.
pub proof fn lemma_decimal_round_trip(n: nat)
    ensures
        decimal_text(n).len() > 0,
        all_digits(decimal_text(n)),
        decimal_value(decimal_text(n)) == n,
        n <= u64::MAX ==> parsed_u64(decimal_text(n)) == Some(n as u64),
    decreases n,
{
    let text = decimal_text(n);
    if n < 10 {
        assert(text.drop_last() =~= Seq::<u8>::empty());
        assert(decimal_value(text.drop_last()) == 0);
    } else {
        lemma_decimal_round_trip(n / 10);
        assert(text.drop_last() =~= decimal_text(n / 10));
    }
    assert(is_digit(text[0]));
    assert(unsigned_part(text) == text);
}

/// Reads a `u64` from `text`, as `parsed_u64` says.
pub fn parse_u64(text: &[u8]) -> (r: Option<u64>)
    ensures
        r == parsed_u64(text@),
{
    let n: usize = text.len();
    let first: usize = if n > 0 && text[0] == PLUS {
        1
    } else {
        0
    };
    let ghost digits = unsigned_part(text@);
    if first == n {
        return None;
    }
    let mut value: u64 = 0;
    let mut i: usize = first;
    while i < n
        invariant
            first <= i <= n,
            n == text@.len(),
            digits == text@.skip(first as int),
            digits == unsigned_part(text@),
            all_digits(digits.take(i - first)),
            value == decimal_value(digits.take(i - first)),
        decreases n - i,
    {
        let b: u8 = text[i];
        if b < DIGIT_ZERO || b > DIGIT_NINE {
            assert(!is_digit(digits[i - first]));
            return None;
        }
        let digit: u64 = (b - DIGIT_ZERO) as u64;
        let ghost longer = digits.take(i + 1 - first);
        assert(longer.drop_last() =~= digits.take(i - first));
        assert(longer.last() == b);
        assert(decimal_value(longer) == value * 10 + digit);
        if value > (u64::MAX - digit) / 10 {
            proof {
                if all_digits(digits) {
                    lemma_prefix_value_le(digits, i + 1 - first);
                }
            }
            return None;
        }
        value = value * 10 + digit;
        i = i + 1;
    }
    assert(digits.take(n - first) =~= digits);
    Some(value)
}

/// Appends the digits of `n` to `out`.
pub fn push_decimal(out: &mut Vec<u8>, n: u64)
    ensures
        final(out)@ == old(out)@ + decimal_text(n as nat),
    decreases n,
{
    if n >= 10 {
        push_decimal(out, n / 10);
    }
    let digit: u8 = (n % 10) as u8;
    out.push(DIGIT_ZERO + digit);
    assert(out@ =~= old(out)@ + decimal_text(n as nat));
}

/// The digits of `n` in base ten.
pub fn decimal(n: u64) -> (r: Vec<u8>)
    ensures
        r@ == decimal_text(n as nat),
{
    let mut out: Vec<u8> = Vec::new();
    push_decimal(&mut out, n);
    assert(out@ =~= decimal_text(n as nat));
    out
}

/// The value of the header that asks for the bytes `start` to `end`, both included.
pub fn range_header(start: u64, end: u64) -> (r: Vec<u8>)
    ensures
        r@ == range_header_text(start, end),
{
    let mut out: Vec<u8> = Vec::new();
    out.push(98u8);
    out.push(121u8);
    out.push(116u8);
    out.push(101u8);
    out.push(115u8);
    out.push(61u8);
    assert(out@ =~= range_unit_prefix());
    push_decimal(&mut out, start);
    out.push(HYPHEN);
    push_decimal(&mut out, end);
    assert(out@ =~= range_header_text(start, end));
    out
}

/// Whether `needle` stands in `hay` at position `i`.
pub fn found_at(hay: &[u8], needle: &[u8], i: usize) -> (r: bool)
    ensures
        r == occurs_at(hay@, needle@, i as int),
{
    let len: usize = needle.len();
    if hay.len() < len || i > hay.len() - len {
        return false;
    }
    let mut k: usize = 0;
    while k < len
        invariant
            0 <= k <= len,
            len == needle@.len(),
            i + len <= hay@.len() <= usize::MAX,
            forall|j: int| 0 <= j < k ==> hay@[i + j] == needle@[j],
        decreases len - k,
    {
        if hay[i + k] != needle[k] {
            assert(hay@.subrange(i as int, i + len)[k as int] != needle@[k as int]);
            return false;
        }
        k = k + 1;
    }
    assert(hay@.subrange(i as int, i + len) =~= needle@);
    true
}

/// Whether `needle` stands somewhere in `hay`.
pub fn contains(hay: &[u8], needle: &[u8]) -> (r: bool)
    ensures
        r == occurs(hay@, needle@),
{
    if hay.len() < needle.len() {
        return false;
    }
    let last: usize = hay.len() - needle.len();
    let mut i: usize = 0;
    while i < last
        invariant
            0 <= i <= last,
            last == hay@.len() - needle@.len(),
            forall|j: int| 0 <= j < i ==> !occurs_at(hay@, needle@, j),
        decreases last - i,
    {
        if found_at(hay, needle, i) {
            return true;
        }
        i = i + 1;
    }
    found_at(hay, needle, last)
}

} // verus!
