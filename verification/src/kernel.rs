//! The kernel release that the probes need.
//!
//! The probes read strings from user memory, which the kernel offers from
//! release 5.5 on.
use vstd::prelude::*;
use crate::text::chars_of;

verus! {

/// Whether a kernel of this release has what the probes need.
pub fn kernel_supported(major: u32, minor: u32) -> (supported: bool)
    ensures
        supported == (major > 5 || (major == 5 && minor >= 5)),
{
    !(major < 5 || (major == 5 && minor < 5))
}

/// Whether the character is a decimal digit.
pub open spec fn is_decimal(c: char) -> bool {
    0x30 <= c as u32 <= 0x39
}

/// The number that a sequence of decimal digits writes.
pub open spec fn decimal_value(digits: Seq<char>) -> int
    decreases digits.len(),
{
    if digits.len() == 0 {
        0
    } else {
        decimal_value(digits.drop_last()) * 10 + (digits.last() as u32 - 0x30)
    }
}

/// Whether every character is a decimal digit.
pub open spec fn all_decimal(digits: Seq<char>) -> bool {
    forall|i: int| 0 <= i < digits.len() ==> is_decimal(#[trigger] digits[i])
}

/// The text without the plus sign that may stand in front of a number.
pub open spec fn unsigned(text: Seq<char>) -> Seq<char> {
    if text.len() > 0 && text[0] == '+' {
        text.subrange(1, text.len() as int)
    } else {
        text
    }
}

/// The number that the text writes: decimal digits, one at least, that
/// stay within 32 bits.  A plus sign may stand in front.
pub open spec fn number_of(text: Seq<char>) -> Option<u32> {
    let digits = unsigned(text);
    if digits.len() > 0 && all_decimal(digits) && decimal_value(digits) <= u32::MAX {
        Some(decimal_value(digits) as u32)
    } else {
        None
    }
}

/// The position of the first dot at or after `from`, or the end of the text
/// where there is none.
pub open spec fn part_end(s: Seq<char>, from: int) -> int
    decreases s.len() - from,
{
    if from < 0 || from >= s.len() || s[from] == '.' {
        from
    } else {
        part_end(s, from + 1)
    }
}

/// Major and minor number of a kernel release such as `5.15.0-91-generic`:
/// its first two parts, where parts are what dots separate.  A release of
/// fewer than two parts has none, nor has one whose first two parts are not
/// both numbers.
pub open spec fn version_of(release: Seq<char>) -> Option<(u32, u32)> {
    let dot = part_end(release, 0);
    let major = number_of(release.subrange(0, dot));
    let minor = number_of(release.subrange(dot + 1, part_end(release, dot + 1)));
    if dot < release.len() && major is Some && minor is Some {
        Some((major->0, minor->0))
    } else {
        None
    }
}

/// A part ends within the text.
proof fn lemma_part_end_bounds(s: Seq<char>, from: int)
    requires
        0 <= from <= s.len(),
    ensures
        from <= part_end(s, from) <= s.len(),
    decreases s.len() - from,
{
    if from < s.len() && s[from] != '.' {
        lemma_part_end_bounds(s, from + 1);
    }
}

/// A number does not get smaller when digits are written behind it.
proof fn lemma_decimal_value_grows(digits: Seq<char>, k: int)
    requires
        0 <= k <= digits.len(),
        all_decimal(digits),
    ensures
        0 <= decimal_value(digits.take(k)) <= decimal_value(digits),
    decreases digits.len(),
{
    if digits.len() == 0 {
        assert(digits.take(k) =~= digits);
    } else if k == digits.len() {
        assert(digits.take(k) =~= digits);
        lemma_decimal_value_grows(digits.drop_last(), k - 1);
        assert(is_decimal(digits.last()));
    } else {
        lemma_decimal_value_grows(digits.drop_last(), k);
        assert(digits.drop_last().take(k) =~= digits.take(k));
        assert(is_decimal(digits.last()));
    }
}

/// The end of the part that starts at `from`.
fn find_part_end(chars: &[char], from: usize) -> (end: usize)
    requires
        from <= chars@.len(),
    ensures
        end == part_end(chars@, from as int),
        from <= end <= chars@.len(),
{
    let mut i: usize = from;
    while i < chars.len() && chars[i] != '.'
        invariant
            from <= i <= chars@.len(),
            part_end(chars@, from as int) == part_end(chars@, i as int),
        decreases chars@.len() - i,
    {
        i += 1;
    }
    i
}

/// Reads the characters from `from` up to `to` as a number.
fn parse_number(chars: &[char], from: usize, to: usize) -> (number: Option<u32>)
    requires
        from <= to <= chars@.len(),
    ensures
        number == number_of(chars@.subrange(from as int, to as int)),
{
    let ghost text = chars@.subrange(from as int, to as int);
    let start = if from < to && chars[from] == '+' {
        from + 1
    } else {
        from
    };
    let ghost digits = chars@.subrange(start as int, to as int);
    assert(digits =~= unsigned(text));
    if start == to {
        return None;
    }
    let mut value: u64 = 0;
    let mut i: usize = start;
    assert(digits.take(0) =~= Seq::<char>::empty());
    while i < to
        invariant
            from <= start <= i <= to <= chars@.len(),
            start < to,
            text == chars@.subrange(from as int, to as int),
            digits == chars@.subrange(start as int, to as int),
            digits == unsigned(text),
            forall|j: int| 0 <= j < i - start ==> is_decimal(#[trigger] digits[j]),
            value == decimal_value(digits.take(i - start)),
            value <= u32::MAX,
        decreases to - i,
    {
        let code = chars[i] as u32;
        assert(digits[i - start] == chars@[i as int]);
        if code < 0x30 || code > 0x39 {
            assert(!is_decimal(digits[i - start]));
            return None;
        }
        let ghost before = digits.take(i - start);
        let ghost next = digits.take(i - start + 1);
        assert(next.drop_last() =~= before);
        assert(next.last() == chars@[i as int]);
        value = value * 10 + (code - 0x30) as u64;
        if value > 0xffff_ffff {
            proof {
                if all_decimal(digits) {
                    lemma_decimal_value_grows(digits, i - start + 1);
                }
            }
            return None;
        }
        i += 1;
    }
    assert(digits.take(to - start) =~= digits);
    Some(value as u32)
}

/// Major and minor number of a kernel release.
pub fn kernel_version(release: &str) -> (version: Option<(u32, u32)>)
    ensures
        version == version_of(release@),
{
    let chars = chars_of(release);
    let all = chars.as_slice();
    let dot = find_part_end(all, 0);
    if dot >= all.len() {
        return None;
    }
    let end = find_part_end(all, dot + 1);
    match (parse_number(all, 0, dot), parse_number(all, dot + 1, end)) {
        (Some(major), Some(minor)) => Some((major, minor)),
        _ => None,
    }
}

} // verus!
