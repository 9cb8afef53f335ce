//! Character-level text building: hexadecimal and decimal rendering of
//! integers, ASCII case mapping, and conversions between strings and
//! character sequences.

use vstd::prelude::*;
use vstd::string::StringExecFns;

verus! {

/// Appends one character to a string (`String::push`).
#[verifier::external_body]
pub(crate) fn push_char(text: &mut String, c: char)
    ensures
        final(text)@ == old(text)@.push(c),
{
    text.push(c);
}

/// Appends a string slice to a string.
pub(crate) fn push_str(text: &mut String, suffix: &str)
    ensures
        final(text)@ == old(text)@ + suffix@,
{
    text.append(suffix);
}

/// The characters of a string slice, in order.
pub fn chars_of(text: &str) -> (chars: Vec<char>)
    ensures
        chars@ == text@,
{
    let mut chars: Vec<char> = Vec::new();
    for c in iter: text.chars()
        invariant
            chars@ == iter.seq().take(iter.index() as int),
    {
        chars.push(c);
    }
    chars
}

/// The string made of the given characters, in order.
pub fn string_of(chars: &Vec<char>) -> (text: String)
    ensures
        text@ == chars@,
{
    let mut text = String::new();
    let mut index: usize = 0;
    while index < chars.len()
        invariant
            index <= chars.len(),
            text@ == chars@.take(index as int),
        decreases chars.len() - index,
    {
        push_char(&mut text, chars[index]);
        index = index + 1;
        assert(text@ =~= chars@.take(index as int));
    }
    assert(chars@.take(chars.len() as int) =~= chars@);
    text
}

/// The lower-case hexadecimal digit for a value below sixteen.
pub open spec fn hex_digit(d: nat) -> char {
    if d < 10 {
        (48 + d) as char
    } else {
        (87 + d) as char
    }
}

/// Lower-case hexadecimal rendering without leading zeros (`{:x}`).
pub open spec fn hex_digits(value: nat) -> Seq<char>
    decreases value,
{
    if value < 16 {
        seq![hex_digit(value)]
    } else {
        hex_digits(value / 16).push(hex_digit(value % 16))
    }
}

/// `count` copies of one character.
pub open spec fn repeat_char(c: char, count: nat) -> Seq<char> {
    Seq::new(count, |_i: int| c)
}

/// Lower-case hexadecimal rendering, zero-padded to `width` (`{:0width$x}`).
pub open spec fn hex_padded(value: nat, width: nat) -> Seq<char> {
    let digits = hex_digits(value);
    if digits.len() >= width {
        digits
    } else {
        repeat_char('0', (width - digits.len()) as nat) + digits
    }
}

/// Decimal digit for a value below ten.
pub open spec fn decimal_digit(d: nat) -> char {
    (48 + d) as char
}

/// Decimal rendering without leading zeros (`{}`).
pub open spec fn decimal_digits(value: nat) -> Seq<char>
    decreases value,
{
    if value < 10 {
        seq![decimal_digit(value)]
    } else {
        decimal_digits(value / 10).push(decimal_digit(value % 10))
    }
}

proof fn lemma_hex_digits_len(value: nat)
    ensures
        hex_digits(value).len() >= 1,
    decreases value,
{
    if value >= 16 {
        lemma_hex_digits_len(value / 16);
    }
}

spec fn pow16(k: nat) -> nat
    decreases k,
{
    if k == 0 {
        1
    } else {
        16 * pow16((k - 1) as nat)
    }
}

proof fn lemma_hex_digits_bounded(value: nat, k: nat)
    requires
        k >= 1,
        value < pow16(k),
    ensures
        hex_digits(value).len() <= k,
    decreases value,
{
    if value >= 16 {
        assert(k >= 2) by {
            if k == 1 {
                assert(pow16(1) == 16) by {
                    reveal_with_fuel(pow16, 2);
                }
            }
        }
        assert(value / 16 < pow16((k - 1) as nat)) by {
            assert(pow16(k) == 16 * pow16((k - 1) as nat));
        }
        lemma_hex_digits_bounded(value / 16, (k - 1) as nat);
    }
}

pub(crate) fn hex_char(d: u64) -> (c: char)
    requires
        d < 16,
    ensures
        c == hex_digit(d as nat),
{
    if d < 10 {
        ((48 + d) as u8) as char
    } else {
        ((87 + d) as u8) as char
    }
}

fn hex_len(value: u64) -> (len: usize)
    ensures
        len == hex_digits(value as nat).len(),
        1 <= len <= 16,
    decreases value,
{
    if value < 16 {
        1
    } else {
        proof {
            lemma_hex_digits_len(value as nat / 16);
        }
        proof {
            assert(pow16(16) == 0x1_0000_0000_0000_0000) by {
                reveal_with_fuel(pow16, 17);
            }
            lemma_hex_digits_bounded(value as nat, 16);
        }
        let inner = hex_len(value / 16);
        inner + 1
    }
}

fn push_hex_digits(text: &mut String, value: u64)
    ensures
        final(text)@ == old(text)@ + hex_digits(value as nat),
    decreases value,
{
    if value >= 16 {
        push_hex_digits(text, value / 16);
    }
    push_char(text, hex_char(value % 16));
    assert(final(text)@ =~= old(text)@ + hex_digits(value as nat));
}

/// Appends `value` in lower-case hexadecimal, zero-padded to `width` digits.
pub fn push_hex(text: &mut String, value: u64, width: usize)
    ensures
        final(text)@ == old(text)@ + hex_padded(value as nat, width as nat),
{
    let len = hex_len(value);
    let ghost start = text@;
    let mut pad: usize = 0;
    if len < width {
        while pad < width - len
            invariant
                len < width,
                pad <= width - len,
                text@ == start + repeat_char('0', pad as nat),
            decreases width - len - pad,
        {
            push_char(text, '0');
            pad = pad + 1;
            assert(text@ =~= start + repeat_char('0', pad as nat));
        }
    }
    let ghost padded = text@;
    push_hex_digits(text, value);
    assert(text@ =~= start + hex_padded(value as nat, width as nat));
}

/// `value` in lower-case hexadecimal, zero-padded to `width` digits.
pub fn hex_string(value: u64, width: usize) -> (text: String)
    ensures
        text@ == hex_padded(value as nat, width as nat),
{
    let mut text = String::new();
    push_hex(&mut text, value, width);
    assert(text@ =~= hex_padded(value as nat, width as nat));
    text
}

/// Appends `value` in decimal.
pub fn push_decimal(text: &mut String, value: u64)
    ensures
        final(text)@ == old(text)@ + decimal_digits(value as nat),
    decreases value,
{
    if value >= 10 {
        push_decimal(text, value / 10);
    }
    let digit = ((48 + value % 10) as u8) as char;
    push_char(text, digit);
    assert(final(text)@ =~= old(text)@ + decimal_digits(value as nat));
}

/// `value` in decimal.
pub fn decimal_string(value: u64) -> (text: String)
    ensures
        text@ == decimal_digits(value as nat),
{
    let mut text = String::new();
    push_decimal(&mut text, value);
    assert(text@ =~= decimal_digits(value as nat));
    text
}

/// ASCII upper-case mapping of one character (`char::to_ascii_uppercase`).
pub open spec fn ascii_upper(c: char) -> char {
    if 'a' <= c && c <= 'z' {
        ((c as int) - 32) as char
    } else {
        c
    }
}

/// ASCII upper-case mapping of every character (`str::to_ascii_uppercase`).
pub open spec fn ascii_upper_seq(s: Seq<char>) -> Seq<char> {
    Seq::new(s.len(), |i: int| ascii_upper(s[i]))
}

/// The text with every ASCII lower-case letter replaced by its upper case.
pub fn to_ascii_uppercase(text: &str) -> (upper: String)
    ensures
        upper@ == ascii_upper_seq(text@),
{
    let chars = chars_of(text);
    let mut upper = String::new();
    let mut index: usize = 0;
    while index < chars.len()
        invariant
            index <= chars.len(),
            chars@ == text@,
            upper@ == ascii_upper_seq(text@).take(index as int),
        decreases chars.len() - index,
    {
        let c = chars[index];
        let mapped = if 'a' <= c && c <= 'z' {
            ((c as u32 - 32) as u8) as char
        } else {
            c
        };
        push_char(&mut upper, mapped);
        index = index + 1;
        assert(upper@ =~= ascii_upper_seq(text@).take(index as int));
    }
    assert(ascii_upper_seq(text@).take(chars.len() as int) =~= ascii_upper_seq(text@));
    upper
}

/// Unicode `White_Space` (`char::is_whitespace`).
pub open spec fn is_unicode_whitespace(c: char) -> bool {
    let v = c as u32;
    (0x09 <= v && v <= 0x0d) || v == 0x20 || v == 0x85 || v == 0xa0 || v == 0x1680
        || (0x2000 <= v && v <= 0x200a) || v == 0x2028 || v == 0x2029 || v == 0x202f
        || v == 0x205f || v == 0x3000
}

/// Whether every character is white space, that is, whether `str::trim`
/// leaves nothing.
pub open spec fn is_blank(s: Seq<char>) -> bool {
    forall|i: int| 0 <= i < s.len() ==> is_unicode_whitespace(#[trigger] s[i])
}

fn is_whitespace_char(c: char) -> (b: bool)
    ensures
        b == is_unicode_whitespace(c),
{
    let v = c as u32;
    (0x09 <= v && v <= 0x0d) || v == 0x20 || v == 0x85 || v == 0xa0 || v == 0x1680 || (0x2000
        <= v && v <= 0x200a) || v == 0x2028 || v == 0x2029 || v == 0x202f || v == 0x205f || v
        == 0x3000
}

/// Whether the text is empty after trimming white space at both ends.
pub fn is_blank_text(text: &str) -> (blank: bool)
    ensures
        blank == is_blank(text@),
{
    let chars = chars_of(text);
    let mut index: usize = 0;
    while index < chars.len()
        invariant
            index <= chars.len(),
            chars@ == text@,
            forall|i: int| 0 <= i < index ==> is_unicode_whitespace(#[trigger] text@[i]),
        decreases chars.len() - index,
    {
        if !is_whitespace_char(chars[index]) {
            return false;
        }
        index = index + 1;
    }
    true
}

/// Index of the first character at or after `i` that is not white space.
pub open spec fn first_kept(s: Seq<char>, i: int) -> int
    decreases s.len() - i,
{
    if 0 <= i < s.len() && is_unicode_whitespace(s[i]) {
        first_kept(s, i + 1)
    } else {
        i
    }
}

/// End of the last character before `j`, and not before `lo`, that is not
/// white space.
pub open spec fn last_kept(s: Seq<char>, lo: int, j: int) -> int
    decreases j - lo,
{
    if lo < j && is_unicode_whitespace(s[j - 1]) {
        last_kept(s, lo, j - 1)
    } else {
        j
    }
}

/// The text without white space at either end (`str::trim`).
pub open spec fn trimmed(s: Seq<char>) -> Seq<char> {
    let start = first_kept(s, 0);
    s.subrange(start, last_kept(s, start, s.len() as int))
}

/// The text without white space at either end.
pub fn trim_text(text: &str) -> (result: String)
    ensures
        result@ == trimmed(text@),
{
    let chars = chars_of(text);
    let mut start: usize = 0;
    while start < chars.len() && is_whitespace_char(chars[start])
        invariant
            start <= chars.len(),
            chars@ == text@,
            first_kept(text@, start as int) == first_kept(text@, 0),
        decreases chars.len() - start,
    {
        start = start + 1;
    }
    let mut end: usize = chars.len();
    while end > start && is_whitespace_char(chars[end - 1])
        invariant
            start <= end <= chars.len(),
            chars@ == text@,
            first_kept(text@, 0) == start,
            last_kept(text@, start as int, end as int) == last_kept(text@, start as int, chars.len() as int),
        decreases end - start,
    {
        end = end - 1;
    }
    let mut result = String::new();
    let mut index = start;
    while index < end
        invariant
            start <= index <= end <= chars.len(),
            chars@ == text@,
            result@ == text@.subrange(start as int, index as int),
        decreases end - index,
    {
        push_char(&mut result, chars[index]);
        index = index + 1;
        assert(result@ =~= text@.subrange(start as int, index as int));
    }
    result
}

/// Whether two texts hold the same characters.
pub fn text_equals(left: &str, right: &str) -> (same: bool)
    ensures
        same == (left@ == right@),
{
    let a = chars_of(left);
    let b = chars_of(right);
    if a.len() != b.len() {
        return false;
    }
    let mut index: usize = 0;
    while index < a.len()
        invariant
            index <= a.len() == b.len(),
            a@ == left@,
            b@ == right@,
            forall|i: int| 0 <= i < index ==> a@[i] == b@[i],
        decreases a.len() - index,
    {
        if a[index] != b[index] {
            return false;
        }
        index = index + 1;
    }
    assert(a@ =~= b@);
    true
}

/// Whether `text` ends with `suffix` (`str::ends_with`).
pub open spec fn ends_with_spec(text: Seq<char>, suffix: Seq<char>) -> bool {
    text.len() >= suffix.len() && text.subrange(text.len() - suffix.len(), text.len() as int) == suffix
}

/// Whether `text` ends with `suffix`.
pub fn ends_with_text(text: &str, suffix: &str) -> (found: bool)
    ensures
        found == ends_with_spec(text@, suffix@),
{
    let a = chars_of(text);
    let b = chars_of(suffix);
    if a.len() < b.len() {
        return false;
    }
    let offset = a.len() - b.len();
    let mut index: usize = 0;
    while index < b.len()
        invariant
            index <= b.len(),
            offset + b.len() == a.len(),
            a@ == text@,
            b@ == suffix@,
            forall|i: int| 0 <= i < index ==> a@[offset + i] == b@[i],
        decreases b.len() - index,
    {
        if a[offset + index] != b[index] {
            assert(text@.subrange(offset as int, text@.len() as int)[index as int] != suffix@[index as int]);
            return false;
        }
        index = index + 1;
    }
    assert(text@.subrange(offset as int, text@.len() as int) =~= suffix@);
    true
}

/// Bytes in the UTF-8 encoding of one character (`char::len_utf8`).
pub open spec fn utf8_width(c: char) -> nat {
    let v = c as u32;
    if v < 0x80 {
        1
    } else if v < 0x800 {
        2
    } else if v < 0x10000 {
        3
    } else {
        4
    }
}

/// Bytes in the UTF-8 encoding of the text (`str::len`).
pub open spec fn utf8_len(s: Seq<char>) -> nat
    decreases s.len(),
{
    if s.len() == 0 {
        0
    } else {
        utf8_len(s.drop_last()) + utf8_width(s.last())
    }
}

proof fn lemma_utf8_len_prefix(s: Seq<char>, i: int)
    requires
        0 <= i <= s.len(),
    ensures
        utf8_len(s.take(i)) <= utf8_len(s),
    decreases s.len() - i,
{
    if i < s.len() {
        lemma_utf8_len_prefix(s, i + 1);
        assert(s.take(i + 1).drop_last() =~= s.take(i));
    } else {
        assert(s.take(i) =~= s);
    }
}

/// Whether the UTF-8 encoding of the text is longer than `limit` bytes.
pub fn utf8_len_exceeds(text: &str, limit: usize) -> (exceeds: bool)
    ensures
        exceeds == (utf8_len(text@) > limit),
{
    let chars = chars_of(text);
    let mut total: usize = 0;
    let mut index: usize = 0;
    while index < chars.len()
        invariant
            index <= chars.len(),
            chars@ == text@,
            total == utf8_len(text@.take(index as int)),
            total <= limit,
        decreases chars.len() - index,
    {
        let v = chars[index] as u32;
        let width: usize = if v < 0x80 {
            1
        } else if v < 0x800 {
            2
        } else if v < 0x10000 {
            3
        } else {
            4
        };
        assert(text@.take(index + 1).drop_last() =~= text@.take(index as int));
        if width > limit - total {
            proof {
                lemma_utf8_len_prefix(text@, index + 1);
            }
            return true;
        }
        total = total + width;
        index = index + 1;
    }
    assert(text@.take(chars.len() as int) =~= text@);
    false
}

/// ASCII hexadecimal digit (`u8::is_ascii_hexdigit`).
pub open spec fn is_ascii_hex(c: char) -> bool {
    ('0' <= c && c <= '9') || ('a' <= c && c <= 'f') || ('A' <= c && c <= 'F')
}

/// Whether `needle` occurs in `text` at position `at`.
pub open spec fn occurs_at(text: Seq<char>, needle: Seq<char>, at: int) -> bool {
    0 <= at && at + needle.len() <= text.len() && text.subrange(at, at + needle.len()) == needle
}

/// Whether `needle` occurs anywhere in `text` (`str::contains`).
pub open spec fn contains_text_spec(text: Seq<char>, needle: Seq<char>) -> bool {
    exists|at: int| occurs_at(text, needle, at)
}

/// Whether `needle` occurs anywhere in `text`.
pub fn contains_text(text: &str, needle: &str) -> (found: bool)
    ensures
        found == contains_text_spec(text@, needle@),
{
    let a = chars_of(text);
    let b = chars_of(needle);
    if b.len() > a.len() {
        assert forall|at: int| !occurs_at(text@, needle@, at) by {}
        return false;
    }
    let mut at: usize = 0;
    while at <= a.len() - b.len()
        invariant
            b.len() <= a.len(),
            a@ == text@,
            b@ == needle@,
            at <= a.len() - b.len() + 1,
            forall|k: int| 0 <= k < at ==> !occurs_at(text@, needle@, k),
        decreases a.len() - b.len() + 1 - at,
    {
        let mut i: usize = 0;
        let mut matched = true;
        while i < b.len()
            invariant
                b.len() <= a.len(),
                at <= a.len() - b.len(),
                a@ == text@,
                b@ == needle@,
                i <= b.len(),
                matched == (forall|j: int| 0 <= j < i ==> a@[at + j] == b@[j]),
            decreases b.len() - i,
        {
            if a[at + i] != b[i] {
                matched = false;
            }
            i = i + 1;
        }
        if matched {
            assert(text@.subrange(at as int, at + needle@.len()) =~= needle@);
            assert(occurs_at(text@, needle@, at as int));
            return true;
        }
        assert(!occurs_at(text@, needle@, at as int)) by {
            let j = choose|j: int| 0 <= j < b.len() && a@[at + j] != b@[j];
            assert(text@.subrange(at as int, at + needle@.len())[j] != needle@[j]);
        }
        at = at + 1;
    }
    assert forall|k: int| !occurs_at(text@, needle@, k) by {
        if 0 <= k && k + needle@.len() <= text@.len() {
            assert(k < at);
        }
    }
    false
}

/// Whether the character occurs in the text.
pub fn contains_char(text: &str, c: char) -> (found: bool)
    ensures
        found == text@.contains(c),
{
    let chars = chars_of(text);
    let mut index: usize = 0;
    while index < chars.len()
        invariant
            index <= chars.len(),
            chars@ == text@,
            forall|i: int| 0 <= i < index ==> text@[i] != c,
        decreases chars.len() - index,
    {
        if chars[index] == c {
            assert(text@[index as int] == c);
            return true;
        }
        index = index + 1;
    }
    false
}

} // verus!
