//! Building human-readable text: decimal and hexadecimal renderings of bytes,
//! and the whitespace test behind "blank" names.
use vstd::prelude::*;

verus! {

/// The character of a decimal digit `d` (0 to 9).
pub open spec fn decimal_digit(d: int) -> char {
    (48 + d) as char
}

/// The character of an upper-case hexadecimal digit `d` (0 to 15).
pub open spec fn hex_digit(d: int) -> char {
    if d < 10 {
        (48 + d) as char
    } else {
        (55 + d) as char
    }
}

/// A byte written in decimal, without leading zeros (what `{}` prints for a `u8`).
pub open spec fn decimal_text(n: u8) -> Seq<char> {
    if n < 10 {
        seq![decimal_digit(n as int)]
    } else if n < 100 {
        seq![decimal_digit(n as int / 10), decimal_digit(n as int % 10)]
    } else {
        seq![
            decimal_digit(n as int / 100),
            decimal_digit((n as int / 10) % 10),
            decimal_digit(n as int % 10),
        ]
    }
}

/// A byte written as two upper-case hexadecimal digits (what `{:02X}` prints for a `u8`).
pub open spec fn hex_text(n: u8) -> Seq<char> {
    seq![hex_digit(n as int / 16), hex_digit(n as int % 16)]
}

/// The characters that Unicode gives the White_Space property, which is what
/// `char::is_whitespace` and `str::trim` go by.
pub open spec fn is_white_space(c: char) -> bool {
    let v = c as u32;
    ||| 0x09 <= v <= 0x0D
    ||| v == 0x20
    ||| v == 0x85
    ||| v == 0xA0
    ||| v == 0x1680
    ||| 0x2000 <= v <= 0x200A
    ||| v == 0x2028
    ||| v == 0x2029
    ||| v == 0x202F
    ||| v == 0x205F
    ||| v == 0x3000
}

/// A text that trimming leaves empty: every character of it is white space.
pub open spec fn is_blank(s: Seq<char>) -> bool {
    forall|i: int| 0 <= i < s.len() ==> is_white_space(#[trigger] s[i])
}

/// Appends one character to a `String`.
///
/// Calls `String::push`, which appends `c` at the end of `s` and leaves the rest
/// of `s` as it was.
#[verifier::external_body]
pub(crate) fn push_char(s: &mut String, c: char)
    ensures
        final(s)@ == old(s)@.push(c),
{
    s.push(c);
}

/// Appends `t` to `s`.
pub(crate) fn push_text(s: &mut String, t: &str)
    ensures
        final(s)@ == old(s)@ + t@,
{
    s.append(t);
}

fn decimal_digit_char(d: u8) -> (c: char)
    requires
        d < 10,
    ensures
        c == decimal_digit(d as int),
{
    (48u8 + d) as char
}

fn hex_digit_char(d: u8) -> (c: char)
    requires
        d < 16,
    ensures
        c == hex_digit(d as int),
{
    if d < 10 {
        (48u8 + d) as char
    } else {
        (55u8 + d) as char
    }
}

/// Appends `n` written in decimal.
pub fn push_decimal(s: &mut String, n: u8)
    ensures
        final(s)@ == old(s)@ + decimal_text(n),
{
    let ghost start = s@;
    if n < 10 {
        push_char(s, decimal_digit_char(n));
    } else if n < 100 {
        push_char(s, decimal_digit_char(n / 10));
        push_char(s, decimal_digit_char(n % 10));
    } else {
        push_char(s, decimal_digit_char(n / 100));
        push_char(s, decimal_digit_char((n / 10) % 10));
        push_char(s, decimal_digit_char(n % 10));
    }
    assert(s@ =~= start + decimal_text(n));
}

/// Appends `n` as two upper-case hexadecimal digits.
pub fn push_hex(s: &mut String, n: u8)
    ensures
        final(s)@ == old(s)@ + hex_text(n),
{
    let ghost start = s@;
    push_char(s, hex_digit_char(n / 16));
    push_char(s, hex_digit_char(n % 16));
    assert(s@ =~= start + hex_text(n));
}

/// Whether `c` is white space in the sense of `is_white_space`.
pub fn is_white_space_char(c: char) -> (b: bool)
    ensures
        b == is_white_space(c),
{
    let v = c as u32;
    (0x09 <= v && v <= 0x0D) || v == 0x20 || v == 0x85 || v == 0xA0 || v == 0x1680 || (0x2000
        <= v && v <= 0x200A) || v == 0x2028 || v == 0x2029 || v == 0x202F || v == 0x205F || v
        == 0x3000
}

/// Whether trimming white space from both ends of `s` leaves nothing.
pub fn is_blank_text(s: &str) -> (b: bool)
    ensures
        b == is_blank(s@),
{
    for c in it: s.chars()
        invariant
            it.seq() == s@,
            forall|j: int| 0 <= j < it.index() ==> is_white_space(#[trigger] s@[j]),
    {
        if !is_white_space_char(c) {
            return false;
        }
    }
    true
}

/// The characters of `s`, in order.
pub fn chars_of(s: &str) -> (chars: Vec<char>)
    ensures
        chars@ == s@,
{
    let mut chars: Vec<char> = Vec::new();
    for c in it: s.chars()
        invariant
            it.seq() == s@,
            chars@ == s@.take(it.index() as int),
    {
        chars.push(c);
    }
    assert(s@.take(s@.len() as int) =~= s@);
    chars
}

/// Whether `s` begins with `prefix`, compared character by character.
pub fn text_starts_with(s: &str, prefix: &str) -> (b: bool)
    ensures
        b == prefix@.is_prefix_of(s@),
{
    let sc = chars_of(s);
    let pc = chars_of(prefix);
    if pc.len() > sc.len() {
        return false;
    }
    let mut i: usize = 0;
    while i < pc.len()
        invariant
            i <= pc.len() <= sc.len(),
            sc@ == s@,
            pc@ == prefix@,
            forall|j: int| 0 <= j < i ==> pc@[j] == sc@[j],
        decreases pc.len() - i,
    {
        if pc[i] != sc[i] {
            return false;
        }
        i = i + 1;
    }
    true
}

/// Bytes written as `{:?}` writes a byte slice: decimal values between square
/// brackets, separated by a comma and a space.
pub open spec fn byte_list_text(bytes: Seq<u8>) -> Seq<char> {
    "["@ + joined_decimal(bytes) + "]"@
}

/// The decimal renderings of `bytes`, separated by a comma and a space.
pub open spec fn joined_decimal(bytes: Seq<u8>) -> Seq<char>
    decreases bytes.len(),
{
    if bytes.len() == 0 {
        Seq::empty()
    } else if bytes.len() == 1 {
        decimal_text(bytes[0])
    } else {
        joined_decimal(bytes.drop_last()) + ", "@ + decimal_text(bytes.last())
    }
}

/// Appends `bytes` written as `byte_list_text` describes.
pub fn push_byte_list(s: &mut String, bytes: &[u8])
    ensures
        final(s)@ == old(s)@ + byte_list_text(bytes@),
{
    let ghost start = s@;
    push_text(s, "[");
    let mut i: usize = 0;
    while i < bytes.len()
        invariant
            i <= bytes.len(),
            s@ == start + "["@ + joined_decimal(bytes@.take(i as int)),
        decreases bytes.len() - i,
    {
        let ghost before = s@;
        if i > 0 {
            push_text(s, ", ");
        }
        push_decimal(s, bytes[i]);
        proof {
            assert(bytes@.take(i + 1).drop_last() =~= bytes@.take(i as int));
            if i == 0 {
                assert(joined_decimal(bytes@.take(0)) =~= Seq::empty());
            }
            assert(s@ =~= start + "["@ + joined_decimal(bytes@.take(i + 1)));
        }
        i = i + 1;
    }
    push_text(s, "]");
    assert(bytes@.take(bytes.len() as int) =~= bytes@);
    assert(s@ =~= start + byte_list_text(bytes@));
}

} // verus!
