//! How messages are written in the log: a short reading of the incoming
//! message, and the bytes in hexadecimal.
use vstd::prelude::*;

use crate::text::{decimal_digit, decimal_text, hex_digit, hex_text, push_char, push_decimal, push_hex, push_text};
use crate::translator::{status_kind, CONTROL_CHANGE, PROGRAM_CHANGE};

verus! {

/// The reading of an incoming message: `PC <program>` for a program change,
/// `CC <number> <value>` for a control change, `UNKNOWN` for anything else or
/// anything too short.
pub open spec fn input_message_text(bytes: Seq<u8>) -> Seq<char> {
    if bytes.len() == 0 {
        "UNKNOWN"@
    } else if status_kind(bytes[0]) == PROGRAM_CHANGE {
        if bytes.len() < 2 {
            "UNKNOWN"@
        } else {
            "PC "@ + decimal_text(bytes[1])
        }
    } else if status_kind(bytes[0]) == CONTROL_CHANGE {
        if bytes.len() < 3 {
            "UNKNOWN"@
        } else {
            "CC "@ + decimal_text(bytes[1]) + " "@ + decimal_text(bytes[2])
        }
    } else {
        "UNKNOWN"@
    }
}

/// The bytes as two-digit upper-case hexadecimal numbers separated by spaces.
pub open spec fn hex_bytes_text(bytes: Seq<u8>) -> Seq<char>
    decreases bytes.len(),
{
    if bytes.len() == 0 {
        Seq::empty()
    } else if bytes.len() == 1 {
        hex_text(bytes[0])
    } else {
        hex_bytes_text(bytes.drop_last()) + seq![' '] + hex_text(bytes.last())
    }
}

/// A short reading of an incoming message for the log.
pub fn format_input_message(bytes: &[u8]) -> (text: String)
    ensures
        text@ == input_message_text(bytes@),
        (bytes@.len() >= 2 && bytes@[0] / 16 == 0xC) ==> text@ == "PC "@ + decimal_text(bytes@[1]),
        (bytes@.len() >= 3 && bytes@[0] / 16 == 0xB) ==> text@ == "CC "@ + decimal_text(bytes@[1])
            + " "@ + decimal_text(bytes@[2]),
{
    proof {
        lemma_input_reading(bytes@);
    }
    let mut s = String::new();
    if bytes.len() == 0 {
        push_text(&mut s, "UNKNOWN");
        return s;
    }
    let status = bytes[0];
    let kind = status & 0xF0;
    assert(kind == (status / 16) * 16) by (bit_vector)
        requires
            kind == status & 0xF0,
    ;
    if kind == 0xC0 {
        if bytes.len() < 2 {
            push_text(&mut s, "UNKNOWN");
        } else {
            push_text(&mut s, "PC ");
            push_decimal(&mut s, bytes[1]);
        }
    } else if kind == 0xB0 {
        if bytes.len() < 3 {
            push_text(&mut s, "UNKNOWN");
        } else {
            push_text(&mut s, "CC ");
            push_decimal(&mut s, bytes[1]);
            push_text(&mut s, " ");
            push_decimal(&mut s, bytes[2]);
        }
    } else {
        push_text(&mut s, "UNKNOWN");
    }
    s
}

/// The bytes in hexadecimal, as the log writes them.
pub fn format_midi_bytes(bytes: &[u8]) -> (text: String)
    ensures
        text@ == hex_bytes_text(bytes@),
{
    let mut s = String::new();
    let mut index: usize = 0;
    while index < bytes.len()
        invariant
            index <= bytes.len(),
            s@ == hex_bytes_text(bytes@.take(index as int)),
        decreases bytes.len() - index,
    {
        if index > 0 {
            push_char(&mut s, ' ');
        }
        push_hex(&mut s, bytes[index]);
        proof {
            assert(bytes@.take(index + 1).drop_last() =~= bytes@.take(index as int));
            if index == 0 {
                assert(hex_bytes_text(bytes@.take(0)) =~= Seq::empty());
            }
            assert(s@ =~= hex_bytes_text(bytes@.take(index + 1)));
        }
        index = index + 1;
    }
    assert(bytes@.take(bytes.len() as int) =~= bytes@);
    s
}

/// The reading of a message: a program change of at least two bytes reads
/// `PC` and its program in decimal, a control change of at least three bytes
/// reads `CC`, its number and its value in decimal, on any of the sixteen
/// channels; anything else reads `UNKNOWN`.
pub proof fn lemma_input_reading(bytes: Seq<u8>)
    ensures
        (bytes.len() >= 2 && bytes[0] / 16 == 0xC) ==> input_message_text(bytes) == "PC "@
            + decimal_text(bytes[1]),
        (bytes.len() >= 3 && bytes[0] / 16 == 0xB) ==> input_message_text(bytes) == "CC "@
            + decimal_text(bytes[1]) + " "@ + decimal_text(bytes[2]),
        (bytes.len() == 0 || (bytes[0] / 16 != 0xC && bytes[0] / 16 != 0xB) || (bytes[0] / 16
            == 0xC && bytes.len() < 2) || (bytes[0] / 16 == 0xB && bytes.len() < 3))
            ==> input_message_text(bytes) == "UNKNOWN"@,
{
}

/// The reading of a message does not depend on its channel: two messages that
/// differ only in the channel nibble of the status byte read alike.
pub proof fn lemma_input_reading_ignores_channel(a: Seq<u8>, b: Seq<u8>)
    requires
        a.len() == b.len(),
        a.len() > 0,
        a[0] / 16 == b[0] / 16,
        a.drop_first() == b.drop_first(),
    ensures
        input_message_text(a) == input_message_text(b),
{
    if a.len() >= 2 {
        assert(a[1] == a.drop_first()[0]);
        assert(b[1] == b.drop_first()[0]);
    }
    if a.len() >= 3 {
        assert(a[2] == a.drop_first()[1]);
        assert(b[2] == b.drop_first()[1]);
    }
}

/// The number that a text of decimal digits stands for.
pub open spec fn decimal_value(text: Seq<char>) -> int
    decreases text.len(),
{
    if text.len() == 0 {
        0
    } else {
        decimal_value(text.drop_last()) * 10 + (text.last() as int - 48)
    }
}

/// Whether every character of `text` is a decimal digit.
pub open spec fn all_decimal_digits(text: Seq<char>) -> bool {
    forall|i: int| 0 <= i < text.len() ==> '0' <= #[trigger] text[i] <= '9'
}

/// A decimal digit character stands for its digit.
proof fn lemma_digit_value(d: int)
    requires
        0 <= d < 10,
    ensures
        decimal_digit(d) as int - 48 == d,
        '0' <= decimal_digit(d) <= '9',
{
}

/// A byte written in decimal is one to three digits, with no leading zero
/// except for 0 itself, and reads back as the byte.
pub proof fn lemma_decimal_text_reads_back(n: u8)
    ensures
        1 <= decimal_text(n).len() <= 3,
        all_decimal_digits(decimal_text(n)),
        decimal_text(n).len() > 1 ==> decimal_text(n)[0] != '0',
        decimal_value(decimal_text(n)) == n,
{
    let t = decimal_text(n);
    let a = n as int / 100;
    let b = (n as int / 10) % 10;
    let c = n as int % 10;
    lemma_digit_value(a);
    lemma_digit_value(b);
    lemma_digit_value(c);
    if n < 10 {
        assert(t.drop_last() =~= Seq::<char>::empty());
        assert(decimal_value(t.drop_last()) == 0);
        assert(t.last() == decimal_digit(c));
    } else if n < 100 {
        let t1 = t.drop_last();
        lemma_digit_value(n as int / 10);
        assert(t1 =~= seq![decimal_digit(n as int / 10)]);
        assert(t1.drop_last() =~= Seq::<char>::empty());
        assert(decimal_value(t1.drop_last()) == 0);
        assert(t1.last() == decimal_digit(n as int / 10));
        assert(decimal_value(t1) == n as int / 10);
        assert(decimal_value(t) == (n as int / 10) * 10 + c);
    } else {
        let t1 = t.drop_last();
        let t2 = t1.drop_last();
        assert(t1 =~= seq![decimal_digit(a), decimal_digit(b)]);
        assert(t2 =~= seq![decimal_digit(a)]);
        assert(t2.drop_last() =~= Seq::<char>::empty());
        assert(decimal_value(t2.drop_last()) == 0);
        assert(t2.last() == decimal_digit(a));
        assert(decimal_value(t2) == a);
        assert(decimal_value(t1) == a * 10 + b);
        assert(decimal_value(t) == (a * 10 + b) * 10 + c);
        assert((a * 10 + b) * 10 + c == n) by (nonlinear_arith)
            requires
                a == n as int / 100,
                b == (n as int / 10) % 10,
                c == n as int % 10,
                0 <= n < 256,
        ;
    }
}

/// The log line for a message that is passed on: its reading, then the bytes
/// received and the bytes sent, in hexadecimal.
pub open spec fn midi_log_line_text(input: Seq<u8>, output: Seq<u8>) -> Seq<char> {
    "midi in="@ + input_message_text(input) + " hex_in=["@ + hex_bytes_text(input)
        + "] hex_out=["@ + hex_bytes_text(output) + "]"@
}

/// The log line for a message received as `input` and sent as `output`.
pub fn format_midi_log_line(input: &[u8], output: &[u8]) -> (text: String)
    ensures
        text@ == midi_log_line_text(input@, output@),
{
    let mut s = String::new();
    push_text(&mut s, "midi in=");
    let reading = format_input_message(input);
    push_text(&mut s, reading.as_str());
    push_text(&mut s, " hex_in=[");
    let hex_in = format_midi_bytes(input);
    push_text(&mut s, hex_in.as_str());
    push_text(&mut s, "] hex_out=[");
    let hex_out = format_midi_bytes(output);
    push_text(&mut s, hex_out.as_str());
    push_text(&mut s, "]");
    s
}

/// The value of a hexadecimal digit character (0 for any other character).
pub open spec fn hex_digit_value(c: char) -> int {
    if '0' <= c <= '9' {
        c as int - 48
    } else if 'A' <= c <= 'F' {
        c as int - 55
    } else {
        0
    }
}

/// Reads back a text of two-digit hexadecimal numbers separated by single
/// spaces: the byte at position `j` is written at characters `3j` and `3j + 1`.
pub open spec fn decode_hex_bytes(text: Seq<char>) -> Seq<u8> {
    Seq::new(
        ((text.len() + 1) / 3) as nat,
        |j: int| (hex_digit_value(text[3 * j]) * 16 + hex_digit_value(text[3 * j + 1])) as u8,
    )
}

/// The character just before the `j`-th two-digit number of a rendering.
pub open spec fn separator_before(text: Seq<char>, j: int) -> char {
    text[3 * j - 1]
}

/// Where each byte sits in the hexadecimal rendering: two digits at `3j` and
/// `3j + 1`, and a space before every byte but the first.
proof fn lemma_hex_bytes_layout(bytes: Seq<u8>)
    ensures
        bytes.len() == 0 ==> hex_bytes_text(bytes).len() == 0,
        bytes.len() > 0 ==> hex_bytes_text(bytes).len() == 3 * bytes.len() - 1,
        forall|j: int|
            #![trigger bytes[j]]
            0 <= j < bytes.len() ==> hex_bytes_text(bytes)[3 * j] == hex_digit(
                bytes[j] as int / 16,
            ) && hex_bytes_text(bytes)[3 * j + 1] == hex_digit(bytes[j] as int % 16),
        forall|j: int|
            0 < j < bytes.len() ==> #[trigger] separator_before(hex_bytes_text(bytes), j) == ' ',
    decreases bytes.len(),
{
    if bytes.len() > 1 {
        let rest = bytes.drop_last();
        lemma_hex_bytes_layout(rest);
        let t = hex_bytes_text(bytes);
        let r = hex_bytes_text(rest);
        assert(t == r + seq![' '] + hex_text(bytes.last()));
        assert forall|j: int| #![trigger bytes[j]] 0 <= j < bytes.len() implies t[3 * j] == hex_digit(
            bytes[j] as int / 16,
        ) && t[3 * j + 1] == hex_digit(bytes[j] as int % 16) by {
            if j < rest.len() {
                assert(rest[j] == bytes[j]);
            }
        }
        assert forall|j: int| 0 < j < bytes.len() implies #[trigger] separator_before(t, j) == ' ' by {
            if j < rest.len() {
                assert(rest[j] == bytes[j]);
                assert(separator_before(r, j) == ' ');
                assert(t[3 * j - 1] == r[3 * j - 1]);
            } else {
                assert(r.len() == 3 * j - 1);
            }
        }
    }
}

/// Each hexadecimal digit character reads back as its value.
proof fn lemma_hex_digit_value(d: int)
    requires
        0 <= d < 16,
    ensures
        hex_digit_value(hex_digit(d)) == d,
{
}

/// The hexadecimal rendering of the log reads back as the bytes it renders:
/// the numbers are separated by single spaces, and each reads back as its byte.
pub proof fn lemma_hex_rendering_invertible(bytes: Seq<u8>)
    ensures
        bytes.len() > 0 ==> hex_bytes_text(bytes).len() == 3 * bytes.len() - 1,
        forall|j: int|
            0 < j < bytes.len() ==> #[trigger] separator_before(hex_bytes_text(bytes), j) == ' ',
        decode_hex_bytes(hex_bytes_text(bytes)) == bytes,
{
    lemma_hex_bytes_layout(bytes);
    let t = hex_bytes_text(bytes);
    let d = decode_hex_bytes(t);
    assert forall|j: int| 0 <= j < bytes.len() implies d[j] == bytes[j] by {
        lemma_hex_digit_value(bytes[j] as int / 16);
        lemma_hex_digit_value(bytes[j] as int % 16);
    }
    assert(d =~= bytes);
}

} // verus!
