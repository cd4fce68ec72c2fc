//! Byte sequences written as rows of hexadecimal literals, and read back.

use vstd::prelude::*;

verus! {

/// Number of byte literals on one row.
pub const ROW_WIDTH: usize = 12;

/// The upper-case hexadecimal digit for `n`, as an ASCII byte.
pub open spec fn hex_digit(n: int) -> u8 {
    if n < 10 {
        (48 + n) as u8
    } else {
        (55 + n) as u8
    }
}

/// Whether `c` is an upper-case hexadecimal digit.
pub open spec fn is_hex_digit(c: u8) -> bool {
    (48 <= c <= 57) || (65 <= c <= 70)
}

/// The number that the hexadecimal digit `c` stands for.
pub open spec fn hex_value(c: u8) -> int {
    if c <= 57 {
        c - 48
    } else {
        c - 55
    }
}

/// One byte as text: `0x`, two digits, a comma and a space.
pub open spec fn byte_literal(b: u8) -> Seq<u8> {
    seq![48u8, 120u8, hex_digit(b as int / 16), hex_digit(b as int % 16), 44u8, 32u8]
}

/// Four spaces in front of the first literal of a row.
pub open spec fn row_indent(i: int) -> Seq<u8> {
    if i % 12 == 0 {
        seq![32u8, 32u8, 32u8, 32u8]
    } else {
        Seq::empty()
    }
}

/// A line feed behind the last literal of a row and behind the last literal
/// of all.
pub open spec fn row_end(i: int, len: int) -> Seq<u8> {
    if i % 12 == 11 || i == len - 1 {
        seq![10u8]
    } else {
        Seq::empty()
    }
}

/// The text that stands for the byte at position `i` of `bytes`.
pub open spec fn cell(bytes: Seq<u8>, i: int) -> Seq<u8> {
    row_indent(i) + byte_literal(bytes[i]) + row_end(i, bytes.len() as int)
}

/// The text for the first `n` bytes of `bytes`.
pub open spec fn encode_prefix(bytes: Seq<u8>, n: nat) -> Seq<u8>
    decreases n,
{
    if n == 0 {
        Seq::empty()
    } else {
        encode_prefix(bytes, (n - 1) as nat) + cell(bytes, n - 1)
    }
}

/// The text for `bytes`: rows of twelve literals, the last row shorter
/// where the length is no multiple of twelve.
pub open spec fn encode_bytes(bytes: Seq<u8>) -> Seq<u8> {
    encode_prefix(bytes, bytes.len())
}

/// Whether `text` begins with `0x` and two hexadecimal digits.
pub open spec fn starts_with_literal(text: Seq<u8>) -> bool {
    &&& text.len() >= 4
    &&& text[0] == 48u8
    &&& text[1] == 120u8
    &&& is_hex_digit(text[2])
    &&& is_hex_digit(text[3])
}

/// The bytes that the hexadecimal literals in `text` stand for, in order of
/// appearance; whatever stands between literals is passed over.
pub open spec fn decode_literals(text: Seq<u8>) -> Seq<u8>
    decreases text.len(),
{
    if text.len() == 0 {
        Seq::empty()
    } else if starts_with_literal(text) {
        seq![(16 * hex_value(text[2]) + hex_value(text[3])) as u8] + decode_literals(text.skip(4))
    } else {
        decode_literals(text.skip(1))
    }
}

fn hex_digit_of(n: u8) -> (d: u8)
    requires
        n < 16,
    ensures
        d == hex_digit(n as int),
        is_hex_digit(d),
        hex_value(d) == n,
{
    if n < 10 {
        48 + n
    } else {
        55 + n
    }
}

/// Appends the text for `bytes` to `out`.
pub fn push_encoded(out: &mut Vec<u8>, bytes: &[u8])
    ensures
        final(out)@ == old(out)@ + encode_bytes(bytes@),
{
    let n: usize = bytes.len();
    let ghost start = out@;
    let mut i: usize = 0;
    while i < n
        invariant
            i <= n,
            n == bytes@.len(),
            out@ == start + encode_prefix(bytes@, i as nat),
        decreases n - i,
    {
        let ghost before = out@;
        if i % ROW_WIDTH == 0 {
            out.push(32);
            out.push(32);
            out.push(32);
            out.push(32);
        }
        let b: u8 = bytes[i];
        out.push(48);
        out.push(120);
        out.push(hex_digit_of(b / 16));
        out.push(hex_digit_of(b % 16));
        out.push(44);
        out.push(32);
        if i % ROW_WIDTH == 11 || i == n - 1 {
            out.push(10);
        }
        proof {
            assert(out@ =~= before + cell(bytes@, i as int));
            assert(out@ =~= start + encode_prefix(bytes@, (i + 1) as nat));
        }
        i += 1;
    }
}

/// The text for `bytes`.
pub fn encode(bytes: &[u8]) -> (text: Vec<u8>)
    ensures
        text@ == encode_bytes(bytes@),
{
    let mut text: Vec<u8> = Vec::new();
    push_encoded(&mut text, bytes);
    assert(text@ =~= encode_bytes(bytes@));
    text
}

/// A byte that is not the digit zero in front of a text adds nothing to
/// what the text decodes to.
pub proof fn decode_passes_over(c: u8, rest: Seq<u8>)
    requires
        c != 48u8,
    ensures
        decode_literals(seq![c] + rest) == decode_literals(rest),
{
    let text = seq![c] + rest;
    assert(text.skip(1) =~= rest);
    assert(!starts_with_literal(text));
}

/// A text without the digit zero in front of another adds nothing to what
/// the other decodes to.
pub proof fn decode_passes_over_text(lead: Seq<u8>, rest: Seq<u8>)
    requires
        forall|i: int| 0 <= i < lead.len() ==> lead[i] != 48u8,
    ensures
        decode_literals(lead + rest) == decode_literals(rest),
    decreases lead.len(),
{
    if lead.len() == 0 {
        assert(lead + rest =~= rest);
    } else {
        let tail = lead.skip(1);
        assert(lead + rest =~= seq![lead[0]] + (tail + rest));
        decode_passes_over(lead[0], tail + rest);
        decode_passes_over_text(tail, rest);
    }
}

/// The literal of a byte in front of a text decodes to that byte in front
/// of what the text decodes to.
pub proof fn decode_byte_literal(b: u8, rest: Seq<u8>)
    ensures
        decode_literals(byte_literal(b) + rest) == seq![b] + decode_literals(rest),
{
    let text = byte_literal(b) + rest;
    let hi = b as int / 16;
    let lo = b as int % 16;
    assert(text[0] == 48u8 && text[1] == 120u8);
    assert(text[2] == hex_digit(hi) && text[3] == hex_digit(lo));
    assert(is_hex_digit(hex_digit(hi)) && is_hex_digit(hex_digit(lo)));
    assert(hex_value(hex_digit(hi)) == hi && hex_value(hex_digit(lo)) == lo);
    assert(starts_with_literal(text));
    assert(16 * hi + lo == b as int);
    assert(text.skip(4) =~= seq![44u8] + (seq![32u8] + rest));
    decode_passes_over(44u8, seq![32u8] + rest);
    decode_passes_over(32u8, rest);
}

/// The text of one position in front of a text decodes to the byte at that
/// position in front of what the text decodes to.
pub proof fn decode_cell(bytes: Seq<u8>, i: int, rest: Seq<u8>)
    requires
        0 <= i < bytes.len(),
    ensures
        decode_literals(cell(bytes, i) + rest) == seq![bytes[i]] + decode_literals(rest),
{
    let end = row_end(i, bytes.len() as int);
    let lit = byte_literal(bytes[i]);
    assert(cell(bytes, i) + rest =~= row_indent(i) + (lit + (end + rest)));
    decode_passes_over_text(row_indent(i), lit + (end + rest));
    decode_byte_literal(bytes[i], end + rest);
    decode_passes_over_text(end, rest);
}

/// The text for the first `n` bytes, in front of a text, decodes to those
/// bytes in front of what the text decodes to.
pub proof fn decode_encoded_prefix(bytes: Seq<u8>, n: nat, rest: Seq<u8>)
    requires
        n <= bytes.len(),
    ensures
        decode_literals(encode_prefix(bytes, n) + rest) == bytes.take(n as int) + decode_literals(
            rest,
        ),
    decreases n,
{
    if n == 0 {
        assert(encode_prefix(bytes, n) + rest =~= rest);
        assert(bytes.take(0) + decode_literals(rest) =~= decode_literals(rest));
    } else {
        let m = (n - 1) as nat;
        assert(encode_prefix(bytes, n) + rest =~= encode_prefix(bytes, m) + (cell(bytes, m as int)
            + rest));
        decode_encoded_prefix(bytes, m, cell(bytes, m as int) + rest);
        decode_cell(bytes, m as int, rest);
        assert(bytes.take(m as int) + (seq![bytes[m as int]] + decode_literals(rest))
            =~= bytes.take(n as int) + decode_literals(rest));
    }
}

/// Reading back the literals written for `bytes` gives `bytes` again, byte
/// for byte.
pub proof fn decode_inverts_encode(bytes: Seq<u8>)
    ensures
        decode_literals(encode_bytes(bytes)) == bytes,
{
    decode_encoded_prefix(bytes, bytes.len(), Seq::empty());
    assert(encode_bytes(bytes) + Seq::<u8>::empty() =~= encode_bytes(bytes));
    assert(decode_literals(Seq::<u8>::empty()) =~= Seq::<u8>::empty());
    assert(bytes.take(bytes.len() as int) + Seq::<u8>::empty() =~= bytes);
}

} // verus!
