//! Byte-level building blocks of the wire format: big-endian timestamps,
//! text frames, and the view of a multi-part message.

use vstd::prelude::*;
use vstd::string::StrSliceExecFns;
use vstd::utf8::{decode_utf8, encode_utf8, encode_utf8_decode_utf8, valid_utf8};

verus! {

/// The number that `bytes` spell in base 256, most significant byte first.
pub open spec fn be_value(bytes: Seq<u8>) -> nat
    decreases bytes.len(),
{
    if bytes.len() == 0 {
        0
    } else {
        256 * be_value(bytes.drop_last()) + bytes.last() as nat
    }
}

/// The `width` low base-256 digits of `v`, most significant first.
pub open spec fn be_bytes(v: nat, width: nat) -> Seq<u8>
    decreases width,
{
    if width == 0 {
        Seq::empty()
    } else {
        be_bytes(v / 256, (width - 1) as nat).push((v % 256) as u8)
    }
}

/// `be_bytes` yields exactly `width` bytes.
pub proof fn lemma_be_bytes_len(v: nat, width: nat)
    ensures
        be_bytes(v, width).len() == width,
    decreases width,
{
    if width > 0 {
        lemma_be_bytes_len(v / 256, (width - 1) as nat);
    }
}

/// Decoding undoes encoding: the eight bytes of a `u64` spell it.
pub proof fn lemma_be_value_of_be_bytes(v: u64)
    ensures
        be_value(be_bytes(v as nat, 8)) == v,
{
    lemma_low_digits(v as nat, 8);
    reveal_with_fuel(low_digits, 9);
}

/// Encoding undoes decoding: the digits of what `bytes` spell are `bytes`.
pub proof fn lemma_be_bytes_of_be_value(bytes: Seq<u8>)
    ensures
        be_bytes(be_value(bytes), bytes.len()) == bytes,
    decreases bytes.len(),
{
    if bytes.len() > 0 {
        lemma_be_bytes_of_be_value(bytes.drop_last());
        assert(bytes.drop_last().push(bytes.last()) =~= bytes);
    }
}

/// Eight bytes spell a number that fits in 64 bits.
pub proof fn lemma_be_value_fits(bytes: Seq<u8>)
    requires
        bytes.len() == 8,
    ensures
        be_value(bytes) <= u64::MAX,
{
    lemma_be_value_unrolled(bytes);
}

/// `v` modulo `256^width`, written without exponentiation.
spec fn low_digits(v: nat, width: nat) -> nat
    decreases width,
{
    if width == 0 {
        0
    } else {
        256 * low_digits(v / 256, (width - 1) as nat) + v % 256
    }
}

proof fn lemma_low_digits(v: nat, width: nat)
    ensures
        be_value(be_bytes(v, width)) == low_digits(v, width),
    decreases width,
{
    if width > 0 {
        let rest = be_bytes(v / 256, (width - 1) as nat);
        lemma_low_digits(v / 256, (width - 1) as nat);
        assert(rest.push((v % 256) as u8).drop_last() =~= rest);
    }
}

proof fn lemma_be_value_unrolled(bytes: Seq<u8>)
    requires
        bytes.len() == 8,
    ensures
        be_value(bytes) == bytes[0] * 0x0100_0000_0000_0000 + bytes[1] * 0x0001_0000_0000_0000
            + bytes[2] * 0x0000_0100_0000_0000 + bytes[3] * 0x0000_0001_0000_0000 + bytes[4]
            * 0x0000_0000_0100_0000 + bytes[5] * 0x0000_0000_0001_0000 + bytes[6]
            * 0x0000_0000_0000_0100 + bytes[7],
{
    let s7 = bytes.drop_last();
    let s6 = s7.drop_last();
    let s5 = s6.drop_last();
    let s4 = s5.drop_last();
    let s3 = s4.drop_last();
    let s2 = s3.drop_last();
    let s1 = s2.drop_last();
    let s0 = s1.drop_last();
    assert(be_value(s0) == 0);
    assert(be_value(s1) == bytes[0]);
    assert(be_value(s2) == 256 * be_value(s1) + bytes[1]);
    assert(be_value(s3) == 256 * be_value(s2) + bytes[2]);
    assert(be_value(s4) == 256 * be_value(s3) + bytes[3]);
    assert(be_value(s5) == 256 * be_value(s4) + bytes[4]);
    assert(be_value(s6) == 256 * be_value(s5) + bytes[5]);
    assert(be_value(s7) == 256 * be_value(s6) + bytes[6]);
    assert(be_value(bytes) == 256 * be_value(s7) + bytes[7]);
}

/// Reads a big-endian `u64`. `None` unless `bytes` are exactly eight.
pub fn read_u64(bytes: &[u8]) -> (v: Option<u64>)
    ensures
        v is Some <==> bytes@.len() == 8,
        v matches Some(n) ==> n == be_value(bytes@),
{
    if bytes.len() != 8 {
        return None;
    }
    proof {
        lemma_be_value_unrolled(bytes@);
    }
    let n: u64 = (bytes[0] as u64) * 0x0100_0000_0000_0000 + (bytes[1] as u64)
        * 0x0001_0000_0000_0000 + (bytes[2] as u64) * 0x0000_0100_0000_0000 + (bytes[3] as u64)
        * 0x0000_0001_0000_0000 + (bytes[4] as u64) * 0x0000_0000_0100_0000 + (bytes[5] as u64)
        * 0x0000_0000_0001_0000 + (bytes[6] as u64) * 0x0000_0000_0000_0100 + (bytes[7] as u64);
    Some(n)
}

/// The eight bytes of `v`, most significant first.
pub fn write_u64(v: u64) -> (bytes: Vec<u8>)
    ensures
        bytes@ == be_bytes(v as nat, 8),
{
    let r1: u64 = v / 256;
    let r2: u64 = r1 / 256;
    let r3: u64 = r2 / 256;
    let r4: u64 = r3 / 256;
    let r5: u64 = r4 / 256;
    let r6: u64 = r5 / 256;
    let r7: u64 = r6 / 256;
    let mut bytes: Vec<u8> = Vec::with_capacity(8);
    bytes.push((r7 % 256) as u8);
    bytes.push((r6 % 256) as u8);
    bytes.push((r5 % 256) as u8);
    bytes.push((r4 % 256) as u8);
    bytes.push((r3 % 256) as u8);
    bytes.push((r2 % 256) as u8);
    bytes.push((r1 % 256) as u8);
    bytes.push((v % 256) as u8);
    proof {
        reveal_with_fuel(be_bytes, 9);
        assert(bytes@ =~= be_bytes(v as nat, 8));
    }
    bytes
}

/// Whether two byte strings are equal.
pub fn bytes_eq(a: &[u8], b: &[u8]) -> (same: bool)
    ensures
        same == (a@ == b@),
{
    if a.len() != b.len() {
        return false;
    }
    let mut i: usize = 0;
    while i < a.len()
        invariant
            i <= a.len(),
            a.len() == b.len(),
            a@.take(i as int) == b@.take(i as int),
        decreases a.len() - i,
    {
        if a[i] != b[i] {
            return false;
        }
        proof {
            assert(a@.take(i + 1) =~= a@.take(i as int).push(a@[i as int]));
            assert(b@.take(i + 1) =~= b@.take(i as int).push(b@[i as int]));
        }
        i = i + 1;
    }
    proof {
        assert(a@.take(a.len() as int) =~= a@);
        assert(b@.take(b.len() as int) =~= b@);
    }
    true
}

/// `String::from_utf8`: the string whose UTF-8 encoding is `bytes`, or
/// `None` where `bytes` are not well-formed UTF-8.
#[verifier::external_body]
fn string_from_utf8(bytes: Vec<u8>) -> (text: Option<String>)
    ensures
        text is Some <==> valid_utf8(bytes@),
        text matches Some(s) ==> encode_utf8(s@) == bytes@,
{
    String::from_utf8(bytes).ok()
}

/// The text that `bytes` encode as UTF-8, if they encode any.
pub fn text_of(bytes: &[u8]) -> (text: Option<String>)
    ensures
        text is Some <==> valid_utf8(bytes@),
        text matches Some(s) ==> s@ == decode_utf8(bytes@) && encode_utf8(s@) == bytes@,
{
    let owned: Vec<u8> = vstd::slice::slice_to_vec(bytes);
    let text = string_from_utf8(owned);
    proof {
        if text is Some {
            encode_utf8_decode_utf8(text->0@);
        }
    }
    text
}

/// The UTF-8 bytes of `text`, as a frame.
pub fn frame_of(text: &str) -> (frame: Vec<u8>)
    ensures
        frame@ == encode_utf8(text@),
{
    text.as_bytes_vec()
}

/// What `bytes` say as text: their decoding where they are UTF-8, the
/// empty text where they are not.
pub open spec fn lossy_text(bytes: Seq<u8>) -> Seq<char> {
    if valid_utf8(bytes) {
        decode_utf8(bytes)
    } else {
        Seq::empty()
    }
}

/// A multi-part message as the sequence of its frames' bytes.
pub open spec fn frames(msg: Seq<Vec<u8>>) -> Seq<Seq<u8>> {
    Seq::new(msg.len(), |i: int| msg[i]@)
}

} // verus!
