//! Big-endian loading and storing of 32-bit words.
use byteorder::{BigEndian, ByteOrder};
use vstd::prelude::*;

verus! {

/// The value of four bytes read most significant first.
pub open spec fn be_word(b0: u8, b1: u8, b2: u8, b3: u8) -> u32 {
    (b0 as u32) << 24u32 | (b1 as u32) << 16u32 | (b2 as u32) << 8u32 | (b3 as u32)
}

/// The word read from the four bytes of `s` at `off`.
pub open spec fn word_at(s: Seq<u8>, off: int) -> u32 {
    be_word(s[off], s[off + 1], s[off + 2], s[off + 3])
}

/// The four bytes of `v`, most significant first.
pub open spec fn be_bytes(v: u32) -> Seq<u8> {
    seq![(v >> 24u32) as u8, (v >> 16u32) as u8, (v >> 8u32) as u8, v as u8]
}

/// Relies on byteorder's `BigEndian::read_u32`: the first four bytes of the
/// buffer, most significant first.
#[verifier::external_body]
fn read_u32_be(buf: &[u8; 4]) -> (r: u32)
    ensures
        r == be_word(buf@[0], buf@[1], buf@[2], buf@[3]),
{
    BigEndian::read_u32(buf)
}

/// Relies on byteorder's `BigEndian::write_u32`: the word stored in four
/// bytes, most significant first.
#[verifier::external_body]
fn write_u32_be(v: u32) -> (r: [u8; 4])
    ensures
        r@ == be_bytes(v),
{
    let mut buf = [0u8; 4];
    BigEndian::write_u32(&mut buf, v);
    buf
}

/// Reads the big-endian word at byte offset `off` of `buf`.
pub fn load_word<const N: usize>(buf: &[u8; N], off: usize) -> (r: u32)
    requires
        off + 4 <= N,
    ensures
        r == word_at(buf@, off as int),
{
    let w: [u8; 4] = [buf[off], buf[off + 1], buf[off + 2], buf[off + 3]];
    read_u32_be(&w)
}

/// The block whose first word is `x` and whose second word is `y`.
pub fn store_words(x: u32, y: u32) -> (r: [u8; 8])
    ensures
        r@ == be_bytes(x) + be_bytes(y),
{
    let a = write_u32_be(x);
    let b = write_u32_be(y);
    let r: [u8; 8] = [a[0], a[1], a[2], a[3], b[0], b[1], b[2], b[3]];
    assert(r@ =~= a@ + b@);
    r
}

/// Reading back the bytes of a word gives the word.
pub proof fn lemma_word_of_bytes(v: u32)
    ensures
        word_at(be_bytes(v), 0) == v,
{
    let b0 = (v >> 24u32) as u8;
    let b1 = (v >> 16u32) as u8;
    let b2 = (v >> 8u32) as u8;
    let b3 = v as u8;
    assert(be_word(b0, b1, b2, b3) == v) by (bit_vector)
        requires
            b0 == (v >> 24u32) as u8,
            b1 == (v >> 16u32) as u8,
            b2 == (v >> 8u32) as u8,
            b3 == v as u8,
    ;
}

/// Writing the word read from four bytes gives the bytes back.
pub proof fn lemma_bytes_of_word(s: Seq<u8>, off: int)
    requires
        0 <= off,
        off + 4 <= s.len(),
    ensures
        be_bytes(word_at(s, off)) == s.subrange(off, off + 4),
{
    let (b0, b1, b2, b3) = (s[off], s[off + 1], s[off + 2], s[off + 3]);
    let v = be_word(b0, b1, b2, b3);
    assert((v >> 24u32) as u8 == b0 && (v >> 16u32) as u8 == b1 && (v >> 8u32) as u8 == b2
        && v as u8 == b3) by (bit_vector)
        requires
            v == be_word(b0, b1, b2, b3),
    ;
    assert(be_bytes(v) =~= s.subrange(off, off + 4));
}

} // verus!
