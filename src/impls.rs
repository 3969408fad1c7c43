//! The three TEA variants (16, 32 and 64 rounds) and the block-level
//! transforms they share.
use crate::bytes::{be_bytes, load_word, store_words, word_at};
use crate::model::{decrypt_rounds, encrypt_rounds, DELTA};
use crate::rounds::{decrypt_core, encrypt_core};
use crate::simd::{slice_block, u32x4, unslice_block, LaneWord};
use vstd::prelude::*;

verus! {

/// The key words: the 16 key bytes read as four big-endian words.
pub open spec fn key_schedule(key: Seq<u8>) -> Seq<u32> {
    seq![word_at(key, 0), word_at(key, 4), word_at(key, 8), word_at(key, 12)]
}

/// An 8-byte block after `rounds` encryption rounds under key words `k`.
pub open spec fn encrypt_bytes(k: Seq<u32>, rounds: nat, b: Seq<u8>) -> Seq<u8> {
    let c = encrypt_rounds(k, rounds, word_at(b, 0), word_at(b, 4));
    be_bytes(c.0) + be_bytes(c.1)
}

/// An 8-byte block after `rounds` decryption rounds under key words `k`, the
/// accumulator starting at `seed`.
pub open spec fn decrypt_bytes(k: Seq<u32>, rounds: nat, seed: u32, b: Seq<u8>) -> Seq<u8> {
    let c = decrypt_rounds(k, rounds, seed, word_at(b, 0), word_at(b, 4));
    be_bytes(c.0) + be_bytes(c.1)
}

/// The group of four 8-byte blocks after `rounds` encryption rounds under key
/// words `k`, computed as the lane-parallel path does: the first words of the
/// blocks form one four-lane vector, the second words another, and lane `i`
/// is stored back into block `i`.
pub open spec fn encrypt_group(k: Seq<u32>, rounds: nat, g: Seq<Seq<u8>>) -> Seq<Seq<u8>> {
    let xs = Seq::new(4, |i: int| word_at(g[i], 0));
    let ys = Seq::new(4, |i: int| word_at(g[i], 4));
    let out = Seq::new(4, |i: int| encrypt_rounds(k, rounds, xs[i], ys[i]));
    Seq::new(4, |i: int| be_bytes(out[i].0) + be_bytes(out[i].1))
}

/// The group of four 8-byte blocks after `rounds` decryption rounds under key
/// words `k` from accumulator `seed`, computed lane by lane as in
/// `encrypt_group`.
pub open spec fn decrypt_group(k: Seq<u32>, rounds: nat, seed: u32, g: Seq<Seq<u8>>) -> Seq<Seq<u8>> {
    let xs = Seq::new(4, |i: int| word_at(g[i], 0));
    let ys = Seq::new(4, |i: int| word_at(g[i], 4));
    let out = Seq::new(4, |i: int| decrypt_rounds(k, rounds, seed, xs[i], ys[i]));
    Seq::new(4, |i: int| be_bytes(out[i].0) + be_bytes(out[i].1))
}

/// The bytes of each block of a group.
pub open spec fn group_bytes(blocks: Seq<[u8; 8]>) -> Seq<Seq<u8>> {
    blocks.map_values(|b: [u8; 8]| b@)
}

/// The key words of a 16-byte key.
fn key_words(key: &[u8; 16]) -> (r: [u32; 4])
    ensures
        r@ == key_schedule(key@),
{
    let r = [load_word(key, 0), load_word(key, 4), load_word(key, 8), load_word(key, 12)];
    assert(r@ =~= key_schedule(key@));
    r
}

/// The error of a key that is not exactly 16 bytes long.
#[derive(Clone, Copy, PartialEq, Eq, Structural, Debug)]
pub struct InvalidKeyLength;

/// The 16 bytes of a key given as a slice, or the error if it holds any other
/// number of bytes.
fn key_array(key: &[u8]) -> (r: Result<[u8; 16], InvalidKeyLength>)
    ensures
        key@.len() == 16 <==> r is Ok,
        r matches Ok(k) ==> k@ == key@,
{
    if key.len() != 16 {
        return Err(InvalidKeyLength);
    }
    let mut k = [0u8; 16];
    let mut i: usize = 0;
    while i < 16
        invariant
            key@.len() == 16,
            i <= 16,
            forall|j: int| 0 <= j < i ==> k@[j] == key@[j],
        decreases 16 - i,
    {
        k[i] = key[i];
        i = i + 1;
    }
    assert(k@ =~= key@);
    Ok(k)
}

/// Encrypts one block in place with `rounds` rounds.
fn encrypt_one(key: &[u32; 4], rounds: u32, block: &mut [u8; 8])
    ensures
        final(block)@ == encrypt_bytes(key@, rounds as nat, old(block)@),
{
    let x = load_word(block, 0);
    let y = load_word(block, 4);
    let r = encrypt_core(key, rounds, x, y);
    assert((r.0.lanes()[0], r.1.lanes()[0]) == encrypt_rounds(key@, rounds as nat, x, y));
    *block = store_words(r.0, r.1);
}

/// Decrypts one block in place with `rounds` rounds, the accumulator starting
/// at `seed`.
fn decrypt_one(key: &[u32; 4], rounds: u32, seed: u32, block: &mut [u8; 8])
    ensures
        final(block)@ == decrypt_bytes(key@, rounds as nat, seed, old(block)@),
{
    let x = load_word(block, 0);
    let y = load_word(block, 4);
    let r = decrypt_core(key, rounds, seed, x, y);
    assert((r.0.lanes()[0], r.1.lanes()[0]) == decrypt_rounds(key@, rounds as nat, seed, x, y));
    *block = store_words(r.0, r.1);
}

/// Encrypts four blocks in place through the lane-parallel path.
fn encrypt_four(key: &[u32; 4], rounds: u32, blocks: &mut [[u8; 8]; 4])
    ensures
        group_bytes(final(blocks)@) == encrypt_group(key@, rounds as nat, group_bytes(old(blocks)@)),
{
    let (xs, ys) = slice_block(blocks);
    let r = encrypt_core(key, rounds, xs, ys);
    assert forall|i: int| 0 <= i < 4 implies (#[trigger] r.0.view_lanes()[i], r.1.view_lanes()[i])
        == encrypt_rounds(key@, rounds as nat, xs.lanes()[i], ys.lanes()[i]) by {
        assert(<u32x4 as LaneWord>::width() == 4);
        assert(r.0.lanes()[i] == r.0.view_lanes()[i]);
    }
    unslice_block(r.0, r.1, blocks);
    assert(group_bytes(blocks@) =~= encrypt_group(key@, rounds as nat, group_bytes(old(blocks)@)));
}

/// Decrypts four blocks in place through the lane-parallel path.
fn decrypt_four(key: &[u32; 4], rounds: u32, seed: u32, blocks: &mut [[u8; 8]; 4])
    ensures
        group_bytes(final(blocks)@) == decrypt_group(key@, rounds as nat, seed, group_bytes(old(blocks)@)),
{
    let (xs, ys) = slice_block(blocks);
    let r = decrypt_core(key, rounds, seed, xs, ys);
    assert forall|i: int| 0 <= i < 4 implies (#[trigger] r.0.view_lanes()[i], r.1.view_lanes()[i])
        == decrypt_rounds(key@, rounds as nat, seed, xs.lanes()[i], ys.lanes()[i]) by {
        assert(<u32x4 as LaneWord>::width() == 4);
        assert(r.0.lanes()[i] == r.0.view_lanes()[i]);
    }
    unslice_block(r.0, r.1, blocks);
    assert(group_bytes(blocks@) =~= decrypt_group(key@, rounds as nat, seed, group_bytes(old(blocks)@)));
}

/// TEA block cipher instance of 16 rounds.
#[derive(Clone)]
pub struct Tea16 {
    key: [u32; 4],
}

impl View for Tea16 {
    type V = Seq<u32>;

    /// The four key words.
    closed spec fn view(&self) -> Seq<u32> {
        self.key@
    }
}

impl Tea16 {
    /// The number of rounds of this variant.
    pub const ROUNDS: u32 = 16;

    /// The shift of `DELTA` that gives the decryption accumulator's start.
    pub const SHIFT: u32 = 4;

    /// A cipher whose key words are the 16 key bytes read as four big-endian
    /// words.
    pub fn new(key: &[u8; 16]) -> (r: Self)
        ensures
            r@ == key_schedule(key@),
    {
        Tea16 { key: key_words(key) }
    }

    /// A cipher from a key of any length: `Err(InvalidKeyLength)` unless it
    /// is exactly 16 bytes, else as `new`.
    pub fn new_varkey(key: &[u8]) -> (r: Result<Self, InvalidKeyLength>)
        ensures
            key@.len() == 16 <==> r is Ok,
            r matches Ok(c) ==> c@ == key_schedule(key@),
    {
        match key_array(key) {
            Ok(k) => Ok(Self::new(&k)),
            Err(e) => Err(e),
        }
    }

    /// Encrypts one block in place: 16 rounds on its two big-endian words.
    pub fn encrypt_block(&self, block: &mut [u8; 8])
        ensures
            final(block)@ == encrypt_bytes(self@, 16, old(block)@),
    {
        encrypt_one(&self.key, Self::ROUNDS, block);
    }

    /// Decrypts one block in place: 16 rounds on its two big-endian words,
    /// the accumulator starting at `DELTA << 4`.
    pub fn decrypt_block(&self, block: &mut [u8; 8])
        ensures
            final(block)@ == decrypt_bytes(self@, 16, DELTA << 4u32, old(block)@),
    {
        decrypt_one(&self.key, Self::ROUNDS, DELTA << Self::SHIFT, block);
    }

    /// Encrypts four blocks in place at once, lane by lane.
    pub fn encrypt_blocks(&self, blocks: &mut [[u8; 8]; 4])
        ensures
            group_bytes(final(blocks)@) == encrypt_group(self@, 16, group_bytes(old(blocks)@)),
    {
        encrypt_four(&self.key, Self::ROUNDS, blocks);
    }

    /// Decrypts four blocks in place at once, lane by lane.
    pub fn decrypt_blocks(&self, blocks: &mut [[u8; 8]; 4])
        ensures
            group_bytes(final(blocks)@) == decrypt_group(
                self@,
                16,
                DELTA << 4u32,
                group_bytes(old(blocks)@),
            ),
    {
        decrypt_four(&self.key, Self::ROUNDS, DELTA << Self::SHIFT, blocks);
    }
}

/// TEA block cipher instance of 32 rounds.
#[derive(Clone)]
pub struct Tea32 {
    key: [u32; 4],
}

impl View for Tea32 {
    type V = Seq<u32>;

    /// The four key words.
    closed spec fn view(&self) -> Seq<u32> {
        self.key@
    }
}

impl Tea32 {
    /// The number of rounds of this variant.
    pub const ROUNDS: u32 = 32;

    /// The shift of `DELTA` that gives the decryption accumulator's start.
    pub const SHIFT: u32 = 5;

    /// A cipher whose key words are the 16 key bytes read as four big-endian
    /// words.
    pub fn new(key: &[u8; 16]) -> (r: Self)
        ensures
            r@ == key_schedule(key@),
    {
        Tea32 { key: key_words(key) }
    }

    /// A cipher from a key of any length: `Err(InvalidKeyLength)` unless it
    /// is exactly 16 bytes, else as `new`.
    pub fn new_varkey(key: &[u8]) -> (r: Result<Self, InvalidKeyLength>)
        ensures
            key@.len() == 16 <==> r is Ok,
            r matches Ok(c) ==> c@ == key_schedule(key@),
    {
        match key_array(key) {
            Ok(k) => Ok(Self::new(&k)),
            Err(e) => Err(e),
        }
    }

    /// Encrypts one block in place: 32 rounds on its two big-endian words.
    pub fn encrypt_block(&self, block: &mut [u8; 8])
        ensures
            final(block)@ == encrypt_bytes(self@, 32, old(block)@),
    {
        encrypt_one(&self.key, Self::ROUNDS, block);
    }

    /// Decrypts one block in place: 32 rounds on its two big-endian words,
    /// the accumulator starting at `DELTA << 5`.
    pub fn decrypt_block(&self, block: &mut [u8; 8])
        ensures
            final(block)@ == decrypt_bytes(self@, 32, DELTA << 5u32, old(block)@),
    {
        decrypt_one(&self.key, Self::ROUNDS, DELTA << Self::SHIFT, block);
    }

    /// Encrypts four blocks in place at once, lane by lane.
    pub fn encrypt_blocks(&self, blocks: &mut [[u8; 8]; 4])
        ensures
            group_bytes(final(blocks)@) == encrypt_group(self@, 32, group_bytes(old(blocks)@)),
    {
        encrypt_four(&self.key, Self::ROUNDS, blocks);
    }

    /// Decrypts four blocks in place at once, lane by lane.
    pub fn decrypt_blocks(&self, blocks: &mut [[u8; 8]; 4])
        ensures
            group_bytes(final(blocks)@) == decrypt_group(
                self@,
                32,
                DELTA << 5u32,
                group_bytes(old(blocks)@),
            ),
    {
        decrypt_four(&self.key, Self::ROUNDS, DELTA << Self::SHIFT, blocks);
    }
}

/// TEA block cipher instance of 64 rounds.
#[derive(Clone)]
pub struct Tea64 {
    key: [u32; 4],
}

impl View for Tea64 {
    type V = Seq<u32>;

    /// The four key words.
    closed spec fn view(&self) -> Seq<u32> {
        self.key@
    }
}

impl Tea64 {
    /// The number of rounds of this variant.
    pub const ROUNDS: u32 = 64;

    /// The shift of `DELTA` that gives the decryption accumulator's start.
    pub const SHIFT: u32 = 6;

    /// A cipher whose key words are the 16 key bytes read as four big-endian
    /// words.
    pub fn new(key: &[u8; 16]) -> (r: Self)
        ensures
            r@ == key_schedule(key@),
    {
        Tea64 { key: key_words(key) }
    }

    /// A cipher from a key of any length: `Err(InvalidKeyLength)` unless it
    /// is exactly 16 bytes, else as `new`.
    pub fn new_varkey(key: &[u8]) -> (r: Result<Self, InvalidKeyLength>)
        ensures
            key@.len() == 16 <==> r is Ok,
            r matches Ok(c) ==> c@ == key_schedule(key@),
    {
        match key_array(key) {
            Ok(k) => Ok(Self::new(&k)),
            Err(e) => Err(e),
        }
    }

    /// Encrypts one block in place: 64 rounds on its two big-endian words.
    pub fn encrypt_block(&self, block: &mut [u8; 8])
        ensures
            final(block)@ == encrypt_bytes(self@, 64, old(block)@),
    {
        encrypt_one(&self.key, Self::ROUNDS, block);
    }

    /// Decrypts one block in place: 64 rounds on its two big-endian words,
    /// the accumulator starting at `DELTA << 6`.
    pub fn decrypt_block(&self, block: &mut [u8; 8])
        ensures
            final(block)@ == decrypt_bytes(self@, 64, DELTA << 6u32, old(block)@),
    {
        decrypt_one(&self.key, Self::ROUNDS, DELTA << Self::SHIFT, block);
    }

    /// Encrypts four blocks in place at once, lane by lane.
    pub fn encrypt_blocks(&self, blocks: &mut [[u8; 8]; 4])
        ensures
            group_bytes(final(blocks)@) == encrypt_group(self@, 64, group_bytes(old(blocks)@)),
    {
        encrypt_four(&self.key, Self::ROUNDS, blocks);
    }

    /// Decrypts four blocks in place at once, lane by lane.
    pub fn decrypt_blocks(&self, blocks: &mut [[u8; 8]; 4])
        ensures
            group_bytes(final(blocks)@) == decrypt_group(
                self@,
                64,
                DELTA << 6u32,
                group_bytes(old(blocks)@),
            ),
    {
        decrypt_four(&self.key, Self::ROUNDS, DELTA << Self::SHIFT, blocks);
    }
}

} // verus!
