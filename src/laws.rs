//! Facts relating the operations of the cipher variants to one another.
use crate::bytes::{be_bytes, lemma_bytes_of_word, lemma_word_of_bytes, word_at};
use crate::impls::{decrypt_bytes, decrypt_group, encrypt_bytes, encrypt_group, key_schedule};
use crate::model::{
    decrypt_rounds,
    encrypt_rounds,
    lemma_decrypt_encrypt,
    lemma_encrypt_decrypt,
    lemma_seeds,
    sum_at,
    DELTA,
};
use vstd::prelude::*;

verus! {

/// The two words of the block that stores `x` then `y` are `x` and `y`.
proof fn lemma_words_of_block(x: u32, y: u32)
    ensures
        word_at(be_bytes(x) + be_bytes(y), 0) == x,
        word_at(be_bytes(x) + be_bytes(y), 4) == y,
{
    lemma_word_of_bytes(x);
    lemma_word_of_bytes(y);
    let b = be_bytes(x) + be_bytes(y);
    assert(b[4] == be_bytes(y)[0] && b[5] == be_bytes(y)[1] && b[6] == be_bytes(y)[2] && b[7]
        == be_bytes(y)[3]);
}

/// Storing the two words read from an 8-byte block gives the block back.
proof fn lemma_block_of_words(b: Seq<u8>)
    requires
        b.len() == 8,
    ensures
        be_bytes(word_at(b, 0)) + be_bytes(word_at(b, 4)) == b,
{
    lemma_bytes_of_word(b, 0);
    lemma_bytes_of_word(b, 4);
    assert(b =~= b.subrange(0, 4) + b.subrange(4, 8));
}

/// For any round count, decrypting from the accumulator that encryption
/// reaches undoes encryption of an 8-byte block, and encrypting undoes such a
/// decryption.
pub proof fn lemma_block_round_trip(k: Seq<u32>, rounds: nat, b: Seq<u8>)
    requires
        b.len() == 8,
    ensures
        decrypt_bytes(k, rounds, sum_at(rounds), encrypt_bytes(k, rounds, b)) == b,
        encrypt_bytes(k, rounds, decrypt_bytes(k, rounds, sum_at(rounds), b)) == b,
{
    let (x, y) = (word_at(b, 0), word_at(b, 4));
    let c = encrypt_rounds(k, rounds, x, y);
    lemma_words_of_block(c.0, c.1);
    lemma_decrypt_encrypt(k, rounds, x, y);
    let d = decrypt_rounds(k, rounds, sum_at(rounds), x, y);
    lemma_words_of_block(d.0, d.1);
    lemma_encrypt_decrypt(k, rounds, x, y);
    lemma_block_of_words(b);
}

/// For each variant (16 rounds with seed `DELTA << 4`, 32 with `DELTA << 5`,
/// 64 with `DELTA << 6`) and every key and block, decrypting an encrypted
/// block gives it back, and so does encrypting a decrypted one.
pub proof fn lemma_round_trip(k: Seq<u32>, b: Seq<u8>)
    requires
        b.len() == 8,
    ensures
        decrypt_bytes(k, 16, DELTA << 4u32, encrypt_bytes(k, 16, b)) == b,
        decrypt_bytes(k, 32, DELTA << 5u32, encrypt_bytes(k, 32, b)) == b,
        decrypt_bytes(k, 64, DELTA << 6u32, encrypt_bytes(k, 64, b)) == b,
        encrypt_bytes(k, 16, decrypt_bytes(k, 16, DELTA << 4u32, b)) == b,
        encrypt_bytes(k, 32, decrypt_bytes(k, 32, DELTA << 5u32, b)) == b,
        encrypt_bytes(k, 64, decrypt_bytes(k, 64, DELTA << 6u32, b)) == b,
{
    lemma_seeds();
    lemma_block_round_trip(k, 16, b);
    lemma_block_round_trip(k, 32, b);
    lemma_block_round_trip(k, 64, b);
}

/// Transforming a group of four blocks through the lane-parallel path gives,
/// block by block, what transforming each block alone gives.
pub proof fn lemma_group_matches_blocks(k: Seq<u32>, rounds: nat, seed: u32, g: Seq<Seq<u8>>)
    ensures
        forall|i: int|
            0 <= i < 4 ==> #[trigger] encrypt_group(k, rounds, g)[i] == encrypt_bytes(k, rounds, g[i]),
        forall|i: int|
            0 <= i < 4 ==> #[trigger] decrypt_group(k, rounds, seed, g)[i] == decrypt_bytes(
                k,
                rounds,
                seed,
                g[i],
            ),
{
}

/// Two ciphers built from the same key bytes have the same key words, so they
/// transform every block alike, whatever the round count.
pub proof fn lemma_deterministic(key: Seq<u8>, k1: Seq<u32>, k2: Seq<u32>, rounds: nat, seed: u32, b: Seq<u8>)
    requires
        k1 == key_schedule(key),
        k2 == key_schedule(key),
    ensures
        encrypt_bytes(k1, rounds, b) == encrypt_bytes(k2, rounds, b),
        decrypt_bytes(k1, rounds, seed, b) == decrypt_bytes(k2, rounds, seed, b),
{
}

} // verus!
