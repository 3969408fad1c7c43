use tea_soft::{slice_block, InvalidKeyLength, u32x4, unslice_block, LaneWord, Tea16, Tea32, Tea64, WrapArithmetic};

fn seq_key() -> [u8; 16] {
    let mut k = [0u8; 16];
    for (i, b) in k.iter_mut().enumerate() {
        *b = i as u8;
    }
    k
}

const SEQ_PLAIN: [u8; 8] = [0, 1, 2, 3, 4, 5, 6, 7];

fn bits_differ(a: &[u8; 8], b: &[u8; 8]) -> u32 {
    a.iter().zip(b.iter()).map(|(x, y)| (x ^ y).count_ones()).sum()
}

#[test]
fn tea32_zero_vector() {
    let c = Tea32::new(&[0u8; 16]);
    let mut block = [0u8; 8];
    c.encrypt_block(&mut block);
    assert_eq!(block, [0x41, 0xEA, 0x3A, 0x0A, 0x94, 0xBA, 0xA9, 0x40]);
    c.decrypt_block(&mut block);
    assert_eq!(block, [0u8; 8]);
}

#[test]
fn tea16_zero_vector() {
    let c = Tea16::new(&[0u8; 16]);
    let mut block = [0u8; 8];
    c.encrypt_block(&mut block);
    assert_eq!(block, [0xa8, 0x89, 0xf7, 0x98, 0x18, 0x2d, 0x80, 0x83]);
    c.decrypt_block(&mut block);
    assert_eq!(block, [0u8; 8]);
}

#[test]
fn tea64_zero_vector() {
    let c = Tea64::new(&[0u8; 16]);
    let mut block = [0u8; 8];
    c.encrypt_block(&mut block);
    assert_eq!(block, [0x98, 0xb8, 0xa8, 0xc0, 0x03, 0x38, 0x1c, 0x3c]);
    c.decrypt_block(&mut block);
    assert_eq!(block, [0u8; 8]);
}

#[test]
fn sequential_key_vectors_and_round_trip() {
    let key = seq_key();
    let mut b16 = SEQ_PLAIN;
    let mut b32 = SEQ_PLAIN;
    let mut b64 = SEQ_PLAIN;
    let (c16, c32, c64) = (Tea16::new(&key), Tea32::new(&key), Tea64::new(&key));
    c16.encrypt_block(&mut b16);
    c32.encrypt_block(&mut b32);
    c64.encrypt_block(&mut b64);
    assert_eq!(b16, [0x63, 0x28, 0xa5, 0x08, 0x96, 0xbd, 0xe3, 0xc8]);
    assert_eq!(b32, [0x54, 0xd5, 0x1b, 0x2b, 0xf3, 0xe4, 0x7e, 0x12]);
    assert_eq!(b64, [0xe7, 0xf2, 0x62, 0x0f, 0x02, 0xf6, 0x0e, 0x7f]);
    c16.decrypt_block(&mut b16);
    c32.decrypt_block(&mut b32);
    c64.decrypt_block(&mut b64);
    assert_eq!(b16, SEQ_PLAIN);
    assert_eq!(b32, SEQ_PLAIN);
    assert_eq!(b64, SEQ_PLAIN);
}

#[test]
fn all_ones_round_trip_both_ways() {
    let c = Tea32::new(&[0xff; 16]);
    let mut block = [0xff; 8];
    c.encrypt_block(&mut block);
    assert_eq!(block, [0x31, 0x9b, 0xbe, 0xfb, 0x01, 0x6a, 0xbd, 0xb2]);
    c.decrypt_block(&mut block);
    assert_eq!(block, [0xff; 8]);
    c.decrypt_block(&mut block);
    assert_ne!(block, [0xff; 8]);
    c.encrypt_block(&mut block);
    assert_eq!(block, [0xff; 8]);
}

#[test]
fn group_matches_single_blocks() {
    let key = seq_key();
    let c = Tea32::new(&key);
    let mut group = [[0u8; 8]; 4];
    for (i, b) in group.iter_mut().enumerate() {
        for (j, v) in b.iter_mut().enumerate() {
            *v = (i * 8 + j) as u8;
        }
    }
    let original = group;
    let mut singles = group;
    c.encrypt_blocks(&mut group);
    for b in singles.iter_mut() {
        c.encrypt_block(b);
    }
    assert_eq!(group, singles);
    assert_eq!(group[0], [0x54, 0xd5, 0x1b, 0x2b, 0xf3, 0xe4, 0x7e, 0x12]);
    assert_eq!(group[1], [0x1e, 0x66, 0x5d, 0x66, 0x0b, 0x6f, 0x6e, 0xd6]);
    assert_eq!(group[2], [0xc6, 0xac, 0xd5, 0x50, 0x88, 0x19, 0x8a, 0xbe]);
    assert_eq!(group[3], [0x8d, 0x06, 0xb9, 0x3f, 0x54, 0x10, 0x69, 0xb4]);
    c.decrypt_blocks(&mut group);
    assert_eq!(group, original);
}

#[test]
fn group_matches_single_blocks_all_variants() {
    let key = seq_key();
    let group = [[1u8; 8], [2u8; 8], [0u8; 8], [0xffu8; 8]];
    let mut g16 = group;
    let mut g64 = group;
    let (c16, c64) = (Tea16::new(&key), Tea64::new(&key));
    c16.decrypt_blocks(&mut g16);
    c64.decrypt_blocks(&mut g64);
    for i in 0..4 {
        let mut b16 = group[i];
        let mut b64 = group[i];
        c16.decrypt_block(&mut b16);
        c64.decrypt_block(&mut b64);
        assert_eq!(g16[i], b16);
        assert_eq!(g64[i], b64);
    }
    c16.encrypt_blocks(&mut g16);
    c64.encrypt_blocks(&mut g64);
    assert_eq!(g16, group);
    assert_eq!(g64, group);
}

#[test]
fn same_key_same_output() {
    let key = seq_key();
    let (a, b) = (Tea64::new(&key), Tea64::new(&key));
    let mut x = SEQ_PLAIN;
    let mut y = SEQ_PLAIN;
    a.encrypt_block(&mut x);
    b.encrypt_block(&mut y);
    assert_eq!(x, y);
    let (a, b) = (Tea16::new(&key), Tea16::new(&key));
    a.decrypt_block(&mut x);
    b.decrypt_block(&mut y);
    assert_eq!(x, y);
}

#[test]
fn one_bit_flip_changes_many_output_bits() {
    let key = seq_key();
    let mut flipped_key = key;
    flipped_key[0] ^= 0x80;
    let mut flipped_plain = SEQ_PLAIN;
    flipped_plain[0] ^= 1;
    for rounds in [16u32, 32, 64] {
        let (mut a, mut b, mut c) = (SEQ_PLAIN, flipped_plain, SEQ_PLAIN);
        match rounds {
            16 => {
                Tea16::new(&key).encrypt_block(&mut a);
                Tea16::new(&key).encrypt_block(&mut b);
                Tea16::new(&flipped_key).encrypt_block(&mut c);
            }
            32 => {
                Tea32::new(&key).encrypt_block(&mut a);
                Tea32::new(&key).encrypt_block(&mut b);
                Tea32::new(&flipped_key).encrypt_block(&mut c);
            }
            _ => {
                Tea64::new(&key).encrypt_block(&mut a);
                Tea64::new(&key).encrypt_block(&mut b);
                Tea64::new(&flipped_key).encrypt_block(&mut c);
            }
        }
        assert!(bits_differ(&a, &b) >= 16);
        assert!(bits_differ(&a, &c) >= 16);
    }
}

#[test]
fn variant_constants() {
    assert_eq!((Tea16::ROUNDS, Tea16::SHIFT), (16, 4));
    assert_eq!((Tea32::ROUNDS, Tea32::SHIFT), (32, 5));
    assert_eq!((Tea64::ROUNDS, Tea64::SHIFT), (64, 6));
}

#[test]
fn slice_and_unslice_keep_lane_order() {
    let blocks = [
        [0x00, 0x01, 0x02, 0x03, 0x04, 0x05, 0x06, 0x07],
        [0x10, 0x11, 0x12, 0x13, 0x14, 0x15, 0x16, 0x17],
        [0x20, 0x21, 0x22, 0x23, 0x24, 0x25, 0x26, 0x27],
        [0x30, 0x31, 0x32, 0x33, 0x34, 0x35, 0x36, 0x37],
    ];
    let (xs, ys) = slice_block(&blocks);
    assert_eq!(xs, u32x4(0x00010203, 0x10111213, 0x20212223, 0x30313233));
    assert_eq!(ys, u32x4(0x04050607, 0x14151617, 0x24252627, 0x34353637));
    let mut out = [[0u8; 8]; 4];
    unslice_block(xs, ys, &mut out);
    assert_eq!(out, blocks);
}

#[test]
fn lane_arithmetic_wraps_per_lane() {
    let v = u32x4(u32::MAX, 0, 5, 0x8000_0000);
    assert_eq!(<u32x4 as WrapArithmetic<u32>>::wrapping_add(v, 1), u32x4(0, 1, 6, 0x8000_0001));
    assert_eq!(<u32x4 as WrapArithmetic<u32>>::wrapping_sub(v, 1), u32x4(u32::MAX - 1, u32::MAX, 4, 0x7fff_ffff));
    let w = u32x4(1, 2, 3, 0x8000_0000);
    assert_eq!(<u32x4 as WrapArithmetic<u32x4>>::wrapping_add(v, w), u32x4(0, 2, 8, 0));
    assert_eq!(<u32x4 as WrapArithmetic<u32x4>>::wrapping_sub(v, w), u32x4(u32::MAX - 1, u32::MAX - 1, 2, 0));
    assert_eq!(<u32 as WrapArithmetic<u32>>::wrapping_add(u32::MAX, 2), 1);
    assert_eq!(<u32 as WrapArithmetic<u32>>::wrapping_sub(0, 1), u32::MAX);
}

#[test]
fn lane_bit_operations() {
    let v = u32x4(0x8000_0001, 0xF0, 1, 0xFFFF_FFFF);
    assert_eq!(v.shl(4), u32x4(0x10, 0xF00, 0x10, 0xFFFF_FFF0));
    assert_eq!(v.shr(5), u32x4(0x0400_0000, 0x7, 0, 0x07FF_FFFF));
    assert_eq!(v.xor(u32x4(1, 0xFF, 1, 0)), u32x4(0x8000_0000, 0x0F, 0, 0xFFFF_FFFF));
    assert_eq!(LaneWord::shl(0x8000_0001u32, 4), 0x10);
    assert_eq!(LaneWord::shr(0x8000_0001u32, 5), 0x0400_0000);
    assert_eq!(LaneWord::xor(0xF0u32, 0xFF), 0x0F);
}

#[test]
fn varkey_rejects_wrong_length() {
    assert_eq!(Tea16::new_varkey(&[0u8; 15]).err(), Some(InvalidKeyLength));
    assert_eq!(Tea32::new_varkey(&[0u8; 17]).err(), Some(InvalidKeyLength));
    assert_eq!(Tea64::new_varkey(&[]).err(), Some(InvalidKeyLength));
}

#[test]
fn varkey_accepts_sixteen_bytes() {
    let key = seq_key();
    let c = Tea32::new_varkey(&key[..]).unwrap();
    let mut block = SEQ_PLAIN;
    c.encrypt_block(&mut block);
    assert_eq!(block, [0x54, 0xd5, 0x1b, 0x2b, 0xf3, 0xe4, 0x7e, 0x12]);
    assert!(Tea16::new_varkey(&key[..]).is_ok());
    assert!(Tea64::new_varkey(&key[..]).is_ok());
}
