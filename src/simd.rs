//! The word-like values that the round function runs on: a plain `u32` (one
//! block) and a four-lane `u32x4` (four blocks at once, lane `i` from block `i`).
use crate::bytes::{be_bytes, load_word, store_words, word_at};
use vstd::prelude::*;

verus! {

/// Four 32-bit lanes, operated on independently.
#[allow(non_camel_case_types)]
#[derive(Clone, Copy, PartialEq, Eq, Structural, Debug)]
pub struct u32x4(pub u32, pub u32, pub u32, pub u32);

/// Lane `i` of an operand: a one-lane operand is applied to every lane.
pub open spec fn lane(s: Seq<u32>, i: int) -> u32 {
    if s.len() == 1 {
        s[0]
    } else {
        s[i]
    }
}

/// A value made of `width()` independent 32-bit lanes, with lane-wise XOR and
/// shifts.
pub trait LaneWord: Sized + Copy {
    /// The lanes of the value, in order.
    spec fn lanes(&self) -> Seq<u32>;

    /// The number of lanes of every value of the type.
    spec fn width() -> nat;

    /// Every value has `width()` lanes, and at least one.
    proof fn lemma_width(&self)
        ensures
            self.lanes().len() == Self::width(),
            Self::width() >= 1,
    ;

    /// Lane-wise exclusive or.
    fn xor(self, rhs: Self) -> (r: Self)
        ensures
            r.lanes() == Seq::new(Self::width(), |i: int| self.lanes()[i] ^ rhs.lanes()[i]),
    ;

    /// Shifts every lane left by `n` bits, dropping the bits shifted out.
    fn shl(self, n: u32) -> (r: Self)
        requires
            n < 32,
        ensures
            r.lanes() == Seq::new(Self::width(), |i: int| self.lanes()[i] << n),
    ;

    /// Shifts every lane right by `n` bits, filling with zeros.
    fn shr(self, n: u32) -> (r: Self)
        requires
            n < 32,
        ensures
            r.lanes() == Seq::new(Self::width(), |i: int| self.lanes()[i] >> n),
    ;
}

/// Lane-wise addition and subtraction modulo 2^32 of an operand of type `T`,
/// which has either one lane (applied to every lane) or as many as `Self`.
pub trait WrapArithmetic<T: LaneWord>: LaneWord {
    /// Adds `rhs` to every lane, modulo 2^32.
    fn wrapping_add(self, rhs: T) -> (r: Self)
        requires
            T::width() == 1 || T::width() == Self::width(),
        ensures
            r.lanes() == Seq::new(
                Self::width(),
                |i: int| (self.lanes()[i] + lane(rhs.lanes(), i)) as u32,
            ),
    ;

    /// Subtracts `rhs` from every lane, modulo 2^32.
    fn wrapping_sub(self, rhs: T) -> (r: Self)
        requires
            T::width() == 1 || T::width() == Self::width(),
        ensures
            r.lanes() == Seq::new(
                Self::width(),
                |i: int| (self.lanes()[i] - lane(rhs.lanes(), i)) as u32,
            ),
    ;
}

impl LaneWord for u32 {
    open spec fn lanes(&self) -> Seq<u32> {
        seq![*self]
    }

    open spec fn width() -> nat {
        1
    }

    /// Every value has `width()` lanes, and at least one.
    proof fn lemma_width(&self) {
    }

    fn xor(self, rhs: u32) -> (r: u32) {
        let r = self ^ rhs;
        assert(r.lanes() =~= Seq::new(1, |i: int| self.lanes()[i] ^ rhs.lanes()[i]));
        r
    }

    fn shl(self, n: u32) -> (r: u32) {
        let r = self << n;
        assert(r.lanes() =~= Seq::new(1, |i: int| self.lanes()[i] << n));
        r
    }

    fn shr(self, n: u32) -> (r: u32) {
        let r = self >> n;
        assert(r.lanes() =~= Seq::new(1, |i: int| self.lanes()[i] >> n));
        r
    }
}

/// `wrapping_add` and `wrapping_sub` of `u32` are `+` and `-` reduced to 32 bits.
pub(crate) proof fn lemma_wrapping(a: u32, b: u32)
    ensures
        a.wrapping_add(b) == (a + b) as u32,
        a.wrapping_sub(b) == (a - b) as u32,
{
    let s = a.wrapping_add(b);
    let d = a.wrapping_sub(b);
    assert(s == (a + b) as u32) by (bit_vector)
        requires
            s == (if a + b > u32::MAX { a + b - (u32::MAX + 1) } else { a + b }),
    ;
    assert(d == (a - b) as u32) by (bit_vector)
        requires
            d == (if a - b < 0 { a - b + (u32::MAX + 1) } else { a - b }),
    ;
}

impl WrapArithmetic<u32> for u32 {
    fn wrapping_add(self, rhs: u32) -> (r: u32) {
        let r = u32::wrapping_add(self, rhs);
        proof {
            lemma_wrapping(self, rhs);
        }
        assert(r.lanes() =~= Seq::new(1, |i: int| (self.lanes()[i] + lane(rhs.lanes(), i)) as u32));
        r
    }

    fn wrapping_sub(self, rhs: u32) -> (r: u32) {
        let r = u32::wrapping_sub(self, rhs);
        proof {
            lemma_wrapping(self, rhs);
        }
        assert(r.lanes() =~= Seq::new(1, |i: int| (self.lanes()[i] - lane(rhs.lanes(), i)) as u32));
        r
    }
}

impl u32x4 {
    /// The four lanes, in order.
    pub open spec fn view_lanes(self) -> Seq<u32> {
        seq![self.0, self.1, self.2, self.3]
    }
}

impl LaneWord for u32x4 {
    open spec fn lanes(&self) -> Seq<u32> {
        self.view_lanes()
    }

    open spec fn width() -> nat {
        4
    }

    /// Every value has `width()` lanes, and at least one.
    proof fn lemma_width(&self) {
    }

    fn xor(self, rhs: u32x4) -> (r: u32x4) {
        let r = u32x4(self.0 ^ rhs.0, self.1 ^ rhs.1, self.2 ^ rhs.2, self.3 ^ rhs.3);
        assert(r.lanes() =~= Seq::new(4, |i: int| self.lanes()[i] ^ rhs.lanes()[i]));
        r
    }

    fn shl(self, n: u32) -> (r: u32x4) {
        let r = u32x4(self.0 << n, self.1 << n, self.2 << n, self.3 << n);
        assert(r.lanes() =~= Seq::new(4, |i: int| self.lanes()[i] << n));
        r
    }

    fn shr(self, n: u32) -> (r: u32x4) {
        let r = u32x4(self.0 >> n, self.1 >> n, self.2 >> n, self.3 >> n);
        assert(r.lanes() =~= Seq::new(4, |i: int| self.lanes()[i] >> n));
        r
    }
}

impl WrapArithmetic<u32> for u32x4 {
    fn wrapping_add(self, rhs: u32) -> (r: u32x4) {
        let r = u32x4(
            self.0.wrapping_add(rhs),
            self.1.wrapping_add(rhs),
            self.2.wrapping_add(rhs),
            self.3.wrapping_add(rhs),
        );
        proof {
            lemma_wrapping(self.0, rhs);
            lemma_wrapping(self.1, rhs);
            lemma_wrapping(self.2, rhs);
            lemma_wrapping(self.3, rhs);
        }
        assert(r.lanes() =~= Seq::new(4, |i: int| (self.lanes()[i] + lane(rhs.lanes(), i)) as u32));
        r
    }

    fn wrapping_sub(self, rhs: u32) -> (r: u32x4) {
        let r = u32x4(
            self.0.wrapping_sub(rhs),
            self.1.wrapping_sub(rhs),
            self.2.wrapping_sub(rhs),
            self.3.wrapping_sub(rhs),
        );
        proof {
            lemma_wrapping(self.0, rhs);
            lemma_wrapping(self.1, rhs);
            lemma_wrapping(self.2, rhs);
            lemma_wrapping(self.3, rhs);
        }
        assert(r.lanes() =~= Seq::new(4, |i: int| (self.lanes()[i] - lane(rhs.lanes(), i)) as u32));
        r
    }
}

impl WrapArithmetic<u32x4> for u32x4 {
    fn wrapping_add(self, rhs: u32x4) -> (r: u32x4) {
        let r = u32x4(
            self.0.wrapping_add(rhs.0),
            self.1.wrapping_add(rhs.1),
            self.2.wrapping_add(rhs.2),
            self.3.wrapping_add(rhs.3),
        );
        proof {
            lemma_wrapping(self.0, rhs.0);
            lemma_wrapping(self.1, rhs.1);
            lemma_wrapping(self.2, rhs.2);
            lemma_wrapping(self.3, rhs.3);
        }
        assert(r.lanes() =~= Seq::new(4, |i: int| (self.lanes()[i] + lane(rhs.lanes(), i)) as u32));
        r
    }

    fn wrapping_sub(self, rhs: u32x4) -> (r: u32x4) {
        let r = u32x4(
            self.0.wrapping_sub(rhs.0),
            self.1.wrapping_sub(rhs.1),
            self.2.wrapping_sub(rhs.2),
            self.3.wrapping_sub(rhs.3),
        );
        proof {
            lemma_wrapping(self.0, rhs.0);
            lemma_wrapping(self.1, rhs.1);
            lemma_wrapping(self.2, rhs.2);
            lemma_wrapping(self.3, rhs.3);
        }
        assert(r.lanes() =~= Seq::new(4, |i: int| (self.lanes()[i] - lane(rhs.lanes(), i)) as u32));
        r
    }
}

/// Loads four blocks into two lane vectors: lane `i` of the first holds the
/// first word of block `i`, lane `i` of the second its second word.
pub fn slice_block(blocks: &[[u8; 8]; 4]) -> (r: (u32x4, u32x4))
    ensures
        forall|i: int|
            0 <= i < 4 ==> r.0.view_lanes()[i] == word_at(#[trigger] blocks@[i]@, 0)
                && r.1.view_lanes()[i] == word_at(blocks@[i]@, 4),
{
    let b0 = blocks[0];
    let b1 = blocks[1];
    let b2 = blocks[2];
    let b3 = blocks[3];
    let xs = u32x4(load_word(&b0, 0), load_word(&b1, 0), load_word(&b2, 0), load_word(&b3, 0));
    let ys = u32x4(load_word(&b0, 4), load_word(&b1, 4), load_word(&b2, 4), load_word(&b3, 4));
    (xs, ys)
}

/// Stores two lane vectors back into four blocks: block `i` gets lane `i` of
/// `xs` as its first word and lane `i` of `ys` as its second.
pub fn unslice_block(xs: u32x4, ys: u32x4, blocks: &mut [[u8; 8]; 4])
    ensures
        forall|i: int|
            0 <= i < 4 ==> (#[trigger] final(blocks)@[i])@ == be_bytes(xs.view_lanes()[i]) + be_bytes(
                ys.view_lanes()[i],
            ),
{
    *blocks = [
        store_words(xs.0, ys.0),
        store_words(xs.1, ys.1),
        store_words(xs.2, ys.2),
        store_words(xs.3, ys.3),
    ];
}

} // verus!
