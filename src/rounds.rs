//! The round functions, written once for every word-like type: on `u32` they
//! transform one block, on `u32x4` four blocks lane by lane.
use crate::model::{decrypt_rounds, encrypt_rounds, mix, sum_at, DELTA};
use crate::simd::{lane, lemma_wrapping, LaneWord, WrapArithmetic};
use vstd::prelude::*;

verus! {

/// The value that `mix` gives in each lane of `v`, computed lane-wise.
fn mix_lanes<T: WrapArithmetic<T> + WrapArithmetic<u32>>(v: T, ka: u32, kb: u32, sum: u32) -> (r: T)
    ensures
        forall|i: int|
            0 <= i < T::width() ==> #[trigger] r.lanes()[i] == mix(v.lanes()[i], ka, kb, sum),
{
    let a = <T as WrapArithmetic<u32>>::wrapping_add(v.shl(4), ka);
    let b = <T as WrapArithmetic<u32>>::wrapping_add(v, sum);
    let c = <T as WrapArithmetic<u32>>::wrapping_add(v.shr(5), kb);
    let r = a.xor(b).xor(c);
    assert forall|i: int| 0 <= i < T::width() implies #[trigger] r.lanes()[i] == mix(
        v.lanes()[i],
        ka,
        kb,
        sum,
    ) by {
        assert(lane(ka.lanes(), i) == ka);
        assert(lane(sum.lanes(), i) == sum);
        assert(lane(kb.lanes(), i) == kb);
    }
    r
}

/// Runs `rounds` encryption rounds under key words `key` on each lane pair of
/// `(x, y)`.
pub fn encrypt_core<T: WrapArithmetic<T> + WrapArithmetic<u32>>(
    key: &[u32; 4],
    rounds: u32,
    x: T,
    y: T,
) -> (r: (T, T))
    ensures
        forall|i: int|
            0 <= i < T::width() ==> (#[trigger] r.0.lanes()[i], r.1.lanes()[i]) == encrypt_rounds(
                key@,
                rounds as nat,
                x.lanes()[i],
                y.lanes()[i],
            ),
{
    let k0 = key[0];
    let k1 = key[1];
    let k2 = key[2];
    let k3 = key[3];
    let mut sum: u32 = 0;
    let (mut x1, mut y1) = (x, y);
    let mut j: u32 = 0;
    while j < rounds
        invariant
            j <= rounds,
            sum == sum_at(j as nat),
            k0 == key@[0],
            k1 == key@[1],
            k2 == key@[2],
            k3 == key@[3],
            forall|i: int|
                0 <= i < T::width() ==> (#[trigger] x1.lanes()[i], y1.lanes()[i])
                    == encrypt_rounds(key@, j as nat, x.lanes()[i], y.lanes()[i]),
        decreases rounds - j,
    {
        proof {
            lemma_wrapping(sum, DELTA);
        }
        sum = sum.wrapping_add(DELTA);
        let mx = mix_lanes(y1, k0, k1, sum);
        let x2 = <T as WrapArithmetic<T>>::wrapping_add(x1, mx);
        let my = mix_lanes(x2, k2, k3, sum);
        let y2 = <T as WrapArithmetic<T>>::wrapping_add(y1, my);
        assert forall|i: int| 0 <= i < T::width() implies (#[trigger] x2.lanes()[i], y2.lanes()[i])
            == encrypt_rounds(key@, (j + 1) as nat, x.lanes()[i], y.lanes()[i]) by {
            x1.lemma_width();
            mx.lemma_width();
            my.lemma_width();
            let p = encrypt_rounds(key@, j as nat, x.lanes()[i], y.lanes()[i]);
            assert(p == (x1.lanes()[i], y1.lanes()[i]));
            assert(x2.lanes()[i] == (x1.lanes()[i] + mx.lanes()[i]) as u32);
            assert(y2.lanes()[i] == (y1.lanes()[i] + my.lanes()[i]) as u32);
        }
        x1 = x2;
        y1 = y2;
        j = j + 1;
    }
    (x1, y1)
}

/// Runs `rounds` decryption rounds under key words `key` on each lane pair of
/// `(x, y)`, the accumulator starting at `seed`.
pub fn decrypt_core<T: WrapArithmetic<T> + WrapArithmetic<u32>>(
    key: &[u32; 4],
    rounds: u32,
    seed: u32,
    x: T,
    y: T,
) -> (r: (T, T))
    ensures
        forall|i: int|
            0 <= i < T::width() ==> (#[trigger] r.0.lanes()[i], r.1.lanes()[i]) == decrypt_rounds(
                key@,
                rounds as nat,
                seed,
                x.lanes()[i],
                y.lanes()[i],
            ),
{
    let k0 = key[0];
    let k1 = key[1];
    let k2 = key[2];
    let k3 = key[3];
    let mut sum: u32 = seed;
    let (mut x1, mut y1) = (x, y);
    let mut j: u32 = 0;
    while j < rounds
        invariant
            j <= rounds,
            k0 == key@[0],
            k1 == key@[1],
            k2 == key@[2],
            k3 == key@[3],
            forall|i: int|
                0 <= i < T::width() ==> decrypt_rounds(
                    key@,
                    rounds as nat,
                    seed,
                    x.lanes()[i],
                    y.lanes()[i],
                ) == decrypt_rounds(
                    key@,
                    (rounds - j) as nat,
                    sum,
                    #[trigger] x1.lanes()[i],
                    y1.lanes()[i],
                ),
        decreases rounds - j,
    {
        let my = mix_lanes(x1, k2, k3, sum);
        let y2 = <T as WrapArithmetic<T>>::wrapping_sub(y1, my);
        let mx = mix_lanes(y2, k0, k1, sum);
        let x2 = <T as WrapArithmetic<T>>::wrapping_sub(x1, mx);
        let sum2 = sum.wrapping_sub(DELTA);
        assert forall|i: int| 0 <= i < T::width() implies decrypt_rounds(
            key@,
            (rounds - j) as nat,
            sum,
            #[trigger] x1.lanes()[i],
            y1.lanes()[i],
        ) == decrypt_rounds(key@, (rounds - (j + 1)) as nat, sum2, x2.lanes()[i], y2.lanes()[i]) by {
            mx.lemma_width();
            my.lemma_width();
            lemma_wrapping(sum, DELTA);
            assert(y2.lanes()[i] == (y1.lanes()[i] - my.lanes()[i]) as u32);
            assert(x2.lanes()[i] == (x1.lanes()[i] - mx.lanes()[i]) as u32);
        }
        x1 = x2;
        y1 = y2;
        sum = sum2;
        j = j + 1;
    }
    (x1, y1)
}

} // verus!
