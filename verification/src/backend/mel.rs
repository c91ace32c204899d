//! Framing of audio for spectrograms: how many frames there are, the padding
//! around them, and the noise that breaks up silence. What is computed of the
//! frames is computed outside.

use vstd::prelude::*;

use crate::samples::append_all;

verus! {

/// Bands of a spectrogram.
pub const MEL_BINS: usize = 128;

/// Samples from one frame to the next.
pub const HOP_SIZE: usize = 160;

/// How many windows of `window` samples, `hop` apart, fit in `len` samples.
pub open spec fn frames_in(len: int, window: int, hop: int) -> int {
    if len >= window {
        (len - window) / hop + 1
    } else {
        0
    }
}

/// How many windows of `window` samples, `hop` apart, fit in `len` samples.
pub fn frame_count(len: usize, window: usize, hop: usize) -> (r: usize)
    requires
        hop > 0,
        window > 0,
    ensures
        r == frames_in(len as int, window as int, hop as int),
{
    if len >= window {
        let steps: usize = (len - window) / hop;
        assert(steps <= len - window) by (nonlinear_arith)
            requires
                steps == (len - window) / hop as int,
                hop >= 1,
                len >= window,
        ;
        steps + 1
    } else {
        0
    }
}

/// Every window that is counted lies within the samples, and one more would
/// not.
pub proof fn law_frames_fit(len: int, window: int, hop: int, k: int)
    requires
        hop > 0,
        window > 0,
        len >= 0,
        k >= 0,
    ensures
        k < frames_in(len, window, hop) <==> k * hop + window <= len,
{
    if len >= window {
        let q = (len - window) / hop;
        vstd::arithmetic::div_mod::lemma_fundamental_div_mod(len - window, hop);
        let rem = (len - window) % hop;
        assert(0 <= rem < hop) by {
            vstd::arithmetic::div_mod::lemma_mod_bound(len - window, hop);
        }
        assert(hop * q == q * hop) by (nonlinear_arith);
        if k <= q {
            assert(k * hop <= q * hop) by (nonlinear_arith)
                requires
                    k <= q,
                    hop > 0,
            ;
        } else {
            assert(k * hop >= q * hop + hop) by (nonlinear_arith)
                requires
                    k >= q + 1,
                    hop > 0,
            ;
        }
    } else {
        assert(k * hop >= 0) by (nonlinear_arith)
            requires
                k >= 0,
                hop > 0,
        ;
    }
}

/// `x` with `p` samples before and after it: its mirror image at either end,
/// without the end itself; `zero` where it is too short for that.
pub open spec fn padded<S>(x: Seq<S>, p: int, zero: S) -> Seq<S> {
    let n = x.len() as int;
    if n <= p {
        Seq::new(p as nat, |i: int| zero) + x + Seq::new(p as nat, |i: int| zero)
    } else {
        Seq::new(p as nat, |k: int| x[p - k]) + x + Seq::new(p as nat, |k: int| x[n - 2 - k])
    }
}

/// Pads samples at either end by their mirror image.
pub fn reflect_pad<S: Copy>(x: &[S], p: usize, zero: S) -> (r: Vec<S>)
    ensures
        r@ == padded(x@, p as int, zero),
{
    let n: usize = x.len();
    let mut r: Vec<S> = Vec::new();
    let mut k: usize = 0;
    while k < p
        invariant
            k <= p,
            n == x@.len(),
            r@.len() == k,
            forall|i: int| 0 <= i < k ==> #[trigger] r@[i] == padded(x@, p as int, zero)[i],
        decreases p - k,
    {
        r.push(if n <= p { zero } else { x[p - k] });
        k += 1;
    }
    append_all(&mut r, x);
    let ghost front = r@;
    let mut j: usize = 0;
    while j < p
        invariant
            j <= p,
            n == x@.len(),
            r@.len() == p + n + j,
            forall|i: int| 0 <= i < p ==> #[trigger] r@[i] == padded(x@, p as int, zero)[i],
            forall|i: int| 0 <= i < n ==> #[trigger] r@[p + i] == x@[i],
            forall|i: int|
                0 <= i < j ==> #[trigger] r@[p + n + i] == padded(x@, p as int, zero)[p + n + i],
        decreases p - j,
    {
        let ghost before = r@;
        r.push(if n <= p { zero } else { x[n - 2 - j] });
        assert forall|i: int| 0 <= i < n implies #[trigger] r@[p + i] == x@[i] by {
            assert(before[p + i] == x@[i]);
        }
        assert forall|i: int| 0 <= i < j + 1 implies #[trigger] r@[p + n + i] == padded(
            x@,
            p as int,
            zero,
        )[p + n + i] by {
            if i < j {
                assert(before[p + n + i] == padded(x@, p as int, zero)[p + n + i]);
            }
        }
        j += 1;
    }
    assert(r@ =~= padded(x@, p as int, zero)) by {
        assert forall|i: int| 0 <= i < r@.len() implies r@[i] == padded(x@, p as int, zero)[i] by {
            if p <= i < p + n {
                assert(r@[p + (i - p)] == x@[i - p]);
            } else if i >= p + n {
                assert(r@[p + n + (i - p - n)] == padded(x@, p as int, zero)[p + n + (i - p - n)]);
            }
        }
    }
    r
}

/// What the noise generator starts from.
pub const DITHER_SEED: u32 = 0x9E37_79B9;

/// The noise generator's next state.
pub open spec fn xorshift(s: u32) -> u32 {
    let a = s ^ (s << 13);
    let b = a ^ (a >> 17);
    b ^ (b << 5)
}

/// The noise generator's next state.
pub fn next_noise(s: u32) -> (r: u32)
    ensures
        r == xorshift(s),
{
    let a: u32 = s ^ (s << 13);
    let b: u32 = a ^ (a >> 17);
    b ^ (b << 5)
}

/// The noise never dries up: from any state but zero, zero is never reached.
pub proof fn law_noise_never_dries_up(s: u32)
    requires
        s != 0,
    ensures
        xorshift(s) != 0,
{
    assert(s != 0 ==> s ^ (s << 13) != 0) by (bit_vector);
    let a = s ^ (s << 13);
    assert(a != 0 ==> a ^ (a >> 17) != 0) by (bit_vector);
    let b = a ^ (a >> 17);
    assert(b != 0 ==> b ^ (b << 5) != 0) by (bit_vector);
}

/// Padding mirrors the samples at either end, about the end itself, and leaves
/// them as they are in between; samples too short to be mirrored are padded with
/// zeros.
pub proof fn law_padding_mirrors<S>(x: Seq<S>, p: int, zero: S, k: int)
    requires
        0 <= k <= p,
    ensures
        ({
            let r = padded(x, p, zero);
            let n = x.len() as int;
            &&& r.len() == n + 2 * p
            &&& r.subrange(p, p + n) == x
            &&& n > p ==> r[p - k] == r[p + k]
            &&& n > p ==> r[p + n - 1 + k] == r[p + n - 1 - k]
            &&& n <= p && k > 0 ==> r[p - k] == zero && r[p + n - 1 + k] == zero
        }),
{
    assert(padded(x, p, zero).subrange(p, p + x.len()) =~= x);
}

} // verus!
