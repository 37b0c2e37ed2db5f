//! Short-time energy: the sum of squared amplitudes over 100 ms windows.

use vstd::prelude::*;
use vstd::arithmetic::div_mod::{lemma_fundamental_div_mod, lemma_mod_pos_bound};

verus! {

/// The unsigned value that stands for zero amplitude in 16-bit audio.
pub const ZERO_POINT: i64 = 32768;

/// Signed amplitude of an unsigned 16-bit sample.
pub open spec fn amplitude(s: u16) -> int {
    s - 32768
}

/// Sum of the squared amplitudes of `s`.
pub open spec fn energy_of(s: Seq<u16>) -> int
    decreases s.len(),
{
    if s.len() == 0 {
        0
    } else {
        energy_of(s.drop_last()) + amplitude(s.last()) * amplitude(s.last())
    }
}

/// Number of windows of `w` samples that cover `n` samples, the last one possibly short.
pub open spec fn window_count(n: nat, w: nat) -> nat {
    ((n + w - 1) / (w as int)) as nat
}

/// The samples of window `k`: from `k * w` up to `(k + 1) * w`, cut at the end of `s`.
pub open spec fn window_of(s: Seq<u16>, w: nat, k: int) -> Seq<u16> {
    let end = if (k + 1) * w < s.len() {
        (k + 1) * w
    } else {
        s.len() as int
    };
    s.subrange(k * w, end)
}

/// The energy envelope of `s` with windows of `w` samples.
pub open spec fn envelope_of(s: Seq<u16>, w: nat) -> Seq<int> {
    Seq::new(window_count(s.len(), w), |k: int| energy_of(window_of(s, w, k)))
}

/// Window `k` starts inside the samples, so it is one of the windows; when it
/// reaches the end, it is the last one.
proof fn lemma_window_count(n: nat, w: nat, k: nat)
    requires
        w >= 1,
        k * w < n,
    ensures
        k < window_count(n, w),
        n <= (k + 1) * w ==> window_count(n, w) == k + 1,
{
    let x: int = n + w - 1;
    lemma_fundamental_div_mod(x, w as int);
    lemma_mod_pos_bound(x, w as int);
    let q: int = x / (w as int);
    let r: int = x % (w as int);
    assert(k < q) by (nonlinear_arith)
        requires
            x == w * q + r,
            0 <= r < w,
            x == n + w - 1,
            k * w < n,
            w >= 1,
    ;
    if n <= (k + 1) * w {
        assert(q <= k + 1) by (nonlinear_arith)
            requires
                x == w * q + r,
                0 <= r < w,
                x == n + w - 1,
                n <= (k + 1) * w,
                w >= 1,
        ;
    }
}

/// Window `j + 1` exists only where window `j` is full and ends inside the samples.
proof fn lemma_full_window(n: nat, w: nat, j: nat)
    requires
        w >= 1,
        j + 1 < window_count(n, w),
    ensures
        (j + 1) * w < n,
{
    let x: int = n + w - 1;
    lemma_fundamental_div_mod(x, w as int);
    lemma_mod_pos_bound(x, w as int);
    let q: int = x / (w as int);
    let r: int = x % (w as int);
    assert((j + 1) * w < n) by (nonlinear_arith)
        requires
            x == w * q + r,
            0 <= r < w,
            x == n + w - 1,
            j + 1 < q,
            w >= 1,
    ;
}

/// Equal samples: the energy is the count times one squared amplitude.
pub proof fn lemma_energy_of_constant(s: Seq<u16>, c: u16)
    requires
        forall|i: int| 0 <= i < s.len() ==> s[i] == c,
    ensures
        energy_of(s) == s.len() * (amplitude(c) * amplitude(c)),
    decreases s.len(),
{
    if s.len() > 0 {
        lemma_energy_of_constant(s.drop_last(), c);
        let sq = amplitude(c) * amplitude(c);
        let m = s.len() - 1;
        assert(m * sq + sq == s.len() * sq) by (nonlinear_arith)
            requires
                m == s.len() - 1,
        ;
    }
}

/// The envelope of a stream of equal samples never rises from one window to the next.
pub proof fn lemma_constant_envelope_never_rises(s: Seq<u16>, c: u16, w: nat, j: int)
    requires
        w >= 1,
        forall|i: int| 0 <= i < s.len() ==> s[i] == c,
        0 <= j,
        j + 1 < window_count(s.len(), w),
    ensures
        envelope_of(s, w)[j + 1] <= envelope_of(s, w)[j],
{
    lemma_full_window(s.len(), w, j as nat);
    let a = window_of(s, w, j);
    let b = window_of(s, w, j + 1);
    assert((j + 1) * w == j * w + w) by (nonlinear_arith);
    assert((j + 2) * w == (j + 1) * w + w) by (nonlinear_arith);
    assert(0 <= j * w) by (nonlinear_arith)
        requires
            0 <= j,
    ;
    assert(a.len() == w);
    assert(b.len() <= w);
    lemma_energy_of_constant(a, c);
    lemma_energy_of_constant(b, c);
    lemma_square_bound(c);
    let sq = amplitude(c) * amplitude(c);
    let lb = b.len();
    assert(lb * sq <= w * sq) by (nonlinear_arith)
        requires
            lb <= w,
            sq >= 0,
    ;
}

/// Squared amplitude is at most `2^30`.
proof fn lemma_square_bound(s: u16)
    ensures
        0 <= amplitude(s) * amplitude(s) <= 0x4000_0000,
{
    let a = amplitude(s);
    assert(-32768 <= a <= 32767);
    assert(0 <= a * a <= 0x4000_0000) by (nonlinear_arith)
        requires
            -32768 <= a <= 32767,
    ;
}

/// Energy of the samples from `start` up to `end`: at most `2^30` per sample.
fn window_energy(samples: &Vec<u16>, start: usize, end: usize) -> (e: u64)
    requires
        start <= end <= samples@.len(),
        end - start <= 0x2000_0000,
    ensures
        e == energy_of(samples@.subrange(start as int, end as int)),
{
    let mut acc: u64 = 0;
    let mut j: usize = start;
    while j < end
        invariant
            start <= j <= end <= samples@.len(),
            end - start <= 0x2000_0000,
            acc == energy_of(samples@.subrange(start as int, j as int)),
            acc <= (j - start) * 0x4000_0000,
        decreases end - j,
    {
        assert(samples@.subrange(start as int, j as int + 1).drop_last() =~= samples@.subrange(
            start as int,
            j as int,
        ));
        proof {
            lemma_square_bound(samples@[j as int]);
        }
        let a: i64 = samples[j] as i64 - ZERO_POINT;
        let sq: i64 = a * a;
        acc = acc + sq as u64;
        j = j + 1;
    }
    acc
}

/// Computes the energy envelope of `samples` at `sample_rate` samples per second,
/// with windows of `sample_rate / 10` samples; the last window may be short.
pub fn energy_envelope(samples: &Vec<u16>, sample_rate: u32) -> (r: Vec<u64>)
    requires
        sample_rate >= 10,
    ensures
        r@.len() == window_count(samples@.len(), (sample_rate / 10) as nat),
        r@.len() == 0 <==> samples@.len() == 0,
        forall|k: int|
            0 <= k < r@.len() ==> r@[k] as int == envelope_of(samples@, (sample_rate / 10) as nat)[k],
{
    let w: usize = (sample_rate / 10) as usize;
    let n = samples.len();
    let mut out: Vec<u64> = Vec::new();
    let mut start: usize = 0;
    let ghost wn = w as nat;
    proof {
        if n > 0 {
            lemma_window_count(n as nat, wn, 0);
        } else {
            assert(window_count(0, wn) == 0) by (nonlinear_arith)
                requires
                    wn >= 1,
            ;
        }
    }
    while start < n
        invariant
            w == wn,
            1 <= w <= 0x2000_0000,
            n == samples@.len(),
            start <= n,
            start < n ==> start == out@.len() * w,
            start >= n ==> out@.len() == window_count(n as nat, wn),
            forall|k: int|
                0 <= k < out@.len() ==> out@[k] as int == envelope_of(samples@, wn)[k],
        decreases n - start,
    {
        let end: usize = if n - start > w {
            start + w
        } else {
            n
        };
        let e = window_energy(samples, start, end);
        let ghost k = out@.len() as int;
        proof {
            assert(k * wn == start);
            lemma_window_count(n as nat, wn, k as nat);
            assert((k + 1) * wn == start + w) by (nonlinear_arith)
                requires
                    k * wn == start,
                    w == wn,
            ;
            assert(window_of(samples@, wn, k) =~= samples@.subrange(start as int, end as int));
        }
        out.push(e);
        start = end;
        proof {
            let c = out@.len() as int;
            if end < n {
                assert(start == c * wn) by (nonlinear_arith)
                    requires
                        start == k * wn + wn,
                        c == k + 1,
                ;
            }
        }
    }
    out
}

} // verus!
