//! Onset detection: windows where energy rises by more than three fifths of the
//! largest rise in the envelope.

use vstd::prelude::*;
use crate::tempo::strictly_increasing;

verus! {

/// An envelope read as mathematical integers.
pub open spec fn as_ints(e: Seq<u64>) -> Seq<int> {
    e.map_values(|x: u64| x as int)
}

/// First differences: element `i` is `e[i + 1] - e[i]`; empty below two elements.
pub open spec fn diffs_of(e: Seq<int>) -> Seq<int> {
    if e.len() < 2 {
        Seq::empty()
    } else {
        Seq::new((e.len() - 1) as nat, |i: int| e[i + 1] - e[i])
    }
}

/// Largest element of a non-empty sequence.
pub open spec fn seq_max(d: Seq<int>) -> int
    decreases d.len(),
{
    if d.len() == 0 {
        0
    } else if d.len() == 1 {
        d[0]
    } else {
        let m = seq_max(d.drop_last());
        if d.last() > m {
            d.last()
        } else {
            m
        }
    }
}

/// Rise `i` exceeds `0.6` times the largest rise.
pub open spec fn is_onset(d: Seq<int>, i: int) -> bool {
    5 * d[i] > 3 * seq_max(d)
}

/// Indices below `n` of the rises in `d` that count as onsets, in order.
pub open spec fn onsets_upto(d: Seq<int>, n: nat) -> Seq<usize>
    decreases n,
{
    if n == 0 {
        Seq::empty()
    } else if is_onset(d, n - 1) {
        onsets_upto(d, (n - 1) as nat).push((n - 1) as usize)
    } else {
        onsets_upto(d, (n - 1) as nat)
    }
}

/// Onset indices of an energy envelope.
pub open spec fn onsets_of(e: Seq<int>) -> Seq<usize> {
    let d = diffs_of(e);
    onsets_upto(d, d.len())
}

/// The largest element is at least every element, and no more than a bound on all of them.
proof fn lemma_seq_max(d: Seq<int>)
    ensures
        forall|i: int| 0 <= i < d.len() ==> d[i] <= seq_max(d),
        (forall|i: int| 0 <= i < d.len() ==> d[i] <= 0) ==> seq_max(d) <= 0,
    decreases d.len(),
{
    if d.len() > 1 {
        lemma_seq_max(d.drop_last());
        assert forall|i: int| 0 <= i < d.len() - 1 implies d[i] == d.drop_last()[i] by {}
    }
}

/// Where energy never rises, no window counts as an onset.
pub proof fn lemma_no_rise_no_onset(d: Seq<int>, n: nat)
    requires
        n <= d.len(),
        forall|i: int| 0 <= i < d.len() ==> d[i] <= 0,
    ensures
        onsets_upto(d, n).len() == 0,
    decreases n,
{
    if n > 0 {
        lemma_seq_max(d);
        lemma_no_rise_no_onset(d, (n - 1) as nat);
        assert(!is_onset(d, n - 1));
    }
}

/// Onsets found among the first `n` rises have indices below `n`, and there are at most `n`.
proof fn lemma_onsets_below(d: Seq<int>, n: nat)
    ensures
        forall|k: int| 0 <= k < onsets_upto(d, n).len() ==> onsets_upto(d, n)[k] < n,
        onsets_upto(d, n).len() <= n,
    decreases n,
{
    if n > 0 {
        lemma_onsets_below(d, (n - 1) as nat);
    }
}

/// Finds the onsets of `envelope`: each index `i` whose rise
/// `envelope[i + 1] - envelope[i]` exceeds three fifths of the largest rise.
/// The onset at index `i` lies `i` windows after the chunk start.
pub fn detect_peaks(envelope: &Vec<u64>) -> (r: Vec<usize>)
    ensures
        r@ == onsets_of(as_ints(envelope@)),
        strictly_increasing(r@),
        envelope@.len() < 2 ==> r@.len() == 0,
{
    let ghost e = as_ints(envelope@);
    let ghost ds = diffs_of(e);
    let n = envelope.len();
    if n < 2 {
        return Vec::new();
    }
    let m: usize = n - 1;
    let mut d: Vec<i128> = Vec::with_capacity(m);
    let mut i: usize = 0;
    while i < m
        invariant
            m + 1 == n == envelope@.len(),
            ds == diffs_of(e),
            e == as_ints(envelope@),
            i <= m,
            d@.len() == i,
            forall|k: int| 0 <= k < i ==> d@[k] as int == ds[k],
            forall|k: int| 0 <= k < i ==> -0x1_0000_0000_0000_0000 <= #[trigger] d@[k] <= 0x1_0000_0000_0000_0000,
        decreases m - i,
    {
        d.push(envelope[i + 1] as i128 - envelope[i] as i128);
        i = i + 1;
    }
    let mut best: i128 = d[0];
    let mut j: usize = 1;
    while j < m
        invariant
            m == d@.len() == ds.len(),
            forall|k: int| 0 <= k < m ==> d@[k] as int == ds[k],
            forall|k: int| 0 <= k < m ==> -0x1_0000_0000_0000_0000 <= #[trigger] d@[k] <= 0x1_0000_0000_0000_0000,
            -0x1_0000_0000_0000_0000 <= best <= 0x1_0000_0000_0000_0000,
            1 <= j <= m,
            best as int == seq_max(ds.subrange(0, j as int)),
        decreases m - j,
    {
        assert(ds.subrange(0, j as int + 1).drop_last() =~= ds.subrange(0, j as int));
        if d[j] > best {
            best = d[j];
        }
        j = j + 1;
    }
    assert(ds.subrange(0, m as int) =~= ds);
    assert(ds.subrange(0, 1).len() == 1);
    let mut out: Vec<usize> = Vec::new();
    let mut k: usize = 0;
    while k < m
        invariant
            m == d@.len() == ds.len(),
            forall|t: int| 0 <= t < m ==> d@[t] as int == ds[t],
            forall|t: int| 0 <= t < m ==> -0x1_0000_0000_0000_0000 <= #[trigger] d@[t] <= 0x1_0000_0000_0000_0000,
            -0x1_0000_0000_0000_0000 <= best <= 0x1_0000_0000_0000_0000,
            best as int == seq_max(ds),
            k <= m,
            out@ == onsets_upto(ds, k as nat),
            strictly_increasing(out@),
            forall|t: int| 0 <= t < out@.len() ==> out@[t] < k,
        decreases m - k,
    {
        proof {
            lemma_onsets_below(ds, k as nat);
        }
        if 5 * d[k] > 3 * best {
            out.push(k);
        }
        k = k + 1;
    }
    out
}

} // verus!
