//! The sample set of one scenario and its order statistics.
//!
//! Latencies are whole nanoseconds.
use vstd::prelude::*;
use vstd::seq_lib::*;

verus! {

/// Whether `s` is in ascending order.
pub open spec fn is_sorted(s: Seq<u64>) -> bool {
    forall|i: int, j: int| 0 <= i <= j < s.len() ==> s[i] <= s[j]
}

/// The sum of the samples in `s`.
pub open spec fn total(s: Seq<u64>) -> int
    decreases s.len(),
{
    if s.len() == 0 {
        0
    } else {
        total(s.drop_last()) + s.last()
    }
}

/// Minimum, median, mean and maximum of a sample set, in nanoseconds.
#[derive(Debug, Clone, Copy, PartialEq, Eq, Structural)]
pub struct Report {
    pub min: u64,
    pub median: u64,
    pub mean: u64,
    pub max: u64,
}

/// The report over a sorted, non-empty sample set: the first element, the
/// element at index `len / 2` (the upper middle one for an even length), the
/// sum divided by the count (rounded down), and the last element.
pub open spec fn report_of(s: Seq<u64>) -> Report
    recommends
        s.len() > 0,
{
    Report {
        min: s[0],
        median: s[(s.len() / 2) as int],
        mean: (total(s) / (s.len() as int)) as u64,
        max: s.last(),
    }
}

/// Why no report could be made.
#[derive(Debug, Clone, Copy, PartialEq, Eq, Structural)]
pub enum ReportError {
    /// The sample set is empty.
    NoSamples,
}

/// A named, growing set of latency samples.
pub struct Benchmark {
    name: String,
    durations: Vec<u64>,
}

impl Benchmark {
    /// The scenario's name.
    pub closed spec fn name_view(&self) -> Seq<char> {
        self.name@
    }

    /// The samples, in the order they were added (sorted after `report`).
    pub closed spec fn samples(&self) -> Seq<u64> {
        self.durations@
    }

    /// An empty sample set under the name `name`.
    pub fn new(name: &str) -> (r: Benchmark)
        ensures
            r.name_view() == name@,
            r.samples() == Seq::<u64>::empty(),
    {
        Benchmark { name: name.to_owned(), durations: Vec::with_capacity(crate::ITERATIONS) }
    }

    /// Appends one sample.
    pub fn add(&mut self, duration: u64)
        ensures
            final(self).name_view() == old(self).name_view(),
            final(self).samples() == old(self).samples().push(duration),
    {
        self.durations.push(duration);
    }

    /// The scenario's name.
    pub fn name(&self) -> (r: &str)
        ensures
            r@ == self.name_view(),
    {
        self.name.as_str()
    }

    /// The samples, in their current order.
    pub fn samples_slice(&self) -> (r: &[u64])
        ensures
            r@ == self.samples(),
    {
        self.durations.as_slice()
    }

    /// Number of samples.
    pub fn len(&self) -> (r: usize)
        ensures
            r == self.samples().len(),
    {
        self.durations.len()
    }

    /// Sorts the samples in ascending order and computes their order
    /// statistics. Fails with `NoSamples`, changing nothing, on an empty set.
    pub fn report(&mut self) -> (r: Result<Report, ReportError>)
        ensures
            final(self).name_view() == old(self).name_view(),
            final(self).samples().to_multiset() == old(self).samples().to_multiset(),
            final(self).samples().len() == old(self).samples().len(),
            is_sorted(final(self).samples()),
            old(self).samples().len() == 0 ==> r == Err::<Report, ReportError>(
                ReportError::NoSamples,
            ),
            old(self).samples().len() > 0 ==> r == Ok::<Report, ReportError>(
                report_of(final(self).samples()),
            ),
    {
        if self.durations.len() == 0 {
            return Err(ReportError::NoSamples);
        }
        let sorted = sort(&self.durations);
        self.durations = sorted;
        let n = self.durations.len();
        let sum = sum_of(&self.durations);
        proof {
            lemma_total_bounds(self.durations@, self.durations@[0], self.durations@.last());
            lemma_mean_bounds(sum as int, n as int, self.durations@[0] as int, self.durations@.last() as int);
        }
        let mean = (sum / (n as u128)) as u64;
        Ok(Report {
            min: self.durations[0],
            median: self.durations[n / 2],
            mean,
            max: self.durations[n - 1],
        })
    }
}

/// A sorted copy of `v` with the same elements.
fn sort(v: &Vec<u64>) -> (r: Vec<u64>)
    ensures
        is_sorted(r@),
        r@.to_multiset() == v@.to_multiset(),
        r@.len() == v@.len(),
{
    broadcast use group_to_multiset_ensures;

    let mut out: Vec<u64> = Vec::with_capacity(v.len());
    let mut i: usize = 0;
    while i < v.len()
        invariant
            i <= v@.len(),
            is_sorted(out@),
            out@.to_multiset() == v@.take(i as int).to_multiset(),
            out@.len() == i,
        decreases v@.len() - i,
    {
        let x = v[i];
        let mut pos: usize = 0;
        while pos < out.len() && out[pos] <= x
            invariant
                pos <= out@.len(),
                forall|k: int| 0 <= k < pos ==> out@[k] <= x,
            decreases out@.len() - pos,
        {
            pos += 1;
        }
        let ghost before = out@;
        out.insert(pos, x);
        proof {
            assert forall|a: int, b: int| 0 <= a <= b < out@.len() implies out@[a] <= out@[b] by {
                if a < pos && b > pos {
                    assert(before[a] <= before[b - 1]);
                } else if a > pos {
                    assert(before[a - 1] <= before[b - 1]);
                } else if a == pos && b > pos {
                    assert(before[b - 1] > x) by {
                        assert(pos < before.len());
                        assert(before[pos as int] > x);
                    }
                }
            }
            assert(v@.take(i + 1) =~= v@.take(i as int).push(x));
            to_multiset_insert(before, pos as int, x);
            to_multiset_build(v@.take(i as int), x);
        }
        i += 1;
    }
    assert(v@.take(v@.len() as int) =~= v@);
    out
}

/// The sum of `v`, which cannot overflow in 128 bits.
fn sum_of(v: &Vec<u64>) -> (r: u128)
    ensures
        r == total(v@),
{
    let mut acc: u128 = 0;
    let mut i: usize = 0;
    while i < v.len()
        invariant
            i <= v@.len(),
            acc == total(v@.take(i as int)),
            total(v@.take(i as int)) <= i * 0xffff_ffff_ffff_ffff,
        decreases v@.len() - i,
    {
        assert(v@.take(i + 1).drop_last() =~= v@.take(i as int));
        proof {
            assert(i * 0xffff_ffff_ffff_ffff + 0xffff_ffff_ffff_ffffint == (i + 1) * 0xffff_ffff_ffff_ffff)
                by (nonlinear_arith);
            assert((i + 1) * 0xffff_ffff_ffff_ffffint <= 0x1_0000_0000_0000_0000 * 0xffff_ffff_ffff_ffff)
                by (nonlinear_arith)
                requires i < 0x1_0000_0000_0000_0000int;
        }
        acc = acc + v[i] as u128;
        i += 1;
    }
    assert(v@.take(v@.len() as int) =~= v@);
    acc
}

/// When every sample lies in `[lo, hi]`, the sum lies in `[n * lo, n * hi]`.
proof fn lemma_total_bounds(s: Seq<u64>, lo: u64, hi: u64)
    requires
        forall|i: int| 0 <= i < s.len() ==> lo <= #[trigger] s[i] <= hi,
    ensures
        s.len() * lo <= total(s) <= s.len() * hi,
    decreases s.len(),
{
    if s.len() > 0 {
        lemma_total_bounds(s.drop_last(), lo, hi);
        assert((s.len() - 1) * lo + lo == s.len() * lo) by (nonlinear_arith);
        assert((s.len() - 1) * hi + hi == s.len() * hi) by (nonlinear_arith);
    }
}

proof fn lemma_mean_bounds(sum: int, n: int, lo: int, hi: int)
    requires
        n > 0,
        n * lo <= sum <= n * hi,
    ensures
        lo <= sum / n <= hi,
{
    assert(lo <= sum / n) by (nonlinear_arith)
        requires n > 0, n * lo <= sum;
    assert(sum / n <= hi) by (nonlinear_arith)
        requires n > 0, sum <= n * hi;
}

/// For a sorted, non-empty sample set: the minimum does not exceed the median,
/// the median does not exceed the maximum, and the mean lies between the
/// minimum and the maximum.
pub proof fn lemma_order_statistics(s: Seq<u64>)
    requires
        s.len() > 0,
        is_sorted(s),
    ensures
        report_of(s).min <= report_of(s).median <= report_of(s).max,
        report_of(s).min <= report_of(s).mean <= report_of(s).max,
        report_of(s).median == s[(s.len() / 2) as int],
{
    lemma_total_bounds(s, s[0], s.last());
    lemma_mean_bounds(total(s), s.len() as int, s[0] as int, s.last() as int);
}

} // verus!
