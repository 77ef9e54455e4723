//! Statistics of the knowledge base: what the server counted, checked for its
//! shape.

use vstd::prelude::*;

use crate::text::{cat, dec, decimal};

verus! {

/// Counts of searches by how long they took.
#[derive(Debug, Clone, PartialEq, Eq)]
pub struct KbHistogram {
    pub boundaries: Vec<i64>,
    pub counts: Vec<i64>,
}

/// Counts of a period.
#[derive(Debug, Clone, PartialEq, Eq)]
pub struct KbBucket {
    pub hits: i64,
    pub misses: i64,
    pub empty: i64,
    pub errs: i64,
    pub skipped: i64,
    pub searches: i64,
    pub avg_ms: i64,
    pub hist: KbHistogram,
}

/// Counts as the server sends them: in all, and of the current hour.
#[derive(Debug, Clone, PartialEq, Eq)]
pub struct WireKbStats {
    pub totals: KbBucket,
    pub window: KbBucket,
    pub last_log_at: i64,
    pub restored: bool,
}

/// Number of the boundaries that the server counts by.
pub const BOUNDARY_COUNT: usize = 7;

/// The boundaries that the server counts by, in milliseconds.
pub open spec fn kb_boundaries() -> Seq<i64> {
    seq![0i64, 100i64, 500i64, 1000i64, 2000i64, 4000i64, 16000i64]
}

/// The boundaries that the server counts by, in milliseconds.
pub fn kb_duration_boundaries() -> (r: Vec<i64>)
    ensures
        r@ == kb_boundaries(),
{
    let mut r: Vec<i64> = Vec::new();
    r.push(0);
    r.push(100);
    r.push(500);
    r.push(1000);
    r.push(2000);
    r.push(4000);
    r.push(16000);
    assert(r@ =~= kb_boundaries());
    r
}

impl KbHistogram {
    /// Whether each boundary has its count, and there is one.
    pub open spec fn valid(self) -> bool {
        self.boundaries@.len() > 0 && self.boundaries@.len() == self.counts@.len()
    }

    /// Whether each boundary has its count, and there is one.
    pub fn is_valid(&self) -> (r: bool)
        ensures
            r == self.valid(),
    {
        self.boundaries.len() > 0 && self.boundaries.len() == self.counts.len()
    }

    fn dup(&self) -> (r: KbHistogram)
        ensures
            r.boundaries@ == self.boundaries@,
            r.counts@ == self.counts@,
    {
        let r = KbHistogram { boundaries: self.boundaries.clone(), counts: self.counts.clone() };
        assert(r.boundaries@ =~= self.boundaries@);
        assert(r.counts@ =~= self.counts@);
        r
    }
}

/// Why statistics are refused.
#[derive(Debug, Clone, Copy, PartialEq, Eq, Structural)]
pub enum KbStatsError {
    /// The boundaries and the counts do not match.
    HistogramMismatch { boundaries: usize, counts: usize },
}

impl KbStatsError {
    /// The words for an error.
    pub fn message(&self) -> (r: String)
        ensures
            r@ == match *self {
                KbStatsError::HistogramMismatch { boundaries, counts } =>
                    "KB 直方图契约漂移: boundaries 长度 "@ + decimal(boundaries as nat)
                    + " != counts 长度 "@ + decimal(counts as nat),
            },
    {
        match self {
            KbStatsError::HistogramMismatch { boundaries, counts } => {
                let mut r = cat(
                    "KB 直方图契约漂移: boundaries 长度 ",
                    dec(*boundaries as u64).as_str(),
                );
                r.append(" != counts 长度 ");
                r.append(dec(*counts as u64).as_str());
                r
            },
        }
    }
}

/// Whether two buckets hold the same counts.
pub open spec fn same_bucket(a: KbBucket, b: KbBucket) -> bool {
    &&& a.hits == b.hits
    &&& a.misses == b.misses
    &&& a.empty == b.empty
    &&& a.errs == b.errs
    &&& a.skipped == b.skipped
    &&& a.searches == b.searches
    &&& a.avg_ms == b.avg_ms
    &&& a.hist.boundaries@ == b.hist.boundaries@
    &&& a.hist.counts@ == b.hist.counts@
}

/// The error for a bucket that does not match.
pub open spec fn mismatch(b: KbBucket) -> KbStatsError {
    KbStatsError::HistogramMismatch {
        boundaries: b.hist.boundaries@.len() as usize,
        counts: b.hist.counts@.len() as usize,
    }
}

fn bucket_from_wire(w: &KbBucket) -> (r: Result<KbBucket, KbStatsError>)
    ensures
        match r {
            Ok(b) => w.hist.valid() && same_bucket(b, *w),
            Err(e) => !w.hist.valid() && e == mismatch(*w),
        },
{
    if !w.hist.is_valid() {
        return Err(
            KbStatsError::HistogramMismatch {
                boundaries: w.hist.boundaries.len(),
                counts: w.hist.counts.len(),
            },
        );
    }
    Ok(
        KbBucket {
            hits: w.hits,
            misses: w.misses,
            empty: w.empty,
            errs: w.errs,
            skipped: w.skipped,
            searches: w.searches,
            avg_ms: w.avg_ms,
            hist: w.hist.dup(),
        },
    )
}

/// Statistics that were checked.
#[derive(Debug, Clone, PartialEq, Eq)]
pub struct KbStatsSnapshot {
    pub totals: KbBucket,
    pub window: KbBucket,
    pub last_log_at_ms: i64,
    pub restored: bool,
}

/// A quotient, rounded towards zero, of a positive divisor.
pub open spec fn toward_zero(n: int, d: int) -> int {
    if n >= 0 {
        n / d
    } else {
        -((-n) / d)
    }
}

/// Whether a list of boundaries is that of the server.
fn are_boundaries(v: &Vec<i64>) -> (r: bool)
    ensures
        r == (v@ == kb_boundaries()),
{
    let want = kb_duration_boundaries();
    if v.len() != want.len() {
        return false;
    }
    let mut i: usize = 0;
    while i < v.len()
        invariant
            i <= v@.len(),
            v@.len() == want@.len(),
            want@ == kb_boundaries(),
            forall|k: int| 0 <= k < i ==> v@[k] == want@[k],
        decreases v@.len() - i,
    {
        if v[i] != want[i] {
            return false;
        }
        i = i + 1;
    }
    assert(v@ =~= want@);
    true
}

impl KbStatsSnapshot {
    /// Takes over statistics; refused where boundaries and counts of a period
    /// do not match, those of all first.
    pub fn from_wire(w: &WireKbStats) -> (r: Result<KbStatsSnapshot, KbStatsError>)
        ensures
            match r {
                Ok(s) => {
                    &&& w.totals.hist.valid() && w.window.hist.valid()
                    &&& same_bucket(s.totals, w.totals)
                    &&& same_bucket(s.window, w.window)
                    &&& s.last_log_at_ms == w.last_log_at
                    &&& s.restored == w.restored
                },
                Err(e) => if !w.totals.hist.valid() {
                    e == mismatch(w.totals)
                } else {
                    !w.window.hist.valid() && e == mismatch(w.window)
                },
            },
    {
        let totals = match bucket_from_wire(&w.totals) {
            Ok(b) => b,
            Err(e) => return Err(e),
        };
        let window = match bucket_from_wire(&w.window) {
            Ok(b) => b,
            Err(e) => return Err(e),
        };
        Ok(
            KbStatsSnapshot {
                totals,
                window,
                last_log_at_ms: w.last_log_at,
                restored: w.restored,
            },
        )
    }

    /// Share of the searches that hit, in percent; 0 where there were none.
    pub fn hit_ratio(&self) -> (r: u32)
        ensures
            ({
                let total = self.totals.hits + self.totals.misses;
                r == if total > 0 {
                    toward_zero(self.totals.hits * 100, total) as u32
                } else {
                    0u32
                }
            }),
    {
        let total: i128 = self.totals.hits as i128 + self.totals.misses as i128;
        if total > 0 {
            let n: i128 = self.totals.hits as i128 * 100;
            let q: i128 = if n >= 0 {
                n / total
            } else {
                -((-n) / total)
            };
            q as u32
        } else {
            0
        }
    }

    /// Whether both periods are counted by the boundaries of the server.
    pub fn boundaries_match_agent_server(&self) -> (r: bool)
        ensures
            r == (self.totals.hist.boundaries@ == kb_boundaries()
                && self.window.hist.boundaries@ == kb_boundaries()),
    {
        are_boundaries(&self.totals.hist.boundaries) && are_boundaries(
            &self.window.hist.boundaries,
        )
    }
}

/// A share is between 0 and 100 percent where no count is negative.
pub proof fn law_ratio_is_a_percentage(hits: int, misses: int)
    requires
        hits >= 0,
        misses >= 0,
        hits + misses > 0,
    ensures
        0 <= toward_zero(hits * 100, hits + misses) <= 100,
{
    let d = hits + misses;
    assert(0 <= (hits * 100) / d <= 100) by (nonlinear_arith)
        requires
            0 <= hits <= d,
            d > 0,
    ;
}

/// A quotient is rounded towards zero: times the divisor it does not reach
/// past the number, and it lies less than one divisor short of it.
pub proof fn law_quotients_round_towards_zero(n: int, d: int)
    requires
        d > 0,
    ensures
        n >= 0 ==> toward_zero(n, d) * d <= n < toward_zero(n, d) * d + d,
        n <= 0 ==> toward_zero(n, d) * d - d < n <= toward_zero(n, d) * d,
        toward_zero(-n, d) == -toward_zero(n, d),
{
    let m = if n >= 0 {
        n
    } else {
        -n
    };
    let q = m / d;
    assert(q * d <= m < q * d + d) by (nonlinear_arith)
        requires
            q == m / d,
            d > 0,
            m >= 0,
    ;
    assert((-q) * d == -(q * d)) by (nonlinear_arith);
    if n == 0 {
        assert(0int / d == 0) by (nonlinear_arith)
            requires
                d > 0,
        ;
    }
}

/// Counts that are taken over are those of the server, and a mismatch names
/// both lengths.
pub proof fn law_buckets_are_taken_over_whole(a: KbBucket, b: KbBucket)
    ensures
        same_bucket(a, b) ==> a.hits == b.hits && a.misses == b.misses && a.empty == b.empty
            && a.errs == b.errs && a.skipped == b.skipped && a.searches == b.searches
            && a.avg_ms == b.avg_ms && a.hist.boundaries@ == b.hist.boundaries@
            && a.hist.counts@ == b.hist.counts@,
        a.hist.boundaries@.len() <= usize::MAX ==> mismatch(a)->boundaries
            == a.hist.boundaries@.len(),
        a.hist.counts@.len() <= usize::MAX ==> mismatch(a)->counts == a.hist.counts@.len(),
        a.hist.valid() <==> a.hist.boundaries@.len() > 0 && a.hist.boundaries@.len()
            == a.hist.counts@.len(),
{
}

} // verus!
