//! Saturating totals of per-device and per-interface counters.
//!
//! Every platform reader reports one pair of counters per device or interface
//! (reads and writes, bytes in and bytes out). The library adds them up with
//! saturating arithmetic, so that a total never wraps around.
use vstd::prelude::*;

verus! {

/// One pair of counters: what was read (or received) and what was written
/// (or sent).
#[derive(Debug, Clone, Copy, PartialEq, Eq)]
pub struct IoCounters {
    pub read: u64,
    pub write: u64,
}

/// `a + b`, held at `u64::MAX` when it would go beyond.
pub open spec fn sat_add_u64(a: int, b: int) -> int {
    if a + b > u64::MAX {
        u64::MAX as int
    } else {
        a + b
    }
}

/// `a + b`, held at the bounds of `i64` when it would go beyond them.
pub open spec fn sat_add_i64(a: int, b: int) -> int {
    if a + b > i64::MAX {
        i64::MAX as int
    } else if a + b < i64::MIN {
        i64::MIN as int
    } else {
        a + b
    }
}

/// `a * b`, held at `u64::MAX` when it would go beyond.
pub open spec fn sat_mul_u64(a: int, b: int) -> int {
    if a * b > u64::MAX {
        u64::MAX as int
    } else {
        a * b
    }
}

/// `i64::saturating_add`: std documents it as "saturating integer addition.
/// Computes `self + rhs`, saturating at the numeric bounds instead of
/// overflowing", which is what this contract states.
pub assume_specification[ <i64>::saturating_add ](x: i64, y: i64) -> (r: i64)
    ensures
        r == sat_add_i64(x as int, y as int),
;

/// `u64::saturating_mul`: std documents it as "saturating integer
/// multiplication. Computes `self * rhs`, saturating at the numeric bounds
/// instead of overflowing", which is what this contract states.
pub assume_specification[ <u64>::saturating_mul ](x: u64, y: u64) -> (r: u64)
    ensures
        r == sat_mul_u64(x as int, y as int),
;

/// The saturating total of `s`: the values are added from the first to the
/// last, each addition held at `u64::MAX`.
pub open spec fn saturating_sum(s: Seq<u64>) -> int
    decreases s.len(),
{
    if s.len() == 0 {
        0
    } else {
        sat_add_u64(saturating_sum(s.drop_last()), s.last() as int)
    }
}

/// The saturating total of `s` in `i64`: each addition held at the bounds
/// of `i64`.
pub open spec fn saturating_sum_i64(s: Seq<i64>) -> int
    decreases s.len(),
{
    if s.len() == 0 {
        0
    } else {
        sat_add_i64(saturating_sum_i64(s.drop_last()), s.last() as int)
    }
}

/// The exact mathematical total of `s`.
pub open spec fn exact_sum(s: Seq<u64>) -> int
    decreases s.len(),
{
    if s.len() == 0 {
        0
    } else {
        exact_sum(s.drop_last()) + s.last()
    }
}

/// The exact mathematical total of `s`.
pub open spec fn exact_sum_i64(s: Seq<i64>) -> int
    decreases s.len(),
{
    if s.len() == 0 {
        0
    } else {
        exact_sum_i64(s.drop_last()) + s.last()
    }
}

/// The first counter of each pair.
pub open spec fn reads(s: Seq<IoCounters>) -> Seq<u64> {
    s.map_values(|c: IoCounters| c.read)
}

/// The second counter of each pair.
pub open spec fn writes(s: Seq<IoCounters>) -> Seq<u64> {
    s.map_values(|c: IoCounters| c.write)
}

/// Adding counters with saturation gives the exact total, held at
/// `u64::MAX`: a total never wraps around, and it is exact whenever the
/// exact total fits.
pub proof fn lemma_saturating_sum_is_capped_exact_sum(s: Seq<u64>)
    ensures
        saturating_sum(s) == (if exact_sum(s) > u64::MAX {
            u64::MAX as int
        } else {
            exact_sum(s)
        }),
    decreases s.len(),
{
    if s.len() > 0 {
        lemma_saturating_sum_is_capped_exact_sum(s.drop_last());
        lemma_exact_sum_nonnegative(s.drop_last());
    }
}

/// The exact total of unsigned counters is never negative.
pub proof fn lemma_exact_sum_nonnegative(s: Seq<u64>)
    ensures
        exact_sum(s) >= 0,
    decreases s.len(),
{
    if s.len() > 0 {
        lemma_exact_sum_nonnegative(s.drop_last());
    }
}

/// For counters that are never negative, the saturating `i64` total is the
/// exact total, held at `i64::MAX`.
pub proof fn lemma_saturating_sum_i64_is_capped_exact_sum(s: Seq<i64>)
    requires
        forall|i: int| 0 <= i < s.len() ==> s[i] >= 0,
    ensures
        saturating_sum_i64(s) == (if exact_sum_i64(s) > i64::MAX {
            i64::MAX as int
        } else {
            exact_sum_i64(s)
        }),
        exact_sum_i64(s) >= 0,
    decreases s.len(),
{
    if s.len() > 0 {
        lemma_saturating_sum_i64_is_capped_exact_sum(s.drop_last());
    }
}

/// Saturating totals of the two columns of `counters`.
pub fn sum_counters(counters: &[IoCounters]) -> (total: IoCounters)
    ensures
        total.read == saturating_sum(reads(counters@)),
        total.write == saturating_sum(writes(counters@)),
{
    let mut read: u64 = 0;
    let mut write: u64 = 0;
    let n = counters.len();
    let mut i: usize = 0;
    while i < n
        invariant
            n == counters@.len(),
            i <= n,
            read == saturating_sum(reads(counters@).take(i as int)),
            write == saturating_sum(writes(counters@).take(i as int)),
        decreases n - i,
    {
        assert(reads(counters@).take(i + 1).drop_last() =~= reads(counters@).take(i as int));
        assert(writes(counters@).take(i + 1).drop_last() =~= writes(counters@).take(i as int));
        read = read.saturating_add(counters[i].read);
        write = write.saturating_add(counters[i].write);
        i = i + 1;
    }
    assert(reads(counters@).take(n as int) =~= reads(counters@));
    assert(writes(counters@).take(n as int) =~= writes(counters@));
    IoCounters { read, write }
}

} // verus!
