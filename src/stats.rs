use crate::usage::RunMetrics;
use vstd::prelude::*;
use vstd::relations::{sorted_by, total_ordering};

verus! {

/// Smallest value of a non-empty sequence.
pub open spec fn min_of(s: Seq<i64>) -> i64
    recommends
        s.len() > 0,
    decreases s.len(),
{
    if s.len() <= 1 {
        s[0]
    } else {
        let m = min_of(s.drop_last());
        if s.last() < m {
            s.last()
        } else {
            m
        }
    }
}

/// Largest value of a non-empty sequence.
pub open spec fn max_of(s: Seq<i64>) -> i64
    recommends
        s.len() > 0,
    decreases s.len(),
{
    if s.len() <= 1 {
        s[0]
    } else {
        let m = max_of(s.drop_last());
        if s.last() > m {
            s.last()
        } else {
            m
        }
    }
}

proof fn lemma_min_of(s: Seq<i64>)
    requires
        s.len() > 0,
    ensures
        s.contains(min_of(s)),
        forall|i: int| 0 <= i < s.len() ==> min_of(s) <= #[trigger] s[i],
    decreases s.len(),
{
    if s.len() > 1 {
        lemma_min_of(s.drop_last());
        assert(s.drop_last().contains(min_of(s.drop_last())));
        assert(forall|i: int| 0 <= i < s.len() - 1 ==> s[i] == #[trigger] s.drop_last()[i]);
        assert forall|i: int| 0 <= i < s.len() implies min_of(s) <= #[trigger] s[i] by {
            if i < s.len() - 1 {
                assert(s[i] == s.drop_last()[i]);
            }
        }
        if s.last() >= min_of(s.drop_last()) {
            let k = choose|k: int| 0 <= k < s.len() - 1 && s.drop_last()[k] == min_of(s.drop_last());
            assert(s[k] == min_of(s));
        } else {
            assert(s[s.len() - 1] == min_of(s));
        }
    } else {
        assert(s[0] == min_of(s));
    }
}

proof fn lemma_max_of(s: Seq<i64>)
    requires
        s.len() > 0,
    ensures
        s.contains(max_of(s)),
        forall|i: int| 0 <= i < s.len() ==> #[trigger] s[i] <= max_of(s),
    decreases s.len(),
{
    if s.len() > 1 {
        lemma_max_of(s.drop_last());
        assert(s.drop_last().contains(max_of(s.drop_last())));
        assert(forall|i: int| 0 <= i < s.len() - 1 ==> s[i] == #[trigger] s.drop_last()[i]);
        assert forall|i: int| 0 <= i < s.len() implies #[trigger] s[i] <= max_of(s) by {
            if i < s.len() - 1 {
                assert(s[i] == s.drop_last()[i]);
            }
        }
        if s.last() <= max_of(s.drop_last()) {
            let k = choose|k: int| 0 <= k < s.len() - 1 && s.drop_last()[k] == max_of(s.drop_last());
            assert(s[k] == max_of(s));
        } else {
            assert(s[s.len() - 1] == max_of(s));
        }
    } else {
        assert(s[0] == max_of(s));
    }
}

/// The smallest sample, or `None` for an empty slice of samples.
pub fn min(data: &Vec<i64>) -> (r: Option<&i64>)
    ensures
        data@.len() == 0 <==> r.is_none(),
        r matches Some(m) ==> *m == min_of(data@),
{
    if data.len() == 0 {
        return None;
    }
    let mut best: usize = 0;
    let mut i: usize = 1;
    while i < data.len()
        invariant
            1 <= i <= data@.len(),
            best < i,
            data@[best as int] == min_of(data@.subrange(0, i as int)),
        decreases data@.len() - i,
    {
        assert(data@.subrange(0, i as int + 1).drop_last() =~= data@.subrange(0, i as int));
        if data[i] < data[best] {
            best = i;
        }
        i = i + 1;
    }
    assert(data@.subrange(0, data@.len() as int) =~= data@);
    Some(&data[best])
}

/// The largest sample, or `None` for an empty slice of samples.
pub fn max(data: &Vec<i64>) -> (r: Option<&i64>)
    ensures
        data@.len() == 0 <==> r.is_none(),
        r matches Some(m) ==> *m == max_of(data@),
{
    if data.len() == 0 {
        return None;
    }
    let mut best: usize = 0;
    let mut i: usize = 1;
    while i < data.len()
        invariant
            1 <= i <= data@.len(),
            best < i,
            data@[best as int] == max_of(data@.subrange(0, i as int)),
        decreases data@.len() - i,
    {
        assert(data@.subrange(0, i as int + 1).drop_last() =~= data@.subrange(0, i as int));
        if data[i] > data[best] {
            best = i;
        }
        i = i + 1;
    }
    assert(data@.subrange(0, data@.len() as int) =~= data@);
    Some(&data[best])
}


/// Sum of the samples.
pub open spec fn sum_of(s: Seq<i64>) -> int
    decreases s.len(),
{
    if s.len() == 0 {
        0
    } else {
        sum_of(s.drop_last()) + s.last()
    }
}

/// How far sample `i` lies from the mean, scaled by the number of samples:
/// `n * s[i] - sum`, that is `n * (s[i] - mean)`.
pub open spec fn deviation(s: Seq<i64>, i: int) -> int {
    s.len() * s[i] - sum_of(s)
}

/// Sum of the squared scaled deviations of the first `k` samples.
pub open spec fn spread_upto(s: Seq<i64>, k: nat) -> int
    decreases k,
{
    if k == 0 {
        0
    } else {
        spread_upto(s, (k - 1) as nat) + deviation(s, k - 1) * deviation(s, k - 1)
    }
}

/// `sum((n * s[i] - sum)^2)`, which is `n^3` times the population variance:
/// the standard deviation is `sqrt(spread_of(s) / n^3)`.
pub open spec fn spread_of(s: Seq<i64>) -> int {
    spread_upto(s, s.len())
}

/// Whether a sequence is in ascending order.
pub open spec fn ascending(t: Seq<i64>) -> bool {
    forall|i: int, j: int| 0 <= i < j < t.len() ==> t[i] <= t[j]
}

pub open spec fn leq_i64() -> spec_fn(i64, i64) -> bool {
    |x: i64, y: i64| x <= y
}

/// The samples in ascending order.
pub open spec fn sorted_samples(s: Seq<i64>) -> Seq<i64> {
    s.sort_by(leq_i64())
}

/// Twice the median. For an odd count the median is the middle sample in
/// ascending order. For an even count it is `t[n/2] + t[n/2 - 1] / 2`, with
/// `t` the ascending samples: not the mean of the two middle samples.
pub open spec fn median_doubled_of(s: Seq<i64>) -> int {
    let t = sorted_samples(s);
    let m = (s.len() / 2) as int;
    if s.len() % 2 == 1 {
        2 * t[m]
    } else {
        2 * t[m] + t[m - 1]
    }
}

proof fn lemma_sorted_samples(s: Seq<i64>)
    ensures
        sorted_samples(s).to_multiset() == s.to_multiset(),
        ascending(sorted_samples(s)),
        sorted_samples(s).len() == s.len(),
{
    broadcast use vstd::seq_lib::group_to_multiset_ensures;

    assert(total_ordering(leq_i64()));
    s.lemma_sort_by_ensures(leq_i64());
    let t = sorted_samples(s);
    assert(sorted_by(t, leq_i64()));
    assert forall|i: int, j: int| 0 <= i < j < t.len() implies t[i] <= t[j] by {
        assert(leq_i64()(t[i], t[j]));
    }
    assert(t.len() == t.to_multiset().len());
}

/// Two ascending sequences that hold the same values are equal.
proof fn lemma_ascending_unique(a: Seq<i64>, b: Seq<i64>)
    requires
        ascending(a),
        ascending(b),
        a.to_multiset() == b.to_multiset(),
    ensures
        a == b,
    decreases a.len(),
{
    broadcast use vstd::seq_lib::group_to_multiset_ensures;

    assert(a.len() == a.to_multiset().len());
    assert(b.len() == b.to_multiset().len());
    if a.len() == 0 {
        assert(a =~= b);
    } else {
        let x = a.last();
        let y = b.last();
        assert(a.contains(x));
        assert(a.to_multiset().count(x) > 0);
        assert(b.contains(x));
        assert(b.contains(y));
        assert(b.to_multiset().count(y) > 0);
        assert(a.contains(y));
        assert(x <= y);
        assert(y <= x);
        let a0 = a.drop_last();
        let b0 = b.drop_last();
        assert(a0.push(x) =~= a);
        assert(b0.push(y) =~= b);
        assert(a0.to_multiset() =~= b0.to_multiset()) by {
            broadcast use vstd::multiset::group_multiset_axioms;

            assert(a.to_multiset() == a0.to_multiset().insert(x));
            assert(b.to_multiset() == b0.to_multiset().insert(x));
            assert forall|v: i64| a0.to_multiset().count(v) == b0.to_multiset().count(v) by {
                assert(a.to_multiset().count(v) == b.to_multiset().count(v));
                assert(a0.to_multiset().insert(x).count(v) == b0.to_multiset().insert(x).count(v));
                if v == x {
                    assert(a0.to_multiset().insert(x).count(v) == a0.to_multiset().count(v) + 1);
                    assert(b0.to_multiset().insert(x).count(v) == b0.to_multiset().count(v) + 1);
                } else {
                    assert(a0.to_multiset().insert(x).count(v) == a0.to_multiset().count(v));
                    assert(b0.to_multiset().insert(x).count(v) == b0.to_multiset().count(v));
                }
            }
        }
        lemma_ascending_unique(a0, b0);
        assert(a =~= b);
    }
}

/// Relies on `slice::sort`: the values end up in ascending order, each as
/// often as before.
#[verifier::external_body]
fn sort_ascending(v: &mut Vec<i64>)
    ensures
        final(v)@.to_multiset() == old(v)@.to_multiset(),
        ascending(final(v)@),
{
    v.sort();
}

/// Sum of the samples; it cannot overflow an `i128`.
pub fn total(data: &Vec<i64>) -> (r: i128)
    ensures
        r == sum_of(data@),
{
    let mut acc: i128 = 0;
    let mut i: usize = 0;
    while i < data.len()
        invariant
            i <= data@.len(),
            acc == sum_of(data@.subrange(0, i as int)),
            -(i as int) * 0x8000_0000_0000_0000 <= acc <= (i as int) * 0x8000_0000_0000_0000,
        decreases data@.len() - i,
    {
        assert(data@.subrange(0, i as int + 1).drop_last() =~= data@.subrange(0, i as int));
        acc = acc + data[i] as i128;
        i = i + 1;
    }
    assert(data@.subrange(0, data@.len() as int) =~= data@);
    acc
}

proof fn lemma_spread_grows(s: Seq<i64>, j: nat, k: nat)
    requires
        j <= k,
    ensures
        spread_upto(s, j) <= spread_upto(s, k),
        0 <= spread_upto(s, j),
    decreases k,
{
    if k > j {
        lemma_spread_grows(s, j, (k - 1) as nat);
        let d = deviation(s, k - 1);
        assert(d * d >= 0) by (nonlinear_arith);
    } else if j > 0 {
        lemma_spread_grows(s, (j - 1) as nat, (j - 1) as nat);
        let d = deviation(s, j - 1);
        assert(d * d >= 0) by (nonlinear_arith);
    }
}

/// `spread_of(data)` (see there), or `None` where it exceeds `u128::MAX`.
pub fn spread(data: &Vec<i64>, sum: i128) -> (r: Option<u128>)
    requires
        sum == sum_of(data@),
    ensures
        r is None <==> spread_of(data@) > u128::MAX,
        r matches Some(x) ==> x == spread_of(data@),
{
    let ghost s = data@;
    let n: i128 = data.len() as i128;
    let mut acc: u128 = 0;
    let mut i: usize = 0;
    while i < data.len()
        invariant
            s == data@,
            i <= s.len(),
            n == s.len(),
            n <= 0xFFFF_FFFF_FFFF_FFFF,
            sum == sum_of(s),
            acc == spread_upto(s, i as nat),
        decreases s.len() - i,
    {
        let v: i128 = data[i] as i128;
        proof {
            vstd::arithmetic::mul::lemma_mul_inequality(v as int, i64::MAX as int, n as int);
            vstd::arithmetic::mul::lemma_mul_inequality(i64::MIN as int, v as int, n as int);
            vstd::arithmetic::mul::lemma_mul_inequality(
                n as int,
                0xFFFF_FFFF_FFFF_FFFF,
                i64::MAX as int,
            );
            vstd::arithmetic::mul::lemma_mul_inequality(
                n as int,
                0xFFFF_FFFF_FFFF_FFFF,
                -(i64::MIN as int),
            );
            vstd::arithmetic::mul::lemma_mul_is_commutative(n as int, v as int);
            vstd::arithmetic::mul::lemma_mul_is_commutative(n as int, i64::MAX as int);
            vstd::arithmetic::mul::lemma_mul_is_commutative(n as int, i64::MIN as int);
            vstd::arithmetic::mul::lemma_mul_is_commutative(n as int, -(i64::MIN as int));
        }
        proof {
            lemma_spread_grows(s, (i + 1) as nat, s.len());
        }
        let ghost dev = deviation(s, i as int);
        assert(spread_upto(s, (i + 1) as nat) == acc + dev * dev);
        let d: i128 = match (n * v).checked_sub(sum) {
            Some(d) => d,
            None => {
                assert(dev * dev > u128::MAX) by (nonlinear_arith)
                    requires
                        dev < i128::MIN || dev > i128::MAX,
                ;
                return None;
            },
        };
        let a: u128 = if d >= 0 {
            d as u128
        } else {
            ((-(d + 1)) as u128) + 1
        };
        assert(a * a == dev * dev) by (nonlinear_arith)
            requires
                a == dev || a == -dev,
        ;
        let sq: u128 = match a.checked_mul(a) {
            Some(x) => x,
            None => {
                return None;
            },
        };
        acc = match acc.checked_add(sq) {
            Some(x) => x,
            None => {
                return None;
            },
        };
        i = i + 1;
    }
    Some(acc)
}

/// Twice the median of the samples (see `median_doubled_of`), which keeps
/// the value an integer where the count is even.
pub fn median_doubled(data: &Vec<i64>) -> (r: i128)
    requires
        data@.len() > 0,
    ensures
        r == median_doubled_of(data@),
{
    let mut cloned = data.clone();
    assert(cloned@ =~= data@);
    sort_ascending(&mut cloned);
    proof {
        lemma_sorted_samples(data@);
        lemma_ascending_unique(cloned@, sorted_samples(data@));
        assert(cloned@.len() == cloned@.to_multiset().len()) by {
            broadcast use vstd::seq_lib::group_to_multiset_ensures;
        }
        assert(data@.len() == data@.to_multiset().len()) by {
            broadcast use vstd::seq_lib::group_to_multiset_ensures;
        }
    }
    let len = cloned.len();
    let middle = len / 2;
    if len % 2 == 1 {
        2 * (cloned[middle] as i128)
    } else {
        2 * (cloned[middle] as i128) + cloned[middle - 1] as i128
    }
}

/// Why no summary could be made.
#[derive(Clone, Copy, Debug, PartialEq, Eq, Structural)]
pub enum StatsError {
    /// There were no samples.
    NoSamples,
    /// The spread of the samples exceeds `u128::MAX`.
    SpreadOverflow,
}

/// The exact five-number summary of one channel of samples, in
/// microseconds. Where `n` is `count`: mean = `total / n`, standard
/// deviation = `sqrt(spread / n^3)`, median = `median_doubled / 2`.
#[derive(Clone, Copy, Debug, PartialEq, Eq, Structural)]
pub struct SummaryStat {
    pub count: u64,
    pub total: i128,
    pub spread: u128,
    pub min: i64,
    pub median_doubled: i128,
    pub max: i64,
}

/// The summary of a sequence of samples.
pub open spec fn summary_of(s: Seq<i64>) -> Result<SummaryStat, StatsError> {
    if s.len() == 0 {
        Err(StatsError::NoSamples)
    } else if spread_of(s) > u128::MAX {
        Err(StatsError::SpreadOverflow)
    } else {
        Ok(
            SummaryStat {
                count: s.len() as u64,
                total: sum_of(s) as i128,
                spread: spread_of(s) as u128,
                min: min_of(s),
                median_doubled: median_doubled_of(s) as i128,
                max: max_of(s),
            },
        )
    }
}

impl SummaryStat {
    /// Summarises one channel of samples.
    pub fn new(numbers: Vec<i64>) -> (r: Result<SummaryStat, StatsError>)
        ensures
            r == summary_of(numbers@),
    {
        if numbers.len() == 0 {
            return Err(StatsError::NoSamples);
        }
        let sum = total(&numbers);
        let spread = match spread(&numbers, sum) {
            Some(x) => x,
            None => {
                return Err(StatsError::SpreadOverflow);
            },
        };
        let lo = match min(&numbers) {
            Some(m) => *m,
            None => {
                return Err(StatsError::NoSamples);
            },
        };
        let hi = match max(&numbers) {
            Some(m) => *m,
            None => {
                return Err(StatsError::NoSamples);
            },
        };
        let median = median_doubled(&numbers);
        Ok(
            SummaryStat {
                count: numbers.len() as u64,
                total: sum,
                spread,
                min: lo,
                median_doubled: median,
                max: hi,
            },
        )
    }
}


proof fn lemma_sum_constant(s: Seq<i64>, c: i64)
    requires
        forall|i: int| 0 <= i < s.len() ==> s[i] == c,
    ensures
        sum_of(s) == s.len() * c,
    decreases s.len(),
{
    if s.len() > 0 {
        lemma_sum_constant(s.drop_last(), c);
        assert(s.last() == c);
        assert(s.len() * c == (s.len() - 1) * c + c) by (nonlinear_arith);
    }
}

proof fn lemma_spread_constant(s: Seq<i64>, c: i64, k: nat)
    requires
        forall|i: int| 0 <= i < s.len() ==> s[i] == c,
        sum_of(s) == s.len() * c,
        k <= s.len(),
    ensures
        spread_upto(s, k) == 0,
    decreases k,
{
    if k > 0 {
        lemma_spread_constant(s, c, (k - 1) as nat);
        assert(s[k - 1] == c);
        assert(deviation(s, k - 1) == 0);
    }
}

/// Each value of the ascending samples is one of the samples.
proof fn lemma_sorted_member(s: Seq<i64>, i: int)
    requires
        0 <= i < s.len(),
    ensures
        s.contains(sorted_samples(s)[i]),
{
    broadcast use vstd::seq_lib::group_to_multiset_ensures;

    lemma_sorted_samples(s);
    let t = sorted_samples(s);
    assert(t.contains(t[i]));
    assert(t.to_multiset().count(t[i]) > 0);
    assert(s.to_multiset().count(t[i]) > 0);
}

/// Where every sample equals `c`: the mean is `c` (the total is `n * c`),
/// the standard deviation is zero, min and max are `c`. The median is `c`
/// where the count is odd; where it is even the formula gives `1.5 * c`.
pub proof fn lemma_constant_samples(s: Seq<i64>, c: i64)
    requires
        0 < s.len() <= usize::MAX,
        forall|i: int| 0 <= i < s.len() ==> s[i] == c,
    ensures
        sum_of(s) == s.len() * c,
        spread_of(s) == 0,
        min_of(s) == c,
        max_of(s) == c,
        s.len() % 2 == 1 ==> median_doubled_of(s) == 2 * c,
        s.len() % 2 == 0 ==> median_doubled_of(s) == 3 * c,
        summary_of(s) matches Ok(st) && st.total == s.len() * c && st.spread == 0 && st.min == c
            && st.max == c,
{
    lemma_sum_constant(s, c);
    lemma_spread_constant(s, c, s.len());
    let n = s.len() as int;
    assert(n <= 0xFFFF_FFFF_FFFF_FFFF);
    assert(i128::MIN < n * c <= i128::MAX) by {
        let ci = c as int;
        vstd::arithmetic::mul::lemma_mul_inequality(ci, 0x7FFF_FFFF_FFFF_FFFF, n);
        vstd::arithmetic::mul::lemma_mul_inequality(-0x8000_0000_0000_0000, ci, n);
        vstd::arithmetic::mul::lemma_mul_is_commutative(n, ci);
    }
    lemma_min_of(s);
    lemma_max_of(s);
    let m = (s.len() / 2) as int;
    lemma_sorted_samples(s);
    lemma_sorted_member(s, m);
    if s.len() % 2 == 0 {
        lemma_sorted_member(s, m - 1);
    }
}

/// For an odd count the median lies between the smallest and the largest
/// sample.
pub proof fn lemma_odd_median_bounds(s: Seq<i64>)
    requires
        s.len() % 2 == 1,
    ensures
        2 * min_of(s) <= median_doubled_of(s) <= 2 * max_of(s),
{
    lemma_min_of(s);
    lemma_max_of(s);
    lemma_sorted_samples(s);
    lemma_sorted_member(s, (s.len() / 2) as int);
}

/// An empty session has no summary: the statistics refuse it.
pub proof fn lemma_no_runs_no_summary(runs: Seq<RunMetrics>)
    requires
        runs.len() == 0,
    ensures
        context_of(runs) == Err::<ContextStat, StatsError>(StatsError::NoSamples),
{
    assert(wall_samples(runs).len() == 0);
}

/// The summaries of the three channels of a session.
#[derive(Clone, Copy, Debug, PartialEq, Eq, Structural)]
pub struct ContextStat {
    pub wall: SummaryStat,
    pub user: SummaryStat,
    pub sys: SummaryStat,
}

pub open spec fn wall_samples(runs: Seq<RunMetrics>) -> Seq<i64> {
    runs.map_values(|m: RunMetrics| m.wall_clock_usec)
}

pub open spec fn user_samples(runs: Seq<RunMetrics>) -> Seq<i64> {
    runs.map_values(|m: RunMetrics| m.rusage.user_tv_usec)
}

pub open spec fn sys_samples(runs: Seq<RunMetrics>) -> Seq<i64> {
    runs.map_values(|m: RunMetrics| m.rusage.system_tv_usec)
}

/// The summaries of wall-clock, user and system time; the first channel
/// that cannot be summarised gives the error.
pub open spec fn context_of(runs: Seq<RunMetrics>) -> Result<ContextStat, StatsError> {
    match (
        summary_of(wall_samples(runs)),
        summary_of(user_samples(runs)),
        summary_of(sys_samples(runs)),
    ) {
        (Ok(wall), Ok(user), Ok(sys)) => Ok(ContextStat { wall, user, sys }),
        (Err(e), _, _) => Err(e),
        (_, Err(e), _) => Err(e),
        (_, _, Err(e)) => Err(e),
    }
}

/// Summarises the runs of a session, channel by channel.
pub fn stats(usages: Vec<RunMetrics>) -> (r: Result<ContextStat, StatsError>)
    ensures
        r == context_of(usages@),
{
    let mut wall: Vec<i64> = Vec::new();
    let mut user: Vec<i64> = Vec::new();
    let mut sys: Vec<i64> = Vec::new();
    let mut i: usize = 0;
    while i < usages.len()
        invariant
            i <= usages@.len(),
            wall@.len() == i && user@.len() == i && sys@.len() == i,
            forall|j: int| 0 <= j < i ==> wall@[j] == #[trigger] usages@[j].wall_clock_usec,
            forall|j: int| 0 <= j < i ==> user@[j] == #[trigger] usages@[j].rusage.user_tv_usec,
            forall|j: int|
                0 <= j < i ==> sys@[j] == #[trigger] usages@[j].rusage.system_tv_usec,
        decreases usages@.len() - i,
    {
        let m = usages[i];
        wall.push(m.wall_clock_usec);
        user.push(m.rusage.user_tv_usec);
        sys.push(m.rusage.system_tv_usec);
        i = i + 1;
    }
    assert(wall@ =~= wall_samples(usages@));
    assert(user@ =~= user_samples(usages@));
    assert(sys@ =~= sys_samples(usages@));
    let w = SummaryStat::new(wall);
    let u = SummaryStat::new(user);
    let s = SummaryStat::new(sys);
    match (w, u, s) {
        (Ok(wall), Ok(user), Ok(sys)) => Ok(ContextStat { wall, user, sys }),
        (Err(e), _, _) => Err(e),
        (_, Err(e), _) => Err(e),
        (_, _, Err(e)) => Err(e),
    }
}

} // verus!
