//! The dataset orchestrator.
//!
//! A dataset is an ordered, immutable sequence of domain records built from
//! a folder's raw samples, together with the capital setup cost, the
//! configured aggregation period and a display-row limit. Raw samples are
//! sorted chronologically by a stable sort, and each record's duration is
//! the gap to its chronological predecessor — the first record gets the
//! device's nominal five-minute interval.

use vstd::multiset::Multiset;
use vstd::prelude::*;
use vstd::string::StringExecFns;

use crate::aggregate_solar_record::{
    all_wf, lemma_run_len_bounds, lemma_sum_metric_bound, run_len, spec_groups, sum_metric,
    sum_metric_exec, AggregateSolarRecord, Metric, METRIC_CEILING, RECORD_COUNT_CEILING,
};
use crate::energy::Energy;
use crate::money::Money;
use crate::period::{key_parts, Period};
use crate::solar_record::{SolarRecord, DEFAULT_DURATION_MINUTES};
use crate::solarman_record::SolarmanRecord;
use crate::timestamp::Timestamp;

verus! {

/// Setup costs are kept within this many money ticks of magnitude.
pub const SETUP_COST_CEILING: i128 = 2_000_000_000_000_000_000_000_000_000_000;

/// The top-level in-memory dataset.
#[derive(Debug)]
pub struct SolarData {
    /// The capital cost of the installation.
    pub setup_cost: Money,
    /// The chronological record sequence.
    pub records: Vec<SolarRecord>,
    /// The granularity reports aggregate at.
    pub aggregation_period: Period,
    /// The most rows a console report shows.
    pub limit: usize,
}

/// Raw samples ordered by timestamp, earliest first.
pub open spec fn sorted_by_time(s: Seq<SolarmanRecord>) -> bool {
    forall|i: int, j: int|
        0 <= i < j < s.len() ==> (#[trigger] s[i]).time.minute_number() <= (
        #[trigger] s[j]).time.minute_number()
}

pub open spec fn all_raw_wf(s: Seq<SolarmanRecord>) -> bool {
    forall|i: int| 0 <= i < s.len() ==> (#[trigger] s[i]).wf()
}

/// Where a stable insertion puts a sample: after every sample already in
/// place whose timestamp is not later.
pub open spec fn spec_insert(s: Seq<SolarmanRecord>, x: SolarmanRecord) -> Seq<SolarmanRecord>
    decreases s.len(),
{
    if s.len() == 0 {
        seq![x]
    } else if s[0].time.minute_number() <= x.time.minute_number() {
        seq![s[0]] + spec_insert(s.skip(1), x)
    } else {
        seq![x] + s
    }
}

/// The stable sort of the samples by timestamp: ties keep their original
/// order, because each sample is inserted after its equal-timestamp
/// predecessors.
pub open spec fn spec_sort(s: Seq<SolarmanRecord>) -> Seq<SolarmanRecord>
    decreases s.len(),
{
    if s.len() == 0 {
        Seq::<SolarmanRecord>::empty()
    } else {
        spec_insert(spec_sort(s.drop_last()), s.last())
    }
}

proof fn lemma_insert_len(s: Seq<SolarmanRecord>, x: SolarmanRecord)
    ensures
        spec_insert(s, x).len() == s.len() + 1,
    decreases s.len(),
{
    if s.len() > 0 && s[0].time.minute_number() <= x.time.minute_number() {
        lemma_insert_len(s.skip(1), x);
    }
}

pub proof fn lemma_sort_len(s: Seq<SolarmanRecord>)
    ensures
        spec_sort(s).len() == s.len(),
    decreases s.len(),
{
    if s.len() > 0 {
        lemma_sort_len(s.drop_last());
        lemma_insert_len(spec_sort(s.drop_last()), s.last());
    }
}

proof fn lemma_insert_multiset(s: Seq<SolarmanRecord>, x: SolarmanRecord)
    ensures
        spec_insert(s, x).to_multiset() == s.to_multiset().insert(x),
    decreases s.len(),
{
    broadcast use vstd::multiset::group_multiset_axioms;

    if s.len() == 0 {
        lemma_cons_multiset(x, s);
        assert(seq![x] + s =~= spec_insert(s, x));
    } else if s[0].time.minute_number() <= x.time.minute_number() {
        lemma_insert_multiset(s.skip(1), x);
        assert(seq![s[0]] + spec_insert(s.skip(1), x) =~= spec_insert(s, x));
        lemma_cons_multiset(s[0], spec_insert(s.skip(1), x));
        lemma_cons_multiset(s[0], s.skip(1));
        assert(seq![s[0]] + s.skip(1) =~= s);
        assert(spec_insert(s, x).to_multiset() =~= s.to_multiset().insert(x));
    } else {
        lemma_cons_multiset(x, s);
        assert(seq![x] + s =~= spec_insert(s, x));
    }
}

proof fn lemma_cons_multiset(x: SolarmanRecord, s: Seq<SolarmanRecord>)
    ensures
        (seq![x] + s).to_multiset() == s.to_multiset().insert(x),
{
    broadcast use vstd::multiset::group_multiset_axioms;

    let c = seq![x] + s;
    c.to_multiset_ensures();
    assert(c.remove(0) =~= s);
    assert(c[0] == x);
    assert(s.to_multiset() == c.to_multiset().remove(x));
    assert(c.contains(x));
    assert(c.to_multiset().count(x) > 0);
    assert(c.to_multiset() =~= s.to_multiset().insert(x));
}

/// The sort keeps exactly the original samples.
pub proof fn lemma_sort_multiset(s: Seq<SolarmanRecord>)
    ensures
        spec_sort(s).to_multiset() == s.to_multiset(),
    decreases s.len(),
{
    broadcast use vstd::multiset::group_multiset_axioms;

    if s.len() > 0 {
        lemma_sort_multiset(s.drop_last());
        lemma_insert_multiset(spec_sort(s.drop_last()), s.last());
        assert(s =~= s.drop_last().push(s.last()));
        s.drop_last().to_multiset_ensures();
        assert(s.to_multiset() =~= s.drop_last().to_multiset().insert(s.last()));
    } else {
        assert(spec_sort(s) =~= s);
    }
}

/// Stable insertion at the position scanned from the end: splitting before
/// the first later timestamp realizes `spec_insert`.
proof fn lemma_insert_at(s: Seq<SolarmanRecord>, x: SolarmanRecord, idx: int)
    requires
        0 <= idx <= s.len(),
        forall|j: int| 0 <= j < idx ==> (#[trigger] s[j]).time.minute_number()
            <= x.time.minute_number(),
        idx < s.len() ==> s[idx].time.minute_number() > x.time.minute_number(),
    ensures
        spec_insert(s, x) == s.take(idx) + seq![x] + s.skip(idx),
    decreases idx,
{
    if s.len() == 0 {
        assert(spec_insert(s, x) =~= s.take(idx) + seq![x] + s.skip(idx));
    } else if idx == 0 {
        assert(s.take(0) + seq![x] + s.skip(0) =~= seq![x] + s);
    } else {
        lemma_insert_at(s.skip(1), x, idx - 1);
        assert(s.skip(1).take(idx - 1) =~= s.take(idx).skip(1));
        assert(seq![s[0]] + (s.skip(1).take(idx - 1) + seq![x] + s.skip(1).skip(idx - 1)) =~= s.take(
            idx,
        ) + seq![x] + s.skip(idx));
    }
}

proof fn lemma_insert_sorted(s: Seq<SolarmanRecord>, x: SolarmanRecord)
    requires
        sorted_by_time(s),
    ensures
        sorted_by_time(spec_insert(s, x)),
    decreases s.len(),
{
    if s.len() == 0 {
    } else if s[0].time.minute_number() <= x.time.minute_number() {
        assert(sorted_by_time(s.skip(1)));
        lemma_insert_sorted(s.skip(1), x);
        let r = seq![s[0]] + spec_insert(s.skip(1), x);
        lemma_insert_len(s.skip(1), x);
        assert forall|i: int, j: int| 0 <= i < j < r.len() implies (
        #[trigger] r[i]).time.minute_number() <= (#[trigger] r[j]).time.minute_number() by {
            if i == 0 {
                lemma_insert_members(s.skip(1), x, j - 1);
            }
        }
    } else {
        let r = seq![x] + s;
        assert forall|i: int, j: int| 0 <= i < j < r.len() implies (
        #[trigger] r[i]).time.minute_number() <= (#[trigger] r[j]).time.minute_number() by {}
    }
}

/// Every element of an insertion is the inserted sample or one of the old
/// ones.
proof fn lemma_insert_members(s: Seq<SolarmanRecord>, x: SolarmanRecord, i: int)
    requires
        0 <= i < spec_insert(s, x).len(),
    ensures
        spec_insert(s, x)[i] == x || exists|j: int|
            0 <= j < s.len() && spec_insert(s, x)[i] == s[j] && (i == 0 || j >= i - 1),
    decreases s.len(),
{
    lemma_insert_len(s, x);
    if s.len() == 0 {
    } else if s[0].time.minute_number() <= x.time.minute_number() {
        if i > 0 {
            lemma_insert_members(s.skip(1), x, i - 1);
            if spec_insert(s.skip(1), x)[i - 1] != x {
                let j = choose|j: int|
                    0 <= j < s.skip(1).len() && spec_insert(s.skip(1), x)[i - 1] == s.skip(1)[j] && (
                    i - 1 == 0 || j >= i - 2);
                assert(s.skip(1)[j] == s[j + 1]);
            }
        }
    } else {
        if i > 0 {
            assert(spec_insert(s, x)[i] == s[i - 1]);
        }
    }
}

pub proof fn lemma_sort_sorted(s: Seq<SolarmanRecord>)
    ensures
        sorted_by_time(spec_sort(s)),
    decreases s.len(),
{
    if s.len() > 0 {
        lemma_sort_sorted(s.drop_last());
        lemma_insert_sorted(spec_sort(s.drop_last()), s.last());
    }
}

/// Sorts raw samples chronologically with a stable insertion sort.
pub fn sort_by_time(raw: Vec<SolarmanRecord>) -> (r: Vec<SolarmanRecord>)
    requires
        all_raw_wf(raw@),
    ensures
        r@ == spec_sort(raw@),
        sorted_by_time(r@),
        r@.len() == raw@.len(),
        all_raw_wf(r@),
{
    let n: usize = raw.len();
    let mut out: Vec<SolarmanRecord> = Vec::new();
    let mut keys: Vec<u64> = Vec::new();
    let mut i: usize = 0;
    while i < n
        invariant
            0 <= i <= n,
            n == raw@.len(),
            all_raw_wf(raw@),
            out@ == spec_sort(raw@.take(i as int)),
            sorted_by_time(out@),
            all_raw_wf(out@),
            out@.len() == i,
            keys@.len() == i,
            forall|k: int| 0 <= k < i ==> keys@[k] == (#[trigger] out@[k]).time.minute_number(),
        decreases n - i,
    {
        let x: SolarmanRecord = raw[i];
        proof {
            crate::timestamp::lemma_day_number_bounds(x.time);
        }
        let key: u64 = x.time.to_minute_number();
        let mut idx: usize = out.len();
        while idx > 0 && keys[idx - 1] > key
            invariant
                0 <= idx <= out@.len(),
                keys@.len() == out@.len(),
                forall|k: int| 0 <= k < out@.len() ==> keys@[k] == (
                #[trigger] out@[k]).time.minute_number(),
                key == x.time.minute_number(),
                sorted_by_time(out@),
                forall|k: int| idx <= k < out@.len() ==> (#[trigger] out@[k]).time.minute_number()
                    > x.time.minute_number(),
            decreases idx,
        {
            idx = idx - 1;
        }
        proof {
            assert forall|j: int| 0 <= j < idx implies (#[trigger] out@[j]).time.minute_number()
                <= x.time.minute_number() by {
                if idx > 0 {
                    assert(out@[idx - 1].time.minute_number() <= x.time.minute_number());
                    assert(out@[j].time.minute_number() <= out@[idx - 1].time.minute_number());
                }
            }
            lemma_insert_at(out@, x, idx as int);
            lemma_insert_sorted(out@, x);
            assert(raw@.take(i + 1).drop_last() =~= raw@.take(i as int));
            assert(raw@.take(i + 1).last() == raw@[i as int]);
        }
        out.insert(idx, x);
        keys.insert(idx, key);
        proof {
            assert(out@ =~= spec_sort(raw@.take(i as int)).take(idx as int) + seq![x] + spec_sort(
                raw@.take(i as int),
            ).skip(idx as int));
        }
        i = i + 1;
    }
    proof {
        assert(raw@.take(n as int) =~= raw@);
    }
    out
}

impl SolarData {
    /// The dataset's records are well-formed and countable within the
    /// specified ceilings, and the setup cost within its range.
    pub open spec fn wf(self) -> bool {
        &&& all_wf(self.records@)
        &&& self.records@.len() <= RECORD_COUNT_CEILING
        &&& -SETUP_COST_CEILING <= self.setup_cost.ticks <= SETUP_COST_CEILING
    }

    pub fn new(
        setup_cost: Money,
        records: Vec<SolarRecord>,
        aggregation_period: Period,
        limit: usize,
    ) -> (r: SolarData)
        requires
            all_wf(records@),
            records@.len() <= RECORD_COUNT_CEILING,
            -SETUP_COST_CEILING <= setup_cost.ticks <= SETUP_COST_CEILING,
        ensures
            r.setup_cost == setup_cost,
            r.records == records,
            r.aggregation_period == aggregation_period,
            r.limit == limit,
            r.wf(),
    {
        SolarData { setup_cost, records, aggregation_period, limit }
    }

    /// Builds the dataset from raw samples: sort chronologically (stable),
    /// then infer each record's duration as the gap to its predecessor, the
    /// first getting the nominal five minutes.
    pub fn from_records(
        raw: Vec<SolarmanRecord>,
        aggregation_period: Period,
        setup_cost: Money,
        limit: usize,
    ) -> (r: SolarData)
        requires
            all_raw_wf(raw@),
            raw@.len() <= RECORD_COUNT_CEILING,
            -SETUP_COST_CEILING <= setup_cost.ticks <= SETUP_COST_CEILING,
        ensures
            r.wf(),
            r.setup_cost == setup_cost,
            r.aggregation_period == aggregation_period,
            r.limit == limit,
            r.records@.len() == raw@.len(),
            ({
                let sorted = spec_sort(raw@);
                &&& forall|i: int|
                    0 <= i < raw@.len() ==> {
                        let rec = #[trigger] r.records@[i];
                        &&& rec.date_time == sorted[i].time
                        &&& rec.production == sorted[i].production
                        &&& rec.consumption == sorted[i].consumption
                        &&& rec.grid == sorted[i].grid
                        &&& rec.battery == sorted[i].battery
                    }
                &&& raw@.len() > 0 ==> r.records@[0].duration == DEFAULT_DURATION_MINUTES
                &&& forall|i: int|
                    0 < i < raw@.len() ==> (#[trigger] r.records@[i]).duration == sorted[
                        i
                    ].time.minute_number() - sorted[i - 1].time.minute_number()
                &&& forall|i: int, j: int|
                    0 <= i < j < raw@.len() ==> (
                    #[trigger] r.records@[i]).date_time.minute_number() <= (
                    #[trigger] r.records@[j]).date_time.minute_number()
            }),
    {
        proof {
            lemma_sort_len(raw@);
        }
        let sorted: Vec<SolarmanRecord> = sort_by_time(raw);
        let mut records: Vec<SolarRecord> = Vec::new();
        let mut start_time: Option<crate::timestamp::Timestamp> = None;
        let mut i: usize = 0;
        while i < sorted.len()
            invariant
                0 <= i <= sorted@.len(),
                all_raw_wf(sorted@),
                sorted_by_time(sorted@),
                records@.len() == i,
                all_wf(records@),
                match start_time {
                    Some(t) => i > 0 && t == sorted@[i - 1].time,
                    None => i == 0,
                },
                forall|k: int|
                    0 <= k < i ==> {
                        let rec = #[trigger] records@[k];
                        &&& rec.date_time == sorted@[k].time
                        &&& rec.production == sorted@[k].production
                        &&& rec.consumption == sorted@[k].consumption
                        &&& rec.grid == sorted@[k].grid
                        &&& rec.battery == sorted@[k].battery
                    },
                i > 0 ==> records@[0].duration == DEFAULT_DURATION_MINUTES,
                forall|k: int|
                    0 < k < i ==> (#[trigger] records@[k]).duration == sorted@[
                        k
                    ].time.minute_number() - sorted@[k - 1].time.minute_number(),
            decreases sorted@.len() - i,
        {
            let rec = SolarRecord::from_solarman_record(&sorted[i], start_time);
            records.push(rec);
            start_time = Some(sorted[i].time);
            i = i + 1;
        }
        proof {
            assert forall|a: int, b: int| 0 <= a < b < records@.len() implies (
            #[trigger] records@[a]).date_time.minute_number() <= (
            #[trigger] records@[b]).date_time.minute_number() by {
                assert(records@[a].date_time == sorted@[a].time);
                assert(records@[b].date_time == sorted@[b].time);
            }
        }
        SolarData { setup_cost, records, aggregation_period, limit }
    }

    /// Partitions the chronological records into maximal contiguous runs of
    /// equal period keys and sums each run into one bucket, keyed by the
    /// run's period key string. Runs compare calendar components, which
    /// `crate::period::lemma_same_key_iff_same_string` shows is the same as
    /// comparing the key strings themselves.
    #[verifier::rlimit(60)]
    pub fn aggregate(&self, period: Period) -> (r: Vec<AggregateSolarRecord>)
        requires
            self.wf(),
        ensures
            ({
                let gs = spec_groups(period, self.records@);
                &&& r@.len() == gs.len()
                &&& forall|k: int|
                    0 <= k < gs.len() ==> (#[trigger] r@[k]).matches(gs[k]) && r@[k].key@
                        == crate::period::spec_key(period, gs[k][0].date_time)
            }),
    {
        let s = &self.records;
        let ghost gs = spec_groups(period, s@);
        let mut result: Vec<AggregateSolarRecord> = Vec::new();
        let mut i: usize = 0;
        proof {
            assert(s@.skip(0) =~= s@);
            assert(gs.skip(0) =~= gs);
        }
        while i < s.len()
            invariant
                0 <= i <= s@.len() <= RECORD_COUNT_CEILING,
                all_wf(s@),
                gs == spec_groups(period, s@),
                result@.len() <= gs.len(),
                spec_groups(period, s@.skip(i as int)) == gs.skip(result@.len() as int),
                i < s@.len() ==> result@.len() < gs.len(),
                i == s@.len() ==> result@.len() == gs.len(),
                forall|k: int|
                    0 <= k < result@.len() ==> (#[trigger] result@[k]).matches(gs[k]) && result@[
                        k
                    ].key@ == crate::period::spec_key(period, gs[k][0].date_time),
            decreases s@.len() - i,
        {
            let ghost rest = s@.skip(i as int);
            let mut j: usize = i + 1;
            while j < s.len() && s[j - 1].date_time_same_key(period, &s[j])
                invariant
                    i < j <= s@.len(),
                    all_wf(s@),
                    forall|k: int|
                        i < k < j ==> key_parts(period, (#[trigger] s@[k]).date_time) == key_parts(
                            period,
                            s@[k - 1].date_time,
                        ),
                decreases s@.len() - j,
            {
                j = j + 1;
            }
            proof {
                lemma_scan_is_run_len(period, rest, (j - i) as int);
            }
            let mut group: Vec<SolarRecord> = Vec::new();
            let mut k: usize = i;
            while k < j
                invariant
                    i <= k <= j <= s@.len(),
                    all_wf(s@),
                    group@ == s@.subrange(i as int, k as int),
                decreases j - k,
            {
                proof {
                    assert(s@.subrange(i as int, k + 1) =~= s@.subrange(i as int, k as int).push(
                        s@[k as int],
                    ));
                }
                group.push(s[k]);
                k = k + 1;
            }
            proof {
                assert(all_wf(group@));
            }
            let key_string = period.key(&s[i].date_time());
            let agg = AggregateSolarRecord::new(&group, key_string.as_str());
            proof {
                let rl = run_len(period, rest);
                lemma_run_len_bounds(period, rest);
                assert(spec_groups(period, rest) == seq![rest.take(rl)] + spec_groups(
                    period,
                    rest.skip(rl),
                ));
                assert(rest.take(rl) =~= s@.subrange(i as int, j as int));
                assert(rest.skip(rl) =~= s@.skip(j as int));
                assert(gs.skip(result@.len() as int).first() == rest.take(rl));
                assert(gs[result@.len() as int] == rest.take(rl));
                assert(gs.skip(result@.len() as int).drop_first() =~= spec_groups(
                    period,
                    s@.skip(j as int),
                ));
                assert(gs.skip(result@.len() as int).drop_first() =~= gs.skip(
                    result@.len() as int + 1,
                ));
                assert(rest.take(rl)[0] == s@[i as int]);
            }
            result.push(agg);
            i = j;
        }
        proof {
            assert(s@.skip(i as int) =~= Seq::<SolarRecord>::empty());
        }
        result
    }

    /// The sum of a metric across the whole dataset. Aggregating first and
    /// then summing the buckets gives the same exact total.
    pub fn metric_total(&self, m: Metric) -> (t: i128)
        requires
            self.wf(),
        ensures
            t == sum_metric(self.records@, m),
            forall|p: Period|
                crate::aggregate_solar_record::sum_metric_groups(
                    #[trigger] spec_groups(p, self.records@),
                    m,
                ) == t,
    {
        proof {
            assert forall|p: Period|
                crate::aggregate_solar_record::sum_metric_groups(
                    #[trigger] spec_groups(p, self.records@),
                    m,
                ) == sum_metric(self.records@, m) by {
                crate::aggregate_solar_record::lemma_groups_preserve_sums(p, self.records@, m);
            }
        }
        sum_metric_exec(&self.records, m)
    }

    pub fn old_cost(&self) -> (r: Money)
        requires
            self.wf(),
        ensures
            r.ticks == sum_metric(self.records@, Metric::OldCost),
    {
        Money::from_ticks(self.metric_total(Metric::OldCost))
    }

    pub fn cost(&self) -> (r: Money)
        requires
            self.wf(),
        ensures
            r.ticks == sum_metric(self.records@, Metric::Cost),
    {
        Money::from_ticks(self.metric_total(Metric::Cost))
    }

    pub fn savings(&self) -> (r: Money)
        requires
            self.wf(),
        ensures
            r.ticks == sum_metric(self.records@, Metric::Savings),
    {
        Money::from_ticks(self.metric_total(Metric::Savings))
    }

    pub fn production(&self) -> (r: Energy)
        requires
            self.wf(),
        ensures
            r.ticks == sum_metric(self.records@, Metric::Production),
    {
        Energy::from_ticks(self.metric_total(Metric::Production))
    }

    pub fn consumption(&self) -> (r: Energy)
        requires
            self.wf(),
        ensures
            r.ticks == sum_metric(self.records@, Metric::Consumption),
    {
        Energy::from_ticks(self.metric_total(Metric::Consumption))
    }

    pub fn purchased(&self) -> (r: Energy)
        requires
            self.wf(),
        ensures
            r.ticks == sum_metric(self.records@, Metric::Purchased),
    {
        Energy::from_ticks(self.metric_total(Metric::Purchased))
    }

    pub fn purchased_without_boost(&self) -> (r: Energy)
        requires
            self.wf(),
        ensures
            r.ticks == sum_metric(self.records@, Metric::PurchasedWithoutBoost),
    {
        Energy::from_ticks(self.metric_total(Metric::PurchasedWithoutBoost))
    }

    pub fn feed_in(&self) -> (r: Energy)
        requires
            self.wf(),
        ensures
            r.ticks == sum_metric(self.records@, Metric::FeedIn),
    {
        Energy::from_ticks(self.metric_total(Metric::FeedIn))
    }
}

impl SolarData {
    /// The dataset's total savings, in money ticks.
    pub open spec fn spec_savings_total(self) -> int {
        sum_metric(self.records@, Metric::Savings)
    }

    /// What is still owed on the installation: the setup cost less the
    /// savings so far, in money ticks.
    pub open spec fn spec_remaining_ticks(self) -> int {
        self.setup_cost.ticks - self.spec_savings_total()
    }

    /// How many buckets the dataset aggregates into at a period.
    pub open spec fn spec_bucket_count(self, p: Period) -> int {
        spec_groups(p, self.records@).len() as int
    }

    /// The projected days to payback: the remaining balance divided by the
    /// mean savings per day bucket, rounded to the nearest day.
    pub open spec fn spec_remaining_days(self) -> int {
        crate::money::round_div_any(
            self.spec_remaining_ticks() * self.spec_bucket_count(Period::Day),
            self.spec_savings_total(),
        )
    }

    proof fn lemma_savings_in_range(self)
        requires
            self.wf(),
        ensures
            -(4_294_967_296 * METRIC_CEILING) <= self.spec_savings_total() <= 4_294_967_296
                * METRIC_CEILING,
            self.spec_savings_total() > i128::MIN,
            i128::MIN < self.spec_remaining_ticks() < i128::MAX,
    {
        lemma_sum_metric_bound(self.records@, Metric::Savings);
        assert(self.records@.len() * METRIC_CEILING <= 4_294_967_296 * METRIC_CEILING)
            by (nonlinear_arith)
            requires
                0 <= self.records@.len() <= 4_294_967_296,
        ;
    }

    /// The total savings divided by the bucket count at a period, rounded
    /// to the nearest money tick, ties away from zero; nothing when the
    /// dataset has no buckets.
    pub fn mean_savings(&self, period: Period) -> (r: Option<Money>)
        requires
            self.wf(),
        ensures
            match r {
                Some(m) => self.spec_bucket_count(period) > 0 && m.ticks
                    == crate::money::round_div_any(
                    self.spec_savings_total(),
                    self.spec_bucket_count(period),
                ),
                None => self.spec_bucket_count(period) == 0,
            },
    {
        let aggs = self.aggregate(period);
        let n: usize = aggs.len();
        if n == 0 {
            return None;
        }
        let sv: i128 = self.metric_total(Metric::Savings);
        proof {
            self.lemma_savings_in_range();
        }
        Some(Money::from_ticks(crate::money::round_div_i128(sv, n as i128)))
    }

    /// The setup cost less the savings so far; negative once payback is
    /// exceeded.
    pub fn remaining_setup_cost(&self) -> (r: Money)
        requires
            self.wf(),
        ensures
            r.ticks == self.spec_remaining_ticks(),
    {
        proof {
            self.lemma_savings_in_range();
        }
        self.setup_cost.sub(&self.savings())
    }

    /// The projected days to payback, rounded to the nearest whole day;
    /// nothing when the dataset has no day buckets, no savings at all, or
    /// the projection leaves the representable range.
    pub fn remaining_days(&self) -> (r: Option<i64>)
        requires
            self.wf(),
        ensures
            match r {
                Some(d) => self.spec_bucket_count(Period::Day) > 0 && self.spec_savings_total()
                    != 0 && d == self.spec_remaining_days(),
                None => self.spec_bucket_count(Period::Day) == 0 || self.spec_savings_total() == 0
                    || self.spec_remaining_ticks() * self.spec_bucket_count(Period::Day)
                    > i128::MAX || self.spec_remaining_ticks() * self.spec_bucket_count(Period::Day)
                    < -i128::MAX || self.spec_remaining_days() > i64::MAX
                    || self.spec_remaining_days() < i64::MIN,
            },
    {
        let aggs = self.aggregate(Period::Day);
        let n: usize = aggs.len();
        if n == 0 {
            return None;
        }
        let sv: i128 = self.metric_total(Metric::Savings);
        if sv == 0 {
            return None;
        }
        let rem: i128 = self.remaining_setup_cost().ticks;
        let nn: i128 = n as i128;
        let lim: i128 = i128::MAX / nn;
        proof {
            let remi = rem as int;
            let nni = nn as int;
            let maxi = i128::MAX as int;
            assert((maxi / nni) * nni <= maxi && (remi > maxi / nni ==> remi * nni > maxi) && (remi
                < -(maxi / nni) ==> remi * nni < -maxi) && (-(maxi / nni) <= remi <= maxi / nni
                ==> -maxi <= remi * nni <= maxi)) by (nonlinear_arith)
                requires
                    nni > 0,
            ;
        }
        if rem > lim || rem < -lim {
            return None;
        }
        let num: i128 = rem * nn;
        let days: i128 = if sv > 0 {
            crate::money::round_div_i128(num, sv)
        } else {
            proof {
                self.lemma_savings_in_range();
            }
            -crate::money::round_div_i128(num, -sv)
        };
        if days > i64::MAX as i128 || days < i64::MIN as i128 {
            return None;
        }
        Some(days as i64)
    }

    /// The projected payoff date counted from the given day: that day moved
    /// by the remaining-days projection. Nothing comes back only when the
    /// projection itself is undefined or unrepresentable, or the date would
    /// leave the supported calendar range.
    pub fn payoff_date_from(&self, today: &Timestamp) -> (r: Option<Timestamp>)
        requires
            self.wf(),
            today.valid(),
        ensures
            r matches Some(d) ==> {
                &&& d.valid()
                &&& self.spec_bucket_count(Period::Day) > 0
                &&& self.spec_savings_total() != 0
                &&& d.day_number() == today.day_number() + self.spec_remaining_days()
            },
            r is None ==> self.spec_bucket_count(Period::Day) == 0 || self.spec_savings_total()
                == 0 || self.spec_remaining_ticks() * self.spec_bucket_count(Period::Day)
                > i128::MAX || self.spec_remaining_ticks() * self.spec_bucket_count(Period::Day)
                < -i128::MAX || self.spec_remaining_days() > i64::MAX || self.spec_remaining_days()
                < i64::MIN || !(0 <= today.day_number() + self.spec_remaining_days()
                < crate::timestamp::day_limit()),
    {
        let days: i64 = match self.remaining_days() {
            Some(d) => d,
            None => { return None },
        };
        crate::timestamp::add_days(today, days)
    }

    /// The projected payoff date counted from the current UTC date, or
    /// nothing when the clock cannot be read or the projection falls
    /// outside the supported calendar.
    pub fn payoff_date(&self) -> (r: Option<Timestamp>)
        requires
            self.wf(),
        ensures
            r matches Some(d) ==> d.valid(),
    {
        let (y, mo, dy) = match today_ymd() {
            Some(d) => d,
            None => { return None },
        };
        if y < crate::timestamp::MIN_YEAR as i32 || y > crate::timestamp::MAX_YEAR as i32 {
            return None;
        }
        let today = Timestamp { year: y as u16, month: mo, day: dy, hour: 0, minute: 0 };
        self.payoff_date_from(&today)
    }
}

/// Relies on std's `SystemTime`, chrono's `DateTime::from_timestamp` and
/// its `Datelike` accessors: the current UTC date's year, month and day,
/// which chrono documents as a real calendar date — the month is 1 to 12
/// and the day fits its month. A clock before the Unix epoch or outside
/// chrono's range comes back as nothing; no input aborts.
#[verifier::external_body]
fn today_ymd() -> (r: Option<(i32, u8, u8)>)
    ensures
        r matches Some(d) ==> 1 <= d.1 <= 12 && 1 <= d.2 <= crate::timestamp::days_in_month(
            d.0 as int,
            d.1 as int,
        ),
{
    let secs = match std::time::SystemTime::now().duration_since(std::time::UNIX_EPOCH) {
        Ok(elapsed) => elapsed.as_secs() as i64,
        Err(_) => return None,
    };
    let date = match chrono::DateTime::<chrono::Utc>::from_timestamp(secs, 0) {
        Some(now) => now.date_naive(),
        None => return None,
    };
    Some((
        chrono::Datelike::year(&date),
        chrono::Datelike::month(&date) as u8,
        chrono::Datelike::day(&date) as u8,
    ))
}

/// The smaller of three amounts.
pub open spec fn min3(a: int, b: int, c: int) -> int {
    if a <= b && a <= c {
        a
    } else if b <= c {
        b
    } else {
        c
    }
}

/// One interval of the battery replay: solar surplus charges the battery
/// (up to the charge rate and the capacity), solar deficit discharges it
/// (up to the charge rate, never below the twenty-percent reserve), and in
/// the night-boost window the battery additionally charges from the grid.
/// Returns the state of charge after the interval and the grid delta the
/// interval reports, both in energy ticks.
pub open spec fn sim_step(soc: int, r: SolarRecord, capacity: int, rate: int) -> (int, int) {
    let d = r.duration as int;
    let cap_t = capacity * 300;
    let reserve = capacity * 60;
    let max_c = rate * d * 5;
    let delta0 = (r.production - r.consumption) * d * 5;
    let charge = if delta0 > 0 && soc < cap_t {
        min3(delta0, max_c, cap_t - soc)
    } else {
        0int
    };
    let discharge = if delta0 < 0 && soc > reserve {
        min3(-delta0, max_c, soc - reserve)
    } else {
        0int
    };
    let soc1 = soc + charge - discharge;
    let delta1 = delta0 - charge + discharge;
    let night = 2 <= r.date_time.hour < 4;
    let room = cap_t - soc1;
    let g = if night {
        if room <= 0 {
            0int
        } else if max_c <= room {
            max_c
        } else {
            room
        }
    } else {
        0int
    };
    (soc1 + g, delta1 - g)
}

/// The state of charge after replaying a record sequence from empty.
pub open spec fn spec_soc_after(s: Seq<SolarRecord>, capacity: int, rate: int) -> int
    decreases s.len(),
{
    if s.len() == 0 {
        0
    } else {
        sim_step(spec_soc_after(s.drop_last(), capacity, rate), s.last(), capacity, rate).0
    }
}

/// The grid delta the replay reports for interval `i`, in energy ticks.
pub open spec fn spec_sim_grid_ticks(s: Seq<SolarRecord>, i: int, capacity: int, rate: int) -> int {
    sim_step(spec_soc_after(s.take(i), capacity, rate), s[i], capacity, rate).1
}

/// The battery flow of interval `i`: the change in state of charge, in
/// energy ticks.
pub open spec fn spec_sim_soc_delta(s: Seq<SolarRecord>, i: int, capacity: int, rate: int) -> int {
    sim_step(spec_soc_after(s.take(i), capacity, rate), s[i], capacity, rate).0 - spec_soc_after(
        s.take(i),
        capacity,
        rate,
    )
}

/// An interval's energy in ticks rendered as mean power in whole watts,
/// rounded to the nearest, ties away from zero.
pub open spec fn spec_watts(t: int, d: int) -> int {
    if d <= 0 {
        0
    } else if t >= 0 {
        crate::money::round_div(t, 5 * d)
    } else {
        -crate::money::round_div(-t, 5 * d)
    }
}

pub open spec fn clamp_to_i32(x: int) -> int {
    if x > i32::MAX {
        i32::MAX as int
    } else if x < i32::MIN {
        i32::MIN as int
    } else {
        x
    }
}

/// Within one replay interval the state of charge stays within the
/// battery, and the energy moved never exceeds the charge rate held for
/// the interval — twice that in the night-boost window, where scheduled
/// grid charging stacks on solar charging.
pub proof fn lemma_sim_step_bounds(soc: int, r: SolarRecord, capacity: int, rate: int)
    requires
        r.wf(),
        0 <= capacity <= u32::MAX,
        0 <= rate <= u32::MAX,
        0 <= soc <= capacity * 300,
    ensures
        0 <= sim_step(soc, r, capacity, rate).0 <= capacity * 300,
        -(rate * r.duration * 5) <= sim_step(soc, r, capacity, rate).0 - soc <= 2 * (rate
            * r.duration * 5),
        !(2 <= r.date_time.hour < 4) ==> sim_step(soc, r, capacity, rate).0 - soc <= rate
            * r.duration * 5,
{
    assert(0 <= capacity * 60 <= capacity * 300) by (nonlinear_arith)
        requires
            capacity >= 0,
    ;
    assert(rate * (r.duration as int) * 5 >= 0) by (nonlinear_arith)
        requires
            rate >= 0,
            r.duration >= 0,
    ;
}

impl SolarData {
    /// Replays the records against a hypothetical battery of the given
    /// capacity (watt-hours) and charge rate (watts), starting empty.
    /// Returns the per-interval simulated grid flow and battery flow, each
    /// rounded to the nearest whole watt. The state of charge never leaves
    /// the battery's range.
    pub fn simulate(&self, capacity: u32, charge_rate: u32) -> (r: (Vec<i32>, Vec<i32>))
        requires
            self.wf(),
        ensures
            r.0@.len() == self.records@.len(),
            r.1@.len() == self.records@.len(),
            forall|i: int|
                0 <= i < self.records@.len() ==> #[trigger] r.0@[i] == clamp_to_i32(
                    spec_watts(
                        spec_sim_grid_ticks(self.records@, i, capacity as int, charge_rate as int),
                        self.records@[i].duration as int,
                    ),
                ),
            forall|i: int|
                0 <= i < self.records@.len() ==> #[trigger] r.1@[i] == clamp_to_i32(
                    spec_watts(
                        spec_sim_soc_delta(self.records@, i, capacity as int, charge_rate as int),
                        self.records@[i].duration as int,
                    ),
                ),
            forall|i: int|
                0 <= i <= self.records@.len() ==> 0 <= spec_soc_after(
                    #[trigger] self.records@.take(i),
                    capacity as int,
                    charge_rate as int,
                ) <= capacity * 300,
            forall|i: int|
                0 <= i < self.records@.len() ==> {
                    let moved = spec_sim_soc_delta(
                        self.records@,
                        i,
                        capacity as int,
                        charge_rate as int,
                    );
                    let bound = charge_rate * (#[trigger] self.records@[i]).duration * 5;
                    &&& -bound <= moved <= 2 * bound
                    &&& !(2 <= self.records@[i].date_time.hour < 4) ==> moved <= bound
                },
    {
        let cap_t: i128 = capacity as i128 * 300;
        let reserve: i128 = capacity as i128 * 60;
        let mut grid_out: Vec<i32> = Vec::new();
        let mut batt_out: Vec<i32> = Vec::new();
        let mut soc: i128 = 0;
        let mut i: usize = 0;
        proof {
            assert(self.records@.take(0) =~= Seq::<SolarRecord>::empty());
        }
        while i < self.records.len()
            invariant
                0 <= i <= self.records@.len(),
                all_wf(self.records@),
                cap_t == capacity as int * 300,
                reserve == capacity as int * 60,
                grid_out@.len() == i,
                batt_out@.len() == i,
                soc == spec_soc_after(self.records@.take(i as int), capacity as int, charge_rate as int),
                0 <= soc <= cap_t,
                forall|k: int|
                    0 <= k < i ==> #[trigger] grid_out@[k] == clamp_to_i32(
                        spec_watts(
                            spec_sim_grid_ticks(self.records@, k, capacity as int, charge_rate as int),
                            self.records@[k].duration as int,
                        ),
                    ),
                forall|k: int|
                    0 <= k < i ==> #[trigger] batt_out@[k] == clamp_to_i32(
                        spec_watts(
                            spec_sim_soc_delta(self.records@, k, capacity as int, charge_rate as int),
                            self.records@[k].duration as int,
                        ),
                    ),
                forall|k: int|
                    0 <= k <= i ==> 0 <= spec_soc_after(
                        #[trigger] self.records@.take(k),
                        capacity as int,
                        charge_rate as int,
                    ) <= capacity * 300,
            decreases self.records@.len() - i,
        {
            let rec: SolarRecord = self.records[i];
            let d: u64 = rec.duration;
            proof {
                assert(0 <= (charge_rate as int) * (d as int) * 5 < 200_000_000_000_000_000_000)
                    by (nonlinear_arith)
                    requires
                        0 <= charge_rate as int <= 0x1_0000_0000,
                        0 <= d as int <= crate::timestamp::MINUTE_CEILING as int,
                ;
                assert(0 <= (charge_rate as int) * (d as int) < 40_000_000_000_000_000_000)
                    by (nonlinear_arith)
                    requires
                        0 <= charge_rate as int <= 0x1_0000_0000,
                        0 <= d as int <= crate::timestamp::MINUTE_CEILING as int,
                ;
                assert(-40_000_000_000_000_000_000 <= (rec.production as int
                    - rec.consumption as int) * (d as int) <= 40_000_000_000_000_000_000
                    && -200_000_000_000_000_000_000 <= (rec.production as int
                    - rec.consumption as int) * (d as int) * 5 <= 200_000_000_000_000_000_000)
                    by (nonlinear_arith)
                    requires
                        -0x1_0000_0000 <= rec.production as int - rec.consumption as int
                            <= 0x1_0000_0000,
                        0 <= d as int <= crate::timestamp::MINUTE_CEILING as int,
                ;
            }
            let max_c: i128 = charge_rate as i128 * d as i128 * 5;
            let delta0: i128 = (rec.production as i128 - rec.consumption as i128) * d as i128 * 5;
            let charge: i128 = if delta0 > 0 && soc < cap_t {
                min3_exec(delta0, max_c, cap_t - soc)
            } else {
                0
            };
            let discharge: i128 = if delta0 < 0 && soc > reserve {
                min3_exec(-delta0, max_c, soc - reserve)
            } else {
                0
            };
            let soc1: i128 = soc + charge - discharge;
            let delta1: i128 = delta0 - charge + discharge;
            let night: bool = rec.date_time.hour >= 2 && rec.date_time.hour < 4;
            let room: i128 = cap_t - soc1;
            let g: i128 = if night {
                if room <= 0 {
                    0
                } else if max_c <= room {
                    max_c
                } else {
                    room
                }
            } else {
                0
            };
            let soc2: i128 = soc1 + g;
            let out_ticks: i128 = delta1 - g;
            proof {
                lemma_sim_step_bounds(soc as int, rec, capacity as int, charge_rate as int);
                assert(self.records@.take(i + 1).drop_last() =~= self.records@.take(i as int));
                assert(self.records@.take(i + 1).last() == self.records@[i as int]);
                assert(self.records@.take(i + 1)[i as int] == self.records@[i as int]);
            }
            let gw: i32 = ticks_to_watts(out_ticks, d);
            let bw: i32 = ticks_to_watts(soc2 - soc, d);
            grid_out.push(gw);
            batt_out.push(bw);
            soc = soc2;
            i = i + 1;
        }
        proof {
            assert(self.records@.take(self.records@.len() as int) =~= self.records@);
            assert forall|ii: int| 0 <= ii < self.records@.len() implies {
                let moved = spec_sim_soc_delta(
                    self.records@,
                    ii,
                    capacity as int,
                    charge_rate as int,
                );
                let bound = charge_rate * (#[trigger] self.records@[ii]).duration * 5;
                &&& -bound <= moved <= 2 * bound
                &&& !(2 <= self.records@[ii].date_time.hour < 4) ==> moved <= bound
            } by {
                lemma_sim_step_bounds(
                    spec_soc_after(self.records@.take(ii), capacity as int, charge_rate as int),
                    self.records@[ii],
                    capacity as int,
                    charge_rate as int,
                );
            }
        }
        (grid_out, batt_out)
    }

    /// A dataset with the hypothetical battery added: every record's grid
    /// and battery fields are replaced by the simulated series, the setup
    /// cost grows by the battery's cost, and the original dataset is
    /// untouched.
    pub fn with_additional_battery(&self, capacity: u32, charge_rate: u32, extra_cost: Money) -> (r:
        SolarData)
        requires
            self.wf(),
            -SETUP_COST_CEILING <= self.setup_cost.ticks + extra_cost.ticks <= SETUP_COST_CEILING,
        ensures
            r.wf(),
            r.setup_cost.ticks == self.setup_cost.ticks + extra_cost.ticks,
            r.aggregation_period == self.aggregation_period,
            r.limit == self.limit,
            r.records@.len() == self.records@.len(),
            forall|i: int|
                0 <= i < self.records@.len() ==> {
                    let rec = #[trigger] r.records@[i];
                    let orig = self.records@[i];
                    &&& rec.date_time == orig.date_time
                    &&& rec.duration == orig.duration
                    &&& rec.production == orig.production
                    &&& rec.consumption == orig.consumption
                    &&& rec.grid == clamp_to_i32(
                        spec_watts(
                            spec_sim_grid_ticks(self.records@, i, capacity as int, charge_rate as int),
                            orig.duration as int,
                        ),
                    )
                    &&& rec.battery == clamp_to_i32(
                        spec_watts(
                            spec_sim_soc_delta(self.records@, i, capacity as int, charge_rate as int),
                            orig.duration as int,
                        ),
                    )
                },
    {
        let (sim_grid, sim_batt) = self.simulate(capacity, charge_rate);
        let mut records: Vec<SolarRecord> = Vec::new();
        let mut i: usize = 0;
        while i < self.records.len()
            invariant
                0 <= i <= self.records@.len(),
                all_wf(self.records@),
                sim_grid@.len() == self.records@.len(),
                sim_batt@.len() == self.records@.len(),
                records@.len() == i,
                all_wf(records@),
                forall|k: int|
                    0 <= k < i ==> {
                        let rec = #[trigger] records@[k];
                        let orig = self.records@[k];
                        &&& rec.date_time == orig.date_time
                        &&& rec.duration == orig.duration
                        &&& rec.production == orig.production
                        &&& rec.consumption == orig.consumption
                        &&& rec.grid == sim_grid@[k]
                        &&& rec.battery == sim_batt@[k]
                    },
            decreases self.records@.len() - i,
        {
            records.push(self.records[i].with_grid_and_battery(sim_grid[i], sim_batt[i]));
            i = i + 1;
        }
        SolarData {
            setup_cost: self.setup_cost.add(&extra_cost),
            records,
            aggregation_period: self.aggregation_period,
            limit: self.limit,
        }
    }

    /// Compares the simulated grid series against the recorded one and
    /// reports the mean signed difference in watts; a diagnostic, nothing
    /// when the dataset is empty.
    pub fn test_simulate(&self, capacity: u32, charge_rate: u32) -> (r: Option<i128>)
        requires
            self.wf(),
        ensures
            match r {
                Some(v) => self.records@.len() > 0 && v == crate::money::round_div_any(
                    spec_grid_diff_sum(
                        self.records@,
                        capacity as int,
                        charge_rate as int,
                        self.records@.len() as int,
                    ),
                    self.records@.len() as int,
                ),
                None => self.records@.len() == 0,
            },
    {
        let (sim_grid, _sim_batt) = self.simulate(capacity, charge_rate);
        let n: usize = self.records.len();
        if n == 0 {
            return None;
        }
        let mut acc: i128 = 0;
        let mut k: usize = 0;
        while k < n
            invariant
                0 <= k <= n,
                n == self.records@.len(),
                n <= RECORD_COUNT_CEILING,
                sim_grid@.len() == n,
                all_wf(self.records@),
                forall|j: int|
                    0 <= j < n ==> #[trigger] sim_grid@[j] == clamp_to_i32(
                        spec_watts(
                            spec_sim_grid_ticks(self.records@, j, capacity as int, charge_rate as int),
                            self.records@[j].duration as int,
                        ),
                    ),
                acc == spec_grid_diff_sum(
                    self.records@,
                    capacity as int,
                    charge_rate as int,
                    k as int,
                ),
                -(k as int) * 0x1_0000_0001 <= acc <= (k as int) * 0x1_0000_0001,
            decreases n - k,
        {
            proof {
                assert((k as int) * 0x1_0000_0001 + 0x1_0000_0001 == (k + 1) as int * 0x1_0000_0001)
                    by (nonlinear_arith);
                assert((k + 1) as int * 0x1_0000_0001 <= 4_294_967_296 * 0x1_0000_0001)
                    by (nonlinear_arith)
                    requires
                        k + 1 <= 4_294_967_296,
                ;
            }
            acc = acc + (sim_grid[k] as i128 - self.records[k].grid as i128);
            k = k + 1;
        }
        proof {
            assert((n as int) * 0x1_0000_0001 <= 4_294_967_296 * 0x1_0000_0001)
                by (nonlinear_arith)
                requires
                    n as int <= 4_294_967_296,
            ;
        }
        Some(crate::money::round_div_i128(acc, n as i128))
    }
}

/// The running sum of the first `k` signed differences between the
/// simulated and the recorded grid series, in watts.
pub open spec fn spec_grid_diff_sum(s: Seq<SolarRecord>, capacity: int, rate: int, k: int) -> int
    decreases k,
{
    if k <= 0 {
        0
    } else {
        spec_grid_diff_sum(s, capacity, rate, k - 1) + clamp_to_i32(
            spec_watts(spec_sim_grid_ticks(s, k - 1, capacity, rate), s[k - 1].duration as int),
        ) - s[k - 1].grid
    }
}

fn min3_exec(a: i128, b: i128, c: i128) -> (r: i128)
    ensures
        r == min3(a as int, b as int, c as int),
{
    if a <= b && a <= c {
        a
    } else if b <= c {
        b
    } else {
        c
    }
}

/// An interval's energy as mean power in whole watts, rounded to the
/// nearest watt (ties away from zero) and saturated to the field's range.
fn ticks_to_watts(t: i128, d: u64) -> (r: i32)
    requires
        -1_000_000_000_000_000_000_000 <= t <= 1_000_000_000_000_000_000_000,
        d <= crate::timestamp::MINUTE_CEILING,
    ensures
        r == clamp_to_i32(spec_watts(t as int, d as int)),
{
    if d == 0 {
        return 0;
    }
    let den: i128 = 5 * d as i128;
    let w: i128 = if t >= 0 {
        crate::money::round_div_i128(t, den)
    } else {
        -crate::money::round_div_i128(-t, den)
    };
    if w > i32::MAX as i128 {
        i32::MAX
    } else if w < i32::MIN as i128 {
        i32::MIN
    } else {
        w as i32
    }
}

/// The column headers of the console table and the CSV export.
pub open spec fn spec_header() -> Seq<Seq<char>> {
    seq![
        "Date"@,
        "Old Cost"@,
        "New Cost"@,
        "Savings"@,
        "Production"@,
        "Consumption"@,
        "Purchased"@,
        "Purchased w/o Boost"@,
        "Feed In"@,
    ]
}

/// An executable row showing exactly the given cells.
pub open spec fn row_matches(row: Vec<String>, cells: Seq<Seq<char>>) -> bool {
    row@.len() == cells.len() && forall|c: int| 0 <= c < cells.len() ==> (#[trigger] row@[c])@
        == cells[c]
}

/// Cells joined with commas.
pub open spec fn spec_join_cells(cells: Seq<Seq<char>>) -> Seq<char>
    decreases cells.len(),
{
    if cells.len() == 0 {
        Seq::<char>::empty()
    } else if cells.len() == 1 {
        cells[0]
    } else {
        cells[0] + seq![','] + spec_join_cells(cells.skip(1))
    }
}

/// Rows joined into comma-separated lines, each ended by a newline.
pub open spec fn spec_csv_text(rows: Seq<Seq<Seq<char>>>) -> Seq<char>
    decreases rows.len(),
{
    if rows.len() == 0 {
        Seq::<char>::empty()
    } else {
        spec_join_cells(rows[0]) + seq!['\n'] + spec_csv_text(rows.skip(1))
    }
}

proof fn lemma_join_cells_snoc(c: Seq<Seq<char>>, j: int)
    requires
        0 <= j < c.len(),
    ensures
        spec_join_cells(c.take(j + 1)) == spec_join_cells(c.take(j)) + (if j > 0 {
            seq![',']
        } else {
            Seq::<char>::empty()
        }) + c[j],
    decreases j,
{
    if j == 0 {
        assert(c.take(1) =~= seq![c[0]]);
        assert(spec_join_cells(c.take(0)) =~= Seq::<char>::empty());
        assert(spec_join_cells(c.take(1)) =~= Seq::<char>::empty() + Seq::<char>::empty() + c[0]);
    } else if j == 1 {
        reveal_with_fuel(spec_join_cells, 3);
        assert(c.take(2).skip(1) =~= seq![c[1]]);
        assert(c.take(2)[0] == c[0]);
        assert(c.take(1) =~= seq![c[0]]);
        assert(spec_join_cells(seq![c[1]]) == c[1]);
        assert(spec_join_cells(c.take(2)) =~= spec_join_cells(c.take(1)) + seq![','] + c[1]);
    } else {
        let c1 = c.skip(1);
        lemma_join_cells_snoc(c1, j - 1);
        assert(c.take(j + 1).skip(1) =~= c1.take(j));
        assert(c.take(j).skip(1) =~= c1.take(j - 1));
        assert(c.take(j + 1)[0] == c[0]);
        assert(c.take(j)[0] == c[0]);
        assert(c1[j - 1] == c[j]);
        assert(spec_join_cells(c.take(j + 1)) == c[0] + seq![','] + spec_join_cells(c1.take(j)));
        assert(spec_join_cells(c.take(j)) == c[0] + seq![','] + spec_join_cells(c1.take(j - 1)));
        assert(c[0] + seq![','] + (spec_join_cells(c1.take(j - 1)) + seq![','] + c[j]) =~= (c[0]
            + seq![','] + spec_join_cells(c1.take(j - 1))) + seq![','] + c[j]);
    }
}

proof fn lemma_csv_text_snoc(rows: Seq<Seq<Seq<char>>>, k: int)
    requires
        0 <= k < rows.len(),
    ensures
        spec_csv_text(rows.take(k + 1)) == spec_csv_text(rows.take(k)) + spec_join_cells(rows[k])
            + seq!['\n'],
    decreases k,
{
    if k == 0 {
        reveal_with_fuel(spec_csv_text, 3);
        assert(rows.take(1).skip(1) =~= Seq::<Seq<Seq<char>>>::empty());
        assert(rows.take(1)[0] == rows[0]);
        assert(spec_csv_text(rows.take(0)) =~= Seq::<char>::empty());
        assert(spec_csv_text(Seq::<Seq<Seq<char>>>::empty()) == Seq::<char>::empty());
        assert(spec_csv_text(rows.take(1)) =~= spec_join_cells(rows[0]) + seq!['\n']);
        assert(Seq::<char>::empty() + spec_join_cells(rows[0]) + seq!['\n'] =~= spec_join_cells(
            rows[0],
        ) + seq!['\n']);
    } else {
        let r1 = rows.skip(1);
        lemma_csv_text_snoc(r1, k - 1);
        assert(rows.take(k + 1).skip(1) =~= r1.take(k));
        assert(rows.take(k).skip(1) =~= r1.take(k - 1));
        assert(rows.take(k + 1)[0] == rows[0]);
        assert(rows.take(k)[0] == rows[0]);
        assert(r1[k - 1] == rows[k]);
        assert(spec_csv_text(rows.take(k + 1)) == spec_join_cells(rows[0]) + seq!['\n']
            + spec_csv_text(r1.take(k)));
        assert(spec_csv_text(rows.take(k)) == spec_join_cells(rows[0]) + seq!['\n']
            + spec_csv_text(r1.take(k - 1)));
        assert(spec_join_cells(rows[0]) + seq!['\n'] + (spec_csv_text(r1.take(k - 1))
            + spec_join_cells(rows[k]) + seq!['\n']) =~= (spec_join_cells(rows[0]) + seq!['\n']
            + spec_csv_text(r1.take(k - 1))) + spec_join_cells(rows[k]) + seq!['\n']);
    }
}

/// The header row of the console table and the CSV export.
pub fn header_row() -> (r: Vec<String>)
    ensures
        row_matches(r, spec_header()),
{
    let mut row: Vec<String> = Vec::new();
    row.push(String::from_str("Date"));
    row.push(String::from_str("Old Cost"));
    row.push(String::from_str("New Cost"));
    row.push(String::from_str("Savings"));
    row.push(String::from_str("Production"));
    row.push(String::from_str("Consumption"));
    row.push(String::from_str("Purchased"));
    row.push(String::from_str("Purchased w/o Boost"));
    row.push(String::from_str("Feed In"));
    row
}

/// A bucket's sums lie far enough inside the numeric range to display.
proof fn lemma_group_display_ok(g: Seq<SolarRecord>)
    requires
        all_wf(g),
        g.len() <= RECORD_COUNT_CEILING,
    ensures
        sum_metric(g, Metric::OldCost) > i128::MIN,
        sum_metric(g, Metric::Cost) > i128::MIN,
        sum_metric(g, Metric::Savings) > i128::MIN,
        -crate::formatting::ENERGY_DISPLAY_CEILING <= sum_metric(g, Metric::Production)
            <= crate::formatting::ENERGY_DISPLAY_CEILING,
        -crate::formatting::ENERGY_DISPLAY_CEILING <= sum_metric(g, Metric::Consumption)
            <= crate::formatting::ENERGY_DISPLAY_CEILING,
        -crate::formatting::ENERGY_DISPLAY_CEILING <= sum_metric(g, Metric::Purchased)
            <= crate::formatting::ENERGY_DISPLAY_CEILING,
        -crate::formatting::ENERGY_DISPLAY_CEILING <= sum_metric(g, Metric::PurchasedWithoutBoost)
            <= crate::formatting::ENERGY_DISPLAY_CEILING,
        -crate::formatting::ENERGY_DISPLAY_CEILING <= sum_metric(g, Metric::FeedIn)
            <= crate::formatting::ENERGY_DISPLAY_CEILING,
{
    lemma_sum_metric_bound(g, Metric::OldCost);
    lemma_sum_metric_bound(g, Metric::Cost);
    lemma_sum_metric_bound(g, Metric::Savings);
    crate::aggregate_solar_record::lemma_sum_energy_bound(g, Metric::Production);
    crate::aggregate_solar_record::lemma_sum_energy_bound(g, Metric::Consumption);
    crate::aggregate_solar_record::lemma_sum_energy_bound(g, Metric::Purchased);
    crate::aggregate_solar_record::lemma_sum_energy_bound(g, Metric::PurchasedWithoutBoost);
    crate::aggregate_solar_record::lemma_sum_energy_bound(g, Metric::FeedIn);
    assert(g.len() * METRIC_CEILING <= 4_294_967_296 * METRIC_CEILING && g.len()
        * crate::solar_record::RECORD_ENERGY_CEILING <= 4_294_967_296
        * crate::solar_record::RECORD_ENERGY_CEILING) by (nonlinear_arith)
        requires
            0 <= g.len() <= 4_294_967_296,
    ;
}

impl SolarData {
    /// The console report's data rows: the most recent buckets at the
    /// configured period, at most the configured limit of them, oldest
    /// first.
    pub fn report_rows(&self) -> (r: Vec<Vec<String>>)
        requires
            self.wf(),
        ensures
            ({
                let gs = spec_groups(self.aggregation_period, self.records@);
                let keep: int = if self.limit < gs.len() {
                    self.limit as int
                } else {
                    gs.len() as int
                };
                &&& r@.len() == keep
                &&& forall|k: int|
                    0 <= k < keep ==> row_matches(
                        #[trigger] r@[k],
                        crate::aggregate_solar_record::spec_bucket_row(
                            self.aggregation_period,
                            gs[gs.len() - keep + k],
                        ),
                    )
            }),
    {
        let ghost gs = spec_groups(self.aggregation_period, self.records@);
        let aggs = self.aggregate(self.aggregation_period);
        let n: usize = aggs.len();
        let keep: usize = if self.limit < n {
            self.limit
        } else {
            n
        };
        let start: usize = n - keep;
        proof {
            crate::aggregate_solar_record::lemma_groups_wf(self.aggregation_period, self.records@);
        }
        let mut rows: Vec<Vec<String>> = Vec::new();
        let mut k: usize = start;
        while k < n
            invariant
                start <= k <= n,
                n == gs.len(),
                start == n - keep,
                keep <= n,
                gs == spec_groups(self.aggregation_period, self.records@),
                aggs@.len() == n,
                all_wf(self.records@),
                self.wf(),
                forall|j: int|
                    0 <= j < n ==> (#[trigger] aggs@[j]).matches(gs[j]) && aggs@[j].key@
                        == crate::period::spec_key(self.aggregation_period, gs[j][0].date_time),
                forall|j: int|
                    0 <= j < gs.len() ==> all_wf(#[trigger] gs[j]) && 0 < gs[j].len()
                        <= self.records@.len(),
                rows@.len() == k - start,
                forall|j: int|
                    0 <= j < k - start ==> row_matches(
                        #[trigger] rows@[j],
                        crate::aggregate_solar_record::spec_bucket_row(
                            self.aggregation_period,
                            gs[start + j],
                        ),
                    ),
            decreases n - k,
        {
            proof {
                lemma_group_display_ok(gs[k as int]);
            }
            let row = aggs[k].to_row();
            rows.push(row);
            k = k + 1;
        }
        rows
    }

    /// The `Mean` row: each metric divided by the full bucket count;
    /// nothing when the dataset has no buckets.
    pub fn mean_row(&self) -> (r: Option<Vec<String>>)
        requires
            self.wf(),
        ensures
            match r {
                Some(row) => {
                    let n = self.spec_bucket_count(self.aggregation_period);
                    &&& n > 0
                    &&& row@.len() == 9
                    &&& row@[0]@ == "Mean"@
                    &&& row@[1]@ == crate::formatting::spec_euro_str(
                        crate::money::round_div(
                            sum_metric(self.records@, Metric::OldCost),
                            crate::money::TICKS_PER_CENT as int * n,
                        ),
                    )
                    &&& row@[2]@ == crate::formatting::spec_euro_str(
                        crate::money::round_div(
                            sum_metric(self.records@, Metric::Cost),
                            crate::money::TICKS_PER_CENT as int * n,
                        ),
                    )
                    &&& row@[3]@ == crate::formatting::spec_euro_str(
                        crate::money::round_div(
                            sum_metric(self.records@, Metric::Savings),
                            crate::money::TICKS_PER_CENT as int * n,
                        ),
                    )
                    &&& row@[4]@ == crate::formatting::spec_watt_hour_str(
                        sum_metric(self.records@, Metric::Production),
                        n,
                    )
                    &&& row@[5]@ == crate::formatting::spec_watt_hour_str(
                        sum_metric(self.records@, Metric::Consumption),
                        n,
                    )
                    &&& row@[6]@ == crate::formatting::spec_watt_hour_str(
                        sum_metric(self.records@, Metric::Purchased),
                        n,
                    )
                    &&& row@[7]@ == crate::formatting::spec_watt_hour_str(
                        sum_metric(self.records@, Metric::PurchasedWithoutBoost),
                        n,
                    )
                    &&& row@[8]@ == crate::formatting::spec_watt_hour_str(
                        sum_metric(self.records@, Metric::FeedIn),
                        n,
                    )
                },
                None => self.spec_bucket_count(self.aggregation_period) == 0,
            },
    {
        let aggs = self.aggregate(self.aggregation_period);
        let n: usize = aggs.len();
        if n == 0 {
            return None;
        }
        let nn: u64 = n as u64;
        proof {
            lemma_group_display_ok(self.records@);
        }
        let mut row: Vec<String> = Vec::new();
        row.push(String::from_str("Mean"));
        row.push(
            crate::formatting::euro_mean_to_string(
                &Money::from_ticks(self.metric_total(Metric::OldCost)),
                nn,
            ),
        );
        row.push(
            crate::formatting::euro_mean_to_string(
                &Money::from_ticks(self.metric_total(Metric::Cost)),
                nn,
            ),
        );
        row.push(
            crate::formatting::euro_mean_to_string(
                &Money::from_ticks(self.metric_total(Metric::Savings)),
                nn,
            ),
        );
        row.push(
            crate::formatting::watt_hour_mean_to_string(
                &Energy::from_ticks(self.metric_total(Metric::Production)),
                nn,
            ),
        );
        row.push(
            crate::formatting::watt_hour_mean_to_string(
                &Energy::from_ticks(self.metric_total(Metric::Consumption)),
                nn,
            ),
        );
        row.push(
            crate::formatting::watt_hour_mean_to_string(
                &Energy::from_ticks(self.metric_total(Metric::Purchased)),
                nn,
            ),
        );
        row.push(
            crate::formatting::watt_hour_mean_to_string(
                &Energy::from_ticks(self.metric_total(Metric::PurchasedWithoutBoost)),
                nn,
            ),
        );
        row.push(
            crate::formatting::watt_hour_mean_to_string(
                &Energy::from_ticks(self.metric_total(Metric::FeedIn)),
                nn,
            ),
        );
        Some(row)
    }

    /// The `Total` row: the full, untruncated sums.
    pub fn total_row(&self) -> (r: Vec<String>)
        requires
            self.wf(),
        ensures
            row_matches(
                r,
                seq![
                    "Total"@,
                    crate::formatting::spec_euro_str(
                        crate::money::round_div(
                            sum_metric(self.records@, Metric::OldCost),
                            crate::money::TICKS_PER_CENT as int,
                        ),
                    ),
                    crate::formatting::spec_euro_str(
                        crate::money::round_div(
                            sum_metric(self.records@, Metric::Cost),
                            crate::money::TICKS_PER_CENT as int,
                        ),
                    ),
                    crate::formatting::spec_euro_str(
                        crate::money::round_div(
                            sum_metric(self.records@, Metric::Savings),
                            crate::money::TICKS_PER_CENT as int,
                        ),
                    ),
                    crate::formatting::spec_watt_hour_str(
                        sum_metric(self.records@, Metric::Production),
                        1,
                    ),
                    crate::formatting::spec_watt_hour_str(
                        sum_metric(self.records@, Metric::Consumption),
                        1,
                    ),
                    crate::formatting::spec_watt_hour_str(
                        sum_metric(self.records@, Metric::Purchased),
                        1,
                    ),
                    crate::formatting::spec_watt_hour_str(
                        sum_metric(self.records@, Metric::PurchasedWithoutBoost),
                        1,
                    ),
                    crate::formatting::spec_watt_hour_str(sum_metric(self.records@, Metric::FeedIn), 1),
                ],
            ),
    {
        proof {
            lemma_group_display_ok(self.records@);
        }
        let mut row: Vec<String> = Vec::new();
        row.push(String::from_str("Total"));
        row.push(
            crate::formatting::euro_to_string(&Money::from_ticks(self.metric_total(Metric::OldCost))),
        );
        row.push(
            crate::formatting::euro_to_string(&Money::from_ticks(self.metric_total(Metric::Cost))),
        );
        row.push(
            crate::formatting::euro_to_string(&Money::from_ticks(self.metric_total(Metric::Savings))),
        );
        row.push(
            crate::formatting::watt_hour_to_string(
                &Energy::from_ticks(self.metric_total(Metric::Production)),
            ),
        );
        row.push(
            crate::formatting::watt_hour_to_string(
                &Energy::from_ticks(self.metric_total(Metric::Consumption)),
            ),
        );
        row.push(
            crate::formatting::watt_hour_to_string(
                &Energy::from_ticks(self.metric_total(Metric::Purchased)),
            ),
        );
        row.push(
            crate::formatting::watt_hour_to_string(
                &Energy::from_ticks(self.metric_total(Metric::PurchasedWithoutBoost)),
            ),
        );
        row.push(
            crate::formatting::watt_hour_to_string(
                &Energy::from_ticks(self.metric_total(Metric::FeedIn)),
            ),
        );
        row
    }

    /// The `Remaining Balance` line under the console table.
    pub fn remaining_balance_string(&self) -> (r: String)
        requires
            self.wf(),
        ensures
            r@ == "Remaining Balance: "@ + crate::formatting::spec_euro_str(
                crate::money::round_div(
                    self.spec_remaining_ticks(),
                    crate::money::TICKS_PER_CENT as int,
                ),
            ),
    {
        proof {
            self.lemma_savings_in_range();
        }
        let balance = self.remaining_setup_cost();
        let mut s: String = String::from_str("Remaining Balance: ");
        let euro = crate::formatting::euro_to_string(&balance);
        s.append(euro.as_str());
        s
    }

    /// All of the export's rows: the header, then every bucket at the
    /// configured period.
    pub open spec fn spec_csv_rows(self) -> Seq<Seq<Seq<char>>> {
        seq![spec_header()] + spec_groups(self.aggregation_period, self.records@).map_values(
            |g: Seq<SolarRecord>|
                crate::aggregate_solar_record::spec_bucket_row(self.aggregation_period, g),
        )
    }

    /// The whole CSV export: a header line, then one line per bucket, the
    /// display limit notwithstanding.
    #[verifier::rlimit(60)]
    pub fn to_csv_string(&self) -> (r: String)
        requires
            self.wf(),
        ensures
            r@ == spec_csv_text(self.spec_csv_rows()),
    {
        let ghost rows = self.spec_csv_rows();
        let aggs = self.aggregate(self.aggregation_period);
        proof {
            crate::aggregate_solar_record::lemma_groups_wf(self.aggregation_period, self.records@);
            assert(rows.len() == aggs@.len() + 1);
        }
        let mut out: String = String::new();
        let hdr = header_row();
        let hline = join_cells(&hdr);
        out.append(hline.as_str());
        out.append("\n");
        proof {
            reveal_strlit("\n");
            assert(hdr@.map_values(|s: String| s@) =~= spec_header());
            assert(rows[0] == spec_header());
            lemma_csv_text_snoc(rows, 0);
            assert(spec_csv_text(rows.take(0)) =~= Seq::<char>::empty());
            assert(out@ =~= spec_csv_text(rows.take(1)));
        }
        let ghost gs = spec_groups(self.aggregation_period, self.records@);
        let mut k: usize = 0;
        while k < aggs.len()
            invariant
                0 <= k <= aggs@.len(),
                self.wf(),
                gs == spec_groups(self.aggregation_period, self.records@),
                rows == self.spec_csv_rows(),
                rows.len() == aggs@.len() + 1,
                gs.len() == aggs@.len(),
                forall|j: int|
                    0 <= j < gs.len() ==> all_wf(#[trigger] gs[j]) && 0 < gs[j].len()
                        <= self.records@.len(),
                forall|j: int|
                    0 <= j < gs.len() ==> (#[trigger] aggs@[j]).matches(gs[j]) && aggs@[j].key@
                        == crate::period::spec_key(self.aggregation_period, gs[j][0].date_time),
                out@ == spec_csv_text(rows.take(k + 1)),
            decreases aggs@.len() - k,
        {
            proof {
                lemma_group_display_ok(gs[k as int]);
            }
            let row = aggs[k].to_row();
            let line = join_cells(&row);
            out.append(line.as_str());
            out.append("\n");
            proof {
                reveal_strlit("\n");
                assert(rows[k + 1] == gs.map_values(
                    |g: Seq<SolarRecord>|
                        crate::aggregate_solar_record::spec_bucket_row(self.aggregation_period, g),
                )[k as int]);
                assert(row@.map_values(|s: String| s@) =~= rows[k + 1]);
                lemma_csv_text_snoc(rows, k + 1);
                assert(out@ =~= spec_csv_text(rows.take(k + 2)));
            }
            k = k + 1;
        }
        proof {
            assert(rows.take(rows.len() as int) =~= rows);
        }
        out
    }
}

/// A row's cells joined with commas.
pub fn join_cells(row: &Vec<String>) -> (r: String)
    ensures
        r@ == spec_join_cells(row@.map_values(|s: String| s@)),
{
    let ghost cells = row@.map_values(|s: String| s@);
    let mut out: String = String::new();
    let mut j: usize = 0;
    proof {
        reveal_strlit(",");
        assert(spec_join_cells(cells.take(0)) =~= Seq::<char>::empty());
    }
    while j < row.len()
        invariant
            0 <= j <= row@.len(),
            cells == row@.map_values(|s: String| s@),
            cells.len() == row@.len(),
            out@ == spec_join_cells(cells.take(j as int)),
        decreases row@.len() - j,
    {
        proof {
            reveal_strlit(",");
            lemma_join_cells_snoc(cells, j as int);
        }
        if j > 0 {
            out.append(",");
        }
        out.append(row[j].as_str());
        proof {
            assert(out@ =~= spec_join_cells(cells.take(j + 1)));
        }
        j = j + 1;
    }
    proof {
        assert(cells.take(row@.len() as int) =~= cells);
    }
    out
}

impl SolarRecord {
    /// Whether this record and the next share a period key.
    fn date_time_same_key(&self, period: Period, other: &SolarRecord) -> (r: bool)
        ensures
            r == (key_parts(period, self.date_time) == key_parts(period, other.date_time)),
    {
        period.same_key(&self.date_time, &other.date_time)
    }
}

/// A scan that stops at the first adjacent key change has found the first
/// run's length.
proof fn lemma_scan_is_run_len(p: Period, s: Seq<SolarRecord>, e: int)
    requires
        1 <= e <= s.len(),
        forall|k: int|
            0 < k < e ==> key_parts(p, (#[trigger] s[k]).date_time) == key_parts(
                p,
                s[k - 1].date_time,
            ),
        e < s.len() ==> key_parts(p, s[e].date_time) != key_parts(p, s[e - 1].date_time),
    ensures
        run_len(p, s) == e,
    decreases s.len(),
{
    if s.len() == 1 {
    } else if key_parts(p, s[0].date_time) == key_parts(p, s[1].date_time) {
        if e == 1 {
            assert(false);
        } else {
            assert forall|k: int|
                0 < k < e - 1 implies key_parts(p, (#[trigger] s.skip(1)[k]).date_time)
                == key_parts(p, s.skip(1)[k - 1].date_time) by {
                assert(s.skip(1)[k] == s[k + 1]);
                assert(s.skip(1)[k - 1] == s[k]);
            }
            if e - 1 < s.skip(1).len() {
                assert(s.skip(1)[e - 1] == s[e]);
                assert(s.skip(1)[e - 2] == s[e - 1]);
            }
            lemma_scan_is_run_len(p, s.skip(1), e - 1);
        }
    } else {
        if e != 1 {
            assert(key_parts(p, s[1].date_time) == key_parts(p, s[0].date_time));
            assert(false);
        }
    }
}

} // verus!
