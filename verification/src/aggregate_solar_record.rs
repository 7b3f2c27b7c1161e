//! Aggregate buckets and the grouping of records into them.
//!
//! The dataset's chronologically sorted records are partitioned into
//! maximal contiguous runs that share a period key; each run becomes one
//! aggregate bucket holding the sum of every metric across the run. The
//! grouping is a run-length grouping over an already-sorted sequence, and
//! the concatenation of the groups is exactly the input: no record is
//! dropped or double-counted.

use vstd::prelude::*;
use vstd::string::StringExecFns;

use crate::energy::Energy;
use crate::formatting;
use crate::money::Money;
use crate::period::{key_parts, Period};
use crate::solar_record::{
    lemma_record_bounds, SolarRecord, RECORD_COST_CEILING, RECORD_ENERGY_CEILING,
};

verus! {

/// No metric of a single well-formed record reaches this many ticks in
/// magnitude.
pub const METRIC_CEILING: i128 = 24_000_000_000_000_000_000_000_000_000;

/// The largest record count any dataset operation is specified for.
pub const RECORD_COUNT_CEILING: u64 = 4_294_967_296;

/// One summed quantity of a record or bucket.
#[derive(Clone, Copy, Debug, PartialEq, Eq, Structural)]
pub enum Metric {
    OldCost,
    Cost,
    Savings,
    Production,
    Consumption,
    Purchased,
    PurchasedWithoutBoost,
    FeedIn,
}

/// A record's value of a metric, in money ticks for the cost metrics and
/// energy ticks for the energy metrics.
pub open spec fn metric_ticks(m: Metric, r: SolarRecord) -> int {
    match m {
        Metric::OldCost => r.spec_old_cost_ticks(),
        Metric::Cost => r.spec_cost_ticks(),
        Metric::Savings => r.spec_savings_ticks(),
        Metric::Production => r.spec_production_ticks(),
        Metric::Consumption => r.spec_consumption_ticks(),
        Metric::Purchased => r.spec_purchased_ticks(),
        Metric::PurchasedWithoutBoost => r.spec_purchased_without_boost_ticks(),
        Metric::FeedIn => r.spec_feed_in_ticks(),
    }
}

/// The sum of a metric across a sequence of records.
pub open spec fn sum_metric(s: Seq<SolarRecord>, m: Metric) -> int
    decreases s.len(),
{
    if s.len() == 0 {
        0
    } else {
        sum_metric(s.drop_last(), m) + metric_ticks(m, s.last())
    }
}

pub open spec fn all_wf(s: Seq<SolarRecord>) -> bool {
    forall|i: int| 0 <= i < s.len() ==> (#[trigger] s[i]).wf()
}

pub proof fn lemma_metric_bound(m: Metric, r: SolarRecord)
    requires
        r.wf(),
    ensures
        -METRIC_CEILING < metric_ticks(m, r) < METRIC_CEILING,
{
    lemma_record_bounds(r);
}

/// Summing over a concatenation splits into the two sums.
pub proof fn lemma_sum_metric_append(a: Seq<SolarRecord>, b: Seq<SolarRecord>, m: Metric)
    ensures
        sum_metric(a + b, m) == sum_metric(a, m) + sum_metric(b, m),
    decreases b.len(),
{
    if b.len() == 0 {
        assert(a + b =~= a);
    } else {
        lemma_sum_metric_append(a, b.drop_last(), m);
        assert((a + b).drop_last() =~= a + b.drop_last());
        assert((a + b).last() == b.last());
    }
}

/// A sum over records is bounded by the count times the per-record ceiling.
pub proof fn lemma_sum_metric_bound(s: Seq<SolarRecord>, m: Metric)
    requires
        all_wf(s),
    ensures
        -(s.len() * METRIC_CEILING) <= sum_metric(s, m) <= s.len() * METRIC_CEILING,
    decreases s.len(),
{
    if s.len() > 0 {
        assert(all_wf(s.drop_last()));
        lemma_sum_metric_bound(s.drop_last(), m);
        lemma_metric_bound(m, s.last());
        assert((s.len() - 1) * METRIC_CEILING + METRIC_CEILING == s.len() * METRIC_CEILING)
            by (nonlinear_arith);
    }
}

/// The length of the first maximal run of records sharing the period key.
pub open spec fn run_len(p: Period, s: Seq<SolarRecord>) -> int
    decreases s.len(),
{
    if s.len() == 0 {
        0
    } else if s.len() == 1 {
        1
    } else if key_parts(p, s[0].date_time) == key_parts(p, s[1].date_time) {
        1 + run_len(p, s.drop_first())
    } else {
        1
    }
}

pub proof fn lemma_run_len_bounds(p: Period, s: Seq<SolarRecord>)
    requires
        s.len() > 0,
    ensures
        1 <= run_len(p, s) <= s.len(),
    decreases s.len(),
{
    if s.len() > 1 && key_parts(p, s[0].date_time) == key_parts(p, s[1].date_time) {
        lemma_run_len_bounds(p, s.drop_first());
    }
}

/// Within the first run every record shares the first record's key, and the
/// record after the run (if any) does not.
pub proof fn lemma_run_len_same_key(p: Period, s: Seq<SolarRecord>)
    requires
        s.len() > 0,
    ensures
        forall|i: int|
            0 <= i < run_len(p, s) ==> key_parts(p, (#[trigger] s[i]).date_time) == key_parts(
                p,
                s[0].date_time,
            ),
        run_len(p, s) < s.len() ==> key_parts(p, s[run_len(p, s)].date_time) != key_parts(
            p,
            s[0].date_time,
        ),
    decreases s.len(),
{
    lemma_run_len_bounds(p, s);
    if s.len() > 1 && key_parts(p, s[0].date_time) == key_parts(p, s[1].date_time) {
        lemma_run_len_same_key(p, s.drop_first());
        assert forall|i: int|
            0 <= i < run_len(p, s) implies key_parts(p, (#[trigger] s[i]).date_time) == key_parts(
            p,
            s[0].date_time,
        ) by {
            if i > 0 {
                assert(s.drop_first()[i - 1] == s[i]);
            }
        }
        if run_len(p, s) < s.len() {
            assert(s.drop_first()[run_len(p, s) - 1] == s[run_len(p, s)]);
        }
    }
}

/// The partition of records into maximal contiguous runs of equal period
/// keys, in order.
pub open spec fn spec_groups(p: Period, s: Seq<SolarRecord>) -> Seq<Seq<SolarRecord>>
    decreases s.len(),
    when s.len() >= 0
    via spec_groups_decreases
{
    if s.len() == 0 {
        Seq::<Seq<SolarRecord>>::empty()
    } else {
        seq![s.take(run_len(p, s))] + spec_groups(p, s.skip(run_len(p, s)))
    }
}

#[via_fn]
proof fn spec_groups_decreases(p: Period, s: Seq<SolarRecord>) {
    if s.len() > 0 {
        lemma_run_len_bounds(p, s);
    }
}

/// The groups concatenate back to exactly the grouped records: none is
/// dropped, none is double-counted.
pub proof fn lemma_groups_flatten(p: Period, s: Seq<SolarRecord>)
    ensures
        spec_groups(p, s).flatten() == s,
    decreases s.len(),
{
    if s.len() == 0 {
        assert(spec_groups(p, s).flatten() =~= s);
    } else {
        lemma_run_len_bounds(p, s);
        let k = run_len(p, s);
        lemma_groups_flatten(p, s.skip(k));
        let gs = spec_groups(p, s);
        assert(gs.first() == s.take(k));
        assert(gs.drop_first() =~= spec_groups(p, s.skip(k)));
        assert(gs.flatten() == s.take(k) + spec_groups(p, s.skip(k)).flatten());
        assert(s.take(k) + s.skip(k) =~= s);
    }
}

/// The sum of a metric across the groups equals its sum across the records.
pub proof fn lemma_groups_preserve_sums(p: Period, s: Seq<SolarRecord>, m: Metric)
    ensures
        sum_metric_groups(spec_groups(p, s), m) == sum_metric(s, m),
    decreases s.len(),
{
    if s.len() == 0 {
    } else {
        lemma_run_len_bounds(p, s);
        let k = run_len(p, s);
        lemma_groups_preserve_sums(p, s.skip(k), m);
        let gs = spec_groups(p, s);
        lemma_sum_groups_prepend(s.take(k), spec_groups(p, s.skip(k)), m);
        lemma_sum_metric_append(s.take(k), s.skip(k), m);
        assert(s.take(k) + s.skip(k) =~= s);
    }
}

/// The sum of a metric across a sequence of groups.
pub open spec fn sum_metric_groups(gs: Seq<Seq<SolarRecord>>, m: Metric) -> int
    decreases gs.len(),
{
    if gs.len() == 0 {
        0
    } else {
        sum_metric(gs.first(), m) + sum_metric_groups(gs.drop_first(), m)
    }
}

proof fn lemma_sum_groups_prepend(g: Seq<SolarRecord>, gs: Seq<Seq<SolarRecord>>, m: Metric)
    ensures
        sum_metric_groups(seq![g] + gs, m) == sum_metric(g, m) + sum_metric_groups(gs, m),
{
    assert((seq![g] + gs).first() == g);
    assert((seq![g] + gs).drop_first() =~= gs);
}

/// One bucket: a period key and the sum of every metric across the records
/// whose timestamps map to it.
#[derive(Debug)]
pub struct AggregateSolarRecord {
    pub key: String,
    pub old_cost: Money,
    pub cost: Money,
    pub savings: Money,
    pub production: Energy,
    pub consumption: Energy,
    pub purchased: Energy,
    pub purchased_without_boost: Energy,
    pub feed_in: Energy,
}

impl AggregateSolarRecord {
    /// This bucket holds exactly the sums of the given run of records.
    pub open spec fn matches(self, s: Seq<SolarRecord>) -> bool {
        &&& self.old_cost.ticks == sum_metric(s, Metric::OldCost)
        &&& self.cost.ticks == sum_metric(s, Metric::Cost)
        &&& self.savings.ticks == sum_metric(s, Metric::Savings)
        &&& self.production.ticks == sum_metric(s, Metric::Production)
        &&& self.consumption.ticks == sum_metric(s, Metric::Consumption)
        &&& self.purchased.ticks == sum_metric(s, Metric::Purchased)
        &&& self.purchased_without_boost.ticks == sum_metric(s, Metric::PurchasedWithoutBoost)
        &&& self.feed_in.ticks == sum_metric(s, Metric::FeedIn)
    }

    /// Builds one bucket by summing each metric across the records.
    pub fn new(records: &Vec<SolarRecord>, key: &str) -> (r: AggregateSolarRecord)
        requires
            all_wf(records@),
            records@.len() <= RECORD_COUNT_CEILING,
        ensures
            r.matches(records@),
            r.key@ == key@,
    {
        AggregateSolarRecord {
            key: key.to_owned(),
            old_cost: Money::from_ticks(sum_metric_exec(records, Metric::OldCost)),
            cost: Money::from_ticks(sum_metric_exec(records, Metric::Cost)),
            savings: Money::from_ticks(sum_metric_exec(records, Metric::Savings)),
            production: Energy::from_ticks(sum_metric_exec(records, Metric::Production)),
            consumption: Energy::from_ticks(sum_metric_exec(records, Metric::Consumption)),
            purchased: Energy::from_ticks(sum_metric_exec(records, Metric::Purchased)),
            purchased_without_boost: Energy::from_ticks(
                sum_metric_exec(records, Metric::PurchasedWithoutBoost),
            ),
            feed_in: Energy::from_ticks(sum_metric_exec(records, Metric::FeedIn)),
        }
    }
}

/// Every group of the partition consists of well-formed records and is no
/// longer than the grouped sequence.
pub proof fn lemma_groups_wf(p: Period, s: Seq<SolarRecord>)
    requires
        all_wf(s),
    ensures
        forall|k: int|
            0 <= k < spec_groups(p, s).len() ==> all_wf(#[trigger] spec_groups(p, s)[k])
                && 0 < spec_groups(p, s)[k].len() <= s.len(),
    decreases s.len(),
{
    if s.len() > 0 {
        lemma_run_len_bounds(p, s);
        let rl = run_len(p, s);
        assert(all_wf(s.skip(rl)));
        lemma_groups_wf(p, s.skip(rl));
        assert forall|k: int|
            0 <= k < spec_groups(p, s).len() implies all_wf(#[trigger] spec_groups(p, s)[k]) && 0
            < spec_groups(p, s)[k].len() <= s.len() by {
            if k == 0 {
                assert(spec_groups(p, s)[0] == s.take(rl));
                assert(all_wf(s.take(rl)));
            } else {
                assert(spec_groups(p, s)[k] == spec_groups(p, s.skip(rl))[k - 1]);
            }
        }
    }
}

/// The energy metrics of a record stay within the per-record energy
/// ceiling, so their sums stay within the count times that ceiling.
pub proof fn lemma_sum_energy_bound(s: Seq<SolarRecord>, m: Metric)
    requires
        all_wf(s),
        m == Metric::Production || m == Metric::Consumption || m == Metric::Purchased || m
            == Metric::PurchasedWithoutBoost || m == Metric::FeedIn,
    ensures
        -(s.len() * RECORD_ENERGY_CEILING) <= sum_metric(s, m) <= s.len() * RECORD_ENERGY_CEILING,
    decreases s.len(),
{
    if s.len() > 0 {
        assert(all_wf(s.drop_last()));
        lemma_sum_energy_bound(s.drop_last(), m);
        lemma_record_bounds(s.last());
        assert((s.len() - 1) * RECORD_ENERGY_CEILING + RECORD_ENERGY_CEILING == s.len()
            * RECORD_ENERGY_CEILING) by (nonlinear_arith);
    }
}

/// What a bucket's console or CSV row reads: the key, the three costs as
/// euro and the five energy figures with auto-scaled units.
pub open spec fn spec_bucket_row(p: Period, g: Seq<SolarRecord>) -> Seq<Seq<char>> {
    seq![
        crate::period::spec_key(p, g[0].date_time),
        crate::formatting::spec_euro_str(
            crate::money::round_div(sum_metric(g, Metric::OldCost), crate::money::TICKS_PER_CENT as int),
        ),
        crate::formatting::spec_euro_str(
            crate::money::round_div(sum_metric(g, Metric::Cost), crate::money::TICKS_PER_CENT as int),
        ),
        crate::formatting::spec_euro_str(
            crate::money::round_div(sum_metric(g, Metric::Savings), crate::money::TICKS_PER_CENT as int),
        ),
        crate::formatting::spec_watt_hour_str(sum_metric(g, Metric::Production), 1),
        crate::formatting::spec_watt_hour_str(sum_metric(g, Metric::Consumption), 1),
        crate::formatting::spec_watt_hour_str(sum_metric(g, Metric::Purchased), 1),
        crate::formatting::spec_watt_hour_str(sum_metric(g, Metric::PurchasedWithoutBoost), 1),
        crate::formatting::spec_watt_hour_str(sum_metric(g, Metric::FeedIn), 1),
    ]
}

impl AggregateSolarRecord {
    /// The bucket's tabular row: its key, then each summed metric rendered.
    pub fn to_row(&self) -> (r: Vec<String>)
        requires
            self.old_cost.ticks > i128::MIN,
            self.cost.ticks > i128::MIN,
            self.savings.ticks > i128::MIN,
            -crate::formatting::ENERGY_DISPLAY_CEILING <= self.production.ticks
                <= crate::formatting::ENERGY_DISPLAY_CEILING,
            -crate::formatting::ENERGY_DISPLAY_CEILING <= self.consumption.ticks
                <= crate::formatting::ENERGY_DISPLAY_CEILING,
            -crate::formatting::ENERGY_DISPLAY_CEILING <= self.purchased.ticks
                <= crate::formatting::ENERGY_DISPLAY_CEILING,
            -crate::formatting::ENERGY_DISPLAY_CEILING <= self.purchased_without_boost.ticks
                <= crate::formatting::ENERGY_DISPLAY_CEILING,
            -crate::formatting::ENERGY_DISPLAY_CEILING <= self.feed_in.ticks
                <= crate::formatting::ENERGY_DISPLAY_CEILING,
    ensures
            r@.len() == 9,
            r@[0]@ == self.key@,
            r@[1]@ == crate::formatting::spec_euro_str(
                crate::money::round_div(
                    self.old_cost.ticks as int,
                    crate::money::TICKS_PER_CENT as int,
                ),
            ),
            r@[2]@ == crate::formatting::spec_euro_str(
                crate::money::round_div(
                    self.cost.ticks as int,
                    crate::money::TICKS_PER_CENT as int,
                ),
            ),
            r@[3]@ == crate::formatting::spec_euro_str(
                crate::money::round_div(
                    self.savings.ticks as int,
                    crate::money::TICKS_PER_CENT as int,
                ),
            ),
            r@[4]@ == crate::formatting::spec_watt_hour_str(self.production.ticks as int, 1),
            r@[5]@ == crate::formatting::spec_watt_hour_str(self.consumption.ticks as int, 1),
            r@[6]@ == crate::formatting::spec_watt_hour_str(self.purchased.ticks as int, 1),
            r@[7]@ == crate::formatting::spec_watt_hour_str(
                self.purchased_without_boost.ticks as int,
                1,
            ),
            r@[8]@ == crate::formatting::spec_watt_hour_str(self.feed_in.ticks as int, 1),
    {
        let mut row: Vec<String> = Vec::new();
        row.push(self.key.clone());
        row.push(crate::formatting::euro_to_string(&self.old_cost));
        row.push(crate::formatting::euro_to_string(&self.cost));
        row.push(crate::formatting::euro_to_string(&self.savings));
        row.push(crate::formatting::watt_hour_to_string(&self.production));
        row.push(crate::formatting::watt_hour_to_string(&self.consumption));
        row.push(crate::formatting::watt_hour_to_string(&self.purchased));
        row.push(crate::formatting::watt_hour_to_string(&self.purchased_without_boost));
        row.push(crate::formatting::watt_hour_to_string(&self.feed_in));
        row
    }
}

/// A record's value of a metric.
pub fn metric_of(r: &SolarRecord, m: Metric) -> (t: i128)
    requires
        r.wf(),
    ensures
        t == metric_ticks(m, *r),
{
    match m {
        Metric::OldCost => r.old_cost().ticks,
        Metric::Cost => r.cost().ticks,
        Metric::Savings => r.savings().ticks,
        Metric::Production => r.production().ticks,
        Metric::Consumption => r.consumption().ticks,
        Metric::Purchased => r.purchased().ticks,
        Metric::PurchasedWithoutBoost => r.purchased_without_boost().ticks,
        Metric::FeedIn => r.feed_in().ticks,
    }
}

/// Sums a metric across a slice of the dataset.
pub fn sum_metric_exec(records: &Vec<SolarRecord>, m: Metric) -> (t: i128)
    requires
        all_wf(records@),
        records@.len() <= RECORD_COUNT_CEILING,
    ensures
        t == sum_metric(records@, m),
{
    let mut acc: i128 = 0;
    let mut i: usize = 0;
    while i < records.len()
        invariant
            0 <= i <= records@.len() <= RECORD_COUNT_CEILING,
            all_wf(records@),
            acc == sum_metric(records@.take(i as int), m),
            -(i as int * METRIC_CEILING) <= acc <= i as int * METRIC_CEILING,
        decreases records@.len() - i,
    {
        proof {
            lemma_metric_bound(m, records@[i as int]);
            assert(i as int * METRIC_CEILING + METRIC_CEILING == (i + 1) as int * METRIC_CEILING)
                by (nonlinear_arith);
            assert((i + 1) as int * METRIC_CEILING <= RECORD_COUNT_CEILING as int * METRIC_CEILING)
                by (nonlinear_arith)
                requires
                    i + 1 <= RECORD_COUNT_CEILING,
            ;
            assert(records@.take(i + 1).drop_last() =~= records@.take(i as int));
            assert(records@.take(i + 1).last() == records@[i as int]);
        }
        acc = acc + metric_of(&records[i], m);
        i = i + 1;
    }
    proof {
        assert(records@.take(records@.len() as int) =~= records@);
    }
    acc
}

} // verus!
