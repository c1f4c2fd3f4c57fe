//! Metrics over the store: forwards by weekday, the age and the daily
//! yield of a channel, the yearly yield of the node, and the mean and
//! median fee rate of the network.

use crate::cmd::{scid_block, Channel, Fund, SettledForward, Side};
use crate::order::{lemma_sorted_by, sort_order, ranks_under};
use crate::ratio::Ratio;
use crate::seqs::{
    capped, first_position, lemma_filter_same, lemma_projected_origin, picked, picker, projected,
    total, total_picked, Measure, Pick,
};
use crate::store::{apy_of, ApyData, Months, NewestFirst, Scope, SettledOnly, Store};
use crate::tally::{below, in_range, kth_smallest, occurrences, tally};
use crate::text::{owned, str_eq};
use crate::time::{timestamp_representable, weekday_from_sunday, weekday_index, Window};
use vstd::prelude::*;
use vstd::string::*;

verus! {

/// Blocks per day, on average.
pub const BLOCKS_PER_DAY: u64 = 144;

/// Highest fee rate that counts for the fee statistics, in ppm.
pub const FEE_SAMPLE_MAX: u64 = 10000;

/// The weekdays on which the forwards resolved, counted from Sunday = 0.
pub open spec fn weekdays(s: Seq<SettledForward>) -> Seq<usize> {
    Seq::new(s.len(), |i: int| weekday_from_sunday(s[i].resolved_time) as usize)
}

/// Where every value is less than `limit`, all of them are in range.
pub proof fn lemma_all_in_range(values: Seq<usize>, limit: int)
    requires
        forall|i: int| 0 <= i < values.len() ==> values[i] < limit,
    ensures
        in_range(values, limit) == values.len(),
    decreases values.len(),
{
    if values.len() > 0 {
        let rest = values.drop_last();
        assert forall|i: int| 0 <= i < rest.len() implies rest[i] < limit by {
            assert(rest[i] == values[i]);
        }
        lemma_all_in_range(rest, limit);
    }
}

/// The resolution time of every settled forward of the store stands
/// for an instant.
pub proof fn lemma_settled_valid(store: &Store, k: int)
    requires
        0 <= k < store.settled().len(),
        store.forwards.forwards@.len() <= usize::MAX,
    ensures
        timestamp_representable(store.settled()[k].resolved_time),
{
    let unsorted = projected(store.forwards.forwards@, SettledOnly);
    crate::seqs::lemma_projected_len(store.forwards.forwards@, SettledOnly);
    lemma_sorted_by(unsorted, NewestFirst);
    let order = sort_order(ranks_under(unsorted, NewestFirst));
    let at = order[k] as int;
    assert(store.settled()[k] == unsorted[at]);
    lemma_projected_origin(store.forwards.forwards@, SettledOnly, at);
}

/// Selects the own usable channel with a given short channel id.
pub struct OwnChannel {
    pub scid: String,
}

/// Whether the fund is usable and has the short channel id `scid`.
pub open spec fn is_own(f: &Fund, scid: Seq<char>) -> bool {
    f.is_normal() && (f.short_channel_id matches Some(s) && s@ == scid)
}

impl Pick<Fund> for OwnChannel {
    open spec fn picks(&self, item: &Fund) -> bool {
        is_own(item, self.scid@)
    }

    fn accepts(&self, item: &Fund) -> (r: bool) {
        if !item.has_normal_state() {
            return false;
        }
        match &item.short_channel_id {
            Some(s) => str_eq(s.as_str(), self.scid.as_str()),
            None => false,
        }
    }
}

/// The own usable channels with the short channel id `scid`.
pub open spec fn own_channels(funds: Seq<Fund>, scid: Seq<char>) -> Seq<Fund> {
    funds.filter(|f: Fund| is_own(&f, scid))
}

/// What an own-channel selection picks is `own_channels` of its id.
pub proof fn lemma_own_selection(funds: Seq<Fund>, sel: OwnChannel)
    ensures
        picked(funds, sel) == own_channels(funds, sel.scid@),
{
    let scid = sel.scid@;
    lemma_filter_same(funds, picker(sel), |f: Fund| is_own(&f, scid));
}

/// The age in days of a channel born at `born`, at the height `now`:
/// the blocks since, none if the channel is from the future, at 144
/// blocks a day, rounded down.
pub open spec fn age_days(now: u64, born: u64) -> int {
    if now >= born {
        (now - born) / (BLOCKS_PER_DAY as int)
    } else {
        0
    }
}

/// Selects the edges whose fee rate counts for the fee statistics:
/// those without a base fee and with at most 10000 ppm, and, where a
/// source is given, those that start there.
pub struct FeeSample {
    pub source: Option<String>,
}

/// Whether the edge counts for the fee statistics of `source`, or of
/// the whole network where none is given.
pub open spec fn is_sampled(c: &Channel, source: Option<Seq<char>>) -> bool {
    &&& c.base_fee_millisatoshi == 0
    &&& c.fee_per_millionth <= FEE_SAMPLE_MAX
    &&& match source {
        Some(s) => c.source@ == s,
        None => true,
    }
}

impl FeeSample {
    /// The source that the sample is restricted to, if any.
    pub open spec fn of(&self) -> Option<Seq<char>> {
        match self.source {
            Some(s) => Some(s@),
            None => None,
        }
    }
}

impl Pick<Channel> for FeeSample {
    open spec fn picks(&self, item: &Channel) -> bool {
        is_sampled(item, self.of())
    }

    fn accepts(&self, item: &Channel) -> (r: bool) {
        if item.base_fee_millisatoshi != 0 || item.fee_per_millionth > FEE_SAMPLE_MAX {
            return false;
        }
        match &self.source {
            Some(s) => str_eq(item.source.as_str(), s.as_str()),
            None => true,
        }
    }
}

/// The fee rate of an edge, in ppm.
pub struct FeePpm;

impl Measure<Channel> for FeePpm {
    open spec fn amount(&self, item: &Channel) -> nat {
        item.fee_per_millionth as nat
    }

    fn read(&self, item: &Channel) -> (r: u64) {
        item.fee_per_millionth
    }
}

/// The edges that count for the fee statistics.
pub open spec fn sampled(edges: Seq<Channel>, source: Option<Seq<char>>) -> Seq<Channel> {
    edges.filter(|c: Channel| is_sampled(&c, source))
}

/// The fee rates of the edges, in ppm.
pub open spec fn rates(edges: Seq<Channel>) -> Seq<usize> {
    Seq::new(edges.len(), |i: int| edges[i].fee_per_millionth as usize)
}

/// What a fee sample picks is `sampled` of its source.
pub proof fn lemma_fee_sample(edges: Seq<Channel>, sel: FeeSample)
    ensures
        picked(edges, sel) == sampled(edges, sel.of()),
{
    let source = sel.of();
    lemma_filter_same(edges, picker(sel), |c: Channel| is_sampled(&c, source));
}

/// Whether `v` is the value at position `k` of `values` in ascending
/// order: at most `k` values are smaller, more than `k` are smaller
/// or equal.
pub open spec fn is_kth_of(values: Seq<usize>, k: int, v: int) -> bool {
    in_range(values, v) <= k < in_range(values, v + 1)
}

/// Mean and median of a sample of fee rates.
#[derive(Debug, Clone, Copy)]
pub struct FeeStatistics {
    /// How many edges the sample holds.
    pub count: usize,
    /// The sum of the rates over their number; 0 for an empty sample.
    pub mean: Ratio,
    /// The middle rate, or the mean of the two middle rates; 0 for an
    /// empty sample.
    pub median: Ratio,
}

/// Whether `stats` are the statistics of the sample `values`, whose
/// capped sum is `sum`.
pub open spec fn describes(stats: FeeStatistics, values: Seq<usize>, sum: u64) -> bool {
    let n = values.len() as int;
    &&& stats.count == n
    &&& stats.mean.wf() && stats.median.wf()
    &&& n == 0 ==> stats.mean.num == 0 && stats.median.num == 0
    &&& n > 0 ==> stats.mean.num == sum && stats.mean.den == n
    &&& n > 0 && n % 2 == 1 ==> stats.median.den == 1 && is_kth_of(
        values,
        n / 2,
        stats.median.num as int,
    )
    &&& n > 0 && n % 2 == 0 ==> stats.median.den == 2 && exists|lo: int, hi: int|
        #![trigger is_kth_of(values, n / 2 - 1, lo), is_kth_of(values, n / 2, hi)]
        is_kth_of(values, n / 2 - 1, lo) && is_kth_of(values, n / 2, hi) && stats.median.num == lo
            + hi
}

/// The statistics of the fee rates of the edges that `sel` selects.
pub fn fee_statistics(edges: &Vec<Channel>, sel: &FeeSample) -> (r: FeeStatistics)
    ensures
        describes(
            r,
            rates(sampled(edges@, sel.of())),
            capped(total(sampled(edges@, sel.of()), FeePpm)),
        ),
{
    proof {
        lemma_fee_sample(edges@, *sel);
    }
    let positions = crate::seqs::positions_picked(edges, sel);
    let sum = total_picked(edges, sel, &FeePpm);
    let ghost sample = sampled(edges@, sel.of());
    let mut values: Vec<usize> = Vec::new();
    let mut i: usize = 0;
    while i < positions.len()
        invariant
            i <= positions.len(),
            positions@.len() == sample.len(),
            forall|k: int| 0 <= k < positions@.len() ==> #[trigger] positions@[k] < edges@.len(),
            forall|k: int|
                0 <= k < positions@.len() ==> edges@[#[trigger] positions@[k] as int] == sample[k],
            values@ == rates(sample).take(i as int),
            forall|k: int| 0 <= k < sample.len() ==> is_sampled(&#[trigger] sample[k], sel.of()),
        decreases positions.len() - i,
    {
        let rate = edges[positions[i]].fee_per_millionth;
        proof {
            assert(is_sampled(&sample[i as int], sel.of()));
        }
        values.push(rate as usize);
        proof {
            assert(values@ =~= rates(sample).take(i + 1));
        }
        i += 1;
    }
    proof {
        assert(values@ =~= rates(sample));
    }
    let n = values.len();
    if n == 0 {
        return FeeStatistics { count: 0, mean: Ratio { num: 0, den: 1 }, median: Ratio { num: 0, den: 1 } };
    }
    let counts = tally(&values, 10001);
    proof {
        assert forall|k: int| 0 <= k < values@.len() implies values@[k] < 10001 by {
            assert(is_sampled(&sample[k], sel.of()));
        }
        lemma_all_in_range(values@, 10001);
    }
    let mean = Ratio { num: sum as u128, den: n as u128 };
    let mid = n / 2;
    let hi = match kth_smallest(&counts, mid) {
        Some(v) => v,
        None => 0,
    };
    let median = if n % 2 == 1 {
        Ratio { num: hi as u128, den: 1 }
    } else {
        let lo = match kth_smallest(&counts, mid - 1) {
            Some(v) => v,
            None => 0,
        };
        proof {
            assert(is_kth_of(values@, mid - 1, lo as int));
            assert(is_kth_of(values@, mid as int, hi as int));
        }
        Ratio { num: lo as u128 + hi as u128, den: 2 }
    };
    FeeStatistics { count: n, mean, median }
}

impl Store {
    /// The own usable channel with the short channel id `scid`: the
    /// first such entry of the funds document.
    pub open spec fn own_channel(&self, scid: Seq<char>) -> Option<Fund> {
        let found = own_channels(self.funds.channels@, scid);
        if found.len() == 0 {
            None
        } else {
            Some(found.first())
        }
    }

    /// The age of an own usable channel in days, where the channel is
    /// known and its short channel id names a block.
    pub open spec fn channel_age(&self, scid: Seq<char>) -> Option<int> {
        match self.own_channel(scid) {
            Some(f) => match scid_block(scid) {
                Some(born) => Some(age_days(self.info.blockheight, born)),
                None => None,
            },
            None => None,
        }
    }

    /// Get a vector of 7 elements counting settled forwards by weekday.
    /// Index 0 = Sunday, 1 = Monday, ..., 6 = Saturday. The counts sum
    /// to the number of settled forwards.
    pub fn forwards_by_weekday(&self) -> (r: Vec<usize>)
        ensures
            r@.len() == 7,
            forall|b: int| 0 <= b < 7 ==> r@[b] == occurrences(weekdays(self.settled()), b),
            below(r@, 7) == self.settled().len(),
    {
        let s = self.settled_forwards();
        let history = self.forwards.forwards.len();
        assert(self.forwards.forwards@.len() == history);
        let mut days: Vec<usize> = Vec::new();
        let mut i: usize = 0;
        while i < s.len()
            invariant
                i <= s.len(),
                s@ == self.settled(),
                self.forwards.forwards@.len() <= usize::MAX,
                days@ == weekdays(s@).take(i as int),
                forall|k: int| 0 <= k < i ==> days@[k] < 7,
            decreases s.len() - i,
        {
            proof {
                lemma_settled_valid(self, i as int);
            }
            let d: usize = match weekday_index(s[i].resolved_time) {
                Some(d) => d as usize,
                None => 0,
            };
            days.push(d);
            proof {
                assert(days@ =~= weekdays(s@).take(i + 1));
            }
            i += 1;
        }
        proof {
            assert(days@ =~= weekdays(s@));
            lemma_all_in_range(days@, 7);
        }
        tally(&days, 7)
    }

    /// Get channel age in days from block height (approximate).
    pub fn get_channel_age_days(&self, short_channel_id: &str) -> (r: Option<i64>)
        ensures
            r is Some <==> self.channel_age(short_channel_id@) is Some,
            r matches Some(d) ==> self.channel_age(short_channel_id@) == Some(d as int),
    {
        let sel = OwnChannel { scid: owned(short_channel_id) };
        proof {
            lemma_own_selection(self.funds.channels@, sel);
        }
        match first_position(&self.funds.channels, &sel) {
            Some(i) => match self.funds.channels[i].block_born() {
                Some(born) => {
                    let age_blocks = if self.info.blockheight >= born {
                        self.info.blockheight - born
                    } else {
                        0
                    };
                    Some((age_blocks / BLOCKS_PER_DAY) as i64)
                },
                None => None,
            },
            None => None,
        }
    }

    /// Get average satoshis earned per day for a specific channel: its
    /// fees over its age in days, and 0 for a channel younger than a
    /// day.
    pub fn get_channel_sats_per_day(&self, short_channel_id: &str) -> (r: Option<Ratio>)
        ensures
            r is Some <==> self.channel_age(short_channel_id@) is Some,
            r matches Some(q) ==> q.wf() && (match self.channel_age(short_channel_id@) {
                Some(days) => if days > 0 {
                    q.den == days && q.num == capped(
                        crate::store::fee_sum(
                            self.settled_within(
                                Scope::on(self.now, short_channel_id@, Side::Outgoing, Window::Ever),
                            ),
                        ),
                    )
                } else {
                    q.num == 0
                },
                None => false,
            }),
    {
        match self.get_channel_age_days(short_channel_id) {
            Some(age_days) => {
                if age_days <= 0 {
                    Some(Ratio { num: 0, den: 1 })
                } else {
                    let total_fees = self.get_channel_total_fees(short_channel_id);
                    Some(Ratio { num: total_fees as u128, den: age_days as u128 })
                }
            },
            None => None,
        }
    }

    /// Get APY data structure with all calculations.
    pub fn get_apy_data(&self) -> (r: ApyData)
        ensures
            r.total_funds == capped(self.channel_funds()),
            r.fees_1_month == capped(self.fees_earned(1)),
            r.fees_3_months == capped(self.fees_earned(3)),
            r.fees_6_months == capped(self.fees_earned(6)),
            r.fees_12_months == capped(self.fees_earned(12)),
            r.apy_1_month == apy_of(r.fees_1_month, r.total_funds, 1),
            r.apy_3_months == apy_of(r.fees_3_months, r.total_funds, 3),
            r.apy_6_months == apy_of(r.fees_6_months, r.total_funds, 6),
            r.apy_12_months == apy_of(r.fees_12_months, r.total_funds, 12),
            r.transacted_last_month == capped(
                crate::store::out_sum(
                    self.settled_within(Scope::during(self.now, Window::Days(30))),
                ),
            ),
            r.total_funds == 0 ==> r.apy_1_month.num == 0 && r.apy_3_months.num == 0
                && r.apy_6_months.num == 0 && r.apy_12_months.num == 0,
    {
        let m1 = Months::at_least_one(1);
        let m3 = Months::at_least_one(3);
        let m6 = Months::at_least_one(6);
        let m12 = Months::at_least_one(12);
        let total_funds = self.total_channel_funds_sats();
        let fees_1_month = self.fees_earned_last_months(m1);
        let fees_3_months = self.fees_earned_last_months(m3);
        let fees_6_months = self.fees_earned_last_months(m6);
        let fees_12_months = self.fees_earned_last_months(m12);
        ApyData {
            fees_1_month,
            fees_3_months,
            fees_6_months,
            fees_12_months,
            total_funds,
            apy_1_month: crate::store::apy_percent(fees_1_month, total_funds, m1),
            apy_3_months: crate::store::apy_percent(fees_3_months, total_funds, m3),
            apy_6_months: crate::store::apy_percent(fees_6_months, total_funds, m6),
            apy_12_months: crate::store::apy_percent(fees_12_months, total_funds, m12),
            transacted_last_month: self.transacted_last_month_sats(),
        }
    }

    /// Mean and median fee rate of the network, over the edges without
    /// a base fee and with at most 10000 ppm.
    pub fn network_channel_fees(&self) -> (r: FeeStatistics)
        ensures
            describes(
                r,
                rates(sampled(self.channels.channels@, None)),
                capped(total(sampled(self.channels.channels@, None), FeePpm)),
            ),
    {
        fee_statistics(&self.channels.channels, &FeeSample { source: None })
    }

    /// Mean and median fee rate of the local node, over its edges
    /// without a base fee and with at most 10000 ppm.
    pub fn node_channel_fees(&self) -> (r: FeeStatistics)
        ensures
            describes(
                r,
                rates(sampled(self.channels.channels@, Some(self.info.id@))),
                capped(total(sampled(self.channels.channels@, Some(self.info.id@)), FeePpm)),
            ),
    {
        fee_statistics(&self.channels.channels, &FeeSample { source: Some(self.info.id.clone()) })
    }
}

} // verus!
