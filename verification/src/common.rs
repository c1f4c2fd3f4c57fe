//! What the fee controller, the rebalance planner and the dashboard
//! share: fee aggregates per node, the classification of a channel as
//! a sink or a source, and a few texts.

use crate::cmd::Fund;
use crate::fees::{PPM_MIN, SLING_AMOUNT};
use crate::ratio::Ratio;
use crate::text::{
    concat, decimal, decimal_i64, decimal_signed, decimal_u64, join, joined, magnitude, owned,
    views,
};
use vstd::prelude::*;
use vstd::string::*;

verus! {

/// Helper struct to compute the average fee of the channels of a node.
#[derive(Debug, Clone)]
pub struct ChannelFee {
    /// How many edges start at the node.
    pub count: u64,
    /// The sum of their fee rates, in ppm.
    pub fee_sum: u64,
    /// Their fee rates, each once.
    pub fee_rates: Vec<u64>,
}

impl ChannelFee {
    /// The mean fee rate of the node's edges; none for a node without
    /// edges.
    pub fn avg_fee(&self) -> (r: Option<Ratio>)
        ensures
            r is Some <==> self.count > 0,
            r matches Some(q) ==> q.num == self.fee_sum && q.den == self.count && q.wf(),
    {
        if self.count == 0 {
            None
        } else {
            Some(Ratio { num: self.fee_sum as u128, den: self.count as u128 })
        }
    }

    /// How many different fee rates the node uses per edge; 0 for a
    /// node without edges.
    pub fn fee_diversity(&self) -> (r: Ratio)
        ensures
            r.wf(),
            self.count == 0 ==> r.num == 0,
            self.count > 0 ==> r.num == self.fee_rates@.len() && r.den == self.count,
    {
        if self.count == 0 {
            Ratio { num: 0, den: 1 }
        } else {
            Ratio { num: self.fee_rates.len() as u128, den: self.count as u128 }
        }
    }
}

/// The largest numerator or denominator of a ratio that is shown in
/// percent: far more than a count of forwards can reach.
pub const LARGEST_PART: u128 = 0xffff_ffff_ffff_ffff_ffff;

/// What rebalancing a channel asks for.
#[derive(Debug, Clone, Copy, PartialEq, Eq, Structural)]
pub enum Rebalance {
    /// Move liquidity out of the channel.
    PushOut,
    /// Move liquidity into the channel.
    PullIn,
    /// Leave the channel as it is.
    Nothing,
}

/// The share of outgoing forwards among the forwards of a channel:
/// one half for a channel without forwards.
pub open spec fn sink_ratio(incoming: nat, outgoing: nat) -> Ratio {
    if incoming + outgoing == 0 {
        Ratio { num: 1, den: 2 }
    } else {
        Ratio { num: outgoing as u128, den: (incoming + outgoing) as u128 }
    }
}

/// The share of outgoing forwards among the forwards of a channel.
pub fn is_sink(incoming: usize, outgoing: usize) -> (r: Ratio)
    ensures
        r == sink_ratio(incoming as nat, outgoing as nat),
        r.is_fraction(),
        incoming + outgoing == 0 ==> r.num * 2 == r.den,
{
    if incoming == 0 && outgoing == 0 {
        Ratio { num: 1, den: 2 }
    } else {
        Ratio { num: outgoing as u128, den: incoming as u128 + outgoing as u128 }
    }
}

/// What rebalancing a channel asks for: to pull in where our share is
/// under 3/10 and at least half of last month's forwards went out, to
/// push out where our share is over 7/10 and at most half went out.
pub open spec fn classified(fund: Fund, sink: Ratio) -> Rebalance {
    if fund.balance_below(3, 10) && 2 * sink.num >= sink.den {
        Rebalance::PullIn
    } else if fund.balance_above(7, 10) && 2 * sink.num <= sink.den {
        Rebalance::PushOut
    } else {
        Rebalance::Nothing
    }
}

/// What rebalancing a channel asks for, given the share of outgoing
/// forwards of the last month.
pub fn classify(fund: &Fund, sink_last_month: &Ratio) -> (r: Rebalance)
    ensures
        r == classified(*fund, *sink_last_month),
{
    let num = sink_last_month.num;
    let den = sink_last_month.den;
    let at_least_half = num >= den || num >= den - num;
    let at_most_half = num <= den && num <= den - num;
    if fund.is_balance_below(3, 10) && at_least_half {
        Rebalance::PullIn
    } else if fund.is_balance_above(7, 10) && at_most_half {
        Rebalance::PushOut
    } else {
        Rebalance::Nothing
    }
}

/// An own channel with what the planner derived for it.
#[derive(Debug, Clone)]
pub struct ChannelMeta {
    pub fund: Fund,
    pub is_sink: Ratio,
    pub is_sink_last_month: Ratio,
    pub rebalance: Rebalance,
    pub alias_or_id: String,
    pub block_born: u64,
}

/// A ratio in whole percent, rounded to the nearest, halves to the
/// even neighbour.
pub open spec fn percent_rounded(r: Ratio) -> nat
    recommends
        r.wf(),
{
    let q = (100 * r.num) / (r.den as int);
    let rest = (100 * r.num) % (r.den as int);
    if 2 * rest > r.den || (2 * rest == r.den && q % 2 == 1) {
        (q + 1) as nat
    } else {
        q as nat
    }
}

/// A ratio in whole percent, rounded to the nearest, halves to the
/// even neighbour, held to what 64 bits can hold.
pub fn percent(r: &Ratio) -> (p: u64)
    requires
        r.wf(),
        r.num <= LARGEST_PART,
        r.den <= LARGEST_PART,
    ensures
        p == if percent_rounded(*r) > u64::MAX {
            u64::MAX as nat
        } else {
            percent_rounded(*r)
        },
{
    let scaled: u128 = 100 * r.num;
    let q: u128 = scaled / r.den;
    let rest: u128 = scaled % r.den;
    let up = 2 * rest > r.den || (2 * rest == r.den && q % 2 == 1);
    let rounded: u128 = if up {
        q + 1
    } else {
        q
    };
    if rounded > u64::MAX as u128 {
        u64::MAX
    } else {
        rounded as u64
    }
}

/// A ratio in whole percent as it is shown: the rounded number, held
/// to what 64 bits can hold, and a percent sign.
pub open spec fn percent_text(r: Ratio) -> Seq<char> {
    let p = if percent_rounded(r) > u64::MAX {
        u64::MAX as nat
    } else {
        percent_rounded(r)
    };
    decimal(p) + "%"@
}

impl ChannelMeta {
    /// Whether the ratios of the channel can be shown: their parts fit
    /// 64 bits and their denominators are positive.
    pub open spec fn wf(&self) -> bool {
        &&& self.is_sink.wf() && self.is_sink.num <= LARGEST_PART && self.is_sink.den
            <= LARGEST_PART
        &&& self.is_sink_last_month.wf() && self.is_sink_last_month.num <= LARGEST_PART
            && self.is_sink_last_month.den <= LARGEST_PART
    }

    /// Whether the ratios of the channel can be shown.
    pub fn is_valid(&self) -> (r: bool)
        ensures
            r == self.wf(),
    {
        let limit: u128 = LARGEST_PART;
        self.is_sink.den > 0 && self.is_sink.num <= limit && self.is_sink.den <= limit
            && self.is_sink_last_month.den > 0 && self.is_sink_last_month.num <= limit
            && self.is_sink_last_month.den <= limit
    }

    /// The share of outgoing forwards, in percent.
    pub fn is_sink_perc(&self) -> (r: String)
        requires
            self.wf(),
        ensures
            r@ == percent_text(self.is_sink),
    {
        let mut out = decimal_u64(percent(&self.is_sink));
        out.append("%");
        out
    }

    /// The share of outgoing forwards of the last month, in percent.
    pub fn is_sink_last_month_perc(&self) -> (r: String)
        requires
            self.wf(),
        ensures
            r@ == percent_text(self.is_sink_last_month),
    {
        let mut out = decimal_u64(percent(&self.is_sink_last_month));
        out.append("%");
        out
    }

    /// The alias of the peer, or its shortened id.
    pub fn alias_or_id(&self) -> (r: String)
        ensures
            r@ == self.alias_or_id@,
    {
        self.alias_or_id.clone()
    }
}

/// Which way a rebalancing job moves liquidity.
#[derive(Debug, Clone, Copy, PartialEq, Eq, Structural)]
pub enum Direction {
    Pull,
    Push,
}

/// A `sling-job` for one channel.
#[derive(Debug, Clone)]
pub struct SlingJob {
    pub scid: String,
    pub amount: u64,
    pub maxppm: u64,
    pub direction: Direction,
    /// The channels to move liquidity from or to.
    pub candidates: Vec<String>,
    /// The balance to reach, in tenths.
    pub target_tenths: u64,
}

/// A copy of a list of strings.
pub fn copy_strings(items: &Vec<String>) -> (r: Vec<String>)
    ensures
        r@ == items@,
{
    let mut out: Vec<String> = Vec::new();
    let mut i: usize = 0;
    while i < items.len()
        invariant
            i <= items.len(),
            out@ == items@.take(i as int),
        decreases items.len() - i,
    {
        out.push(items[i].clone());
        i += 1;
    }
    proof {
        assert(items@.take(i as int) =~= items@);
    }
    out
}

/// Whether `job` is the job that a channel of the given class asks
/// for: a pull from the channels to push out of, up to a balance of
/// 3/10, or a push to the channels to pull into, up to 7/10.
pub open spec fn job_for(
    scid: Seq<char>,
    rebalance: Rebalance,
    pull_in: Seq<String>,
    push_out: Seq<String>,
    job: Option<SlingJob>,
) -> bool {
    match rebalance {
        Rebalance::Nothing => job is None,
        Rebalance::PullIn => job matches Some(j) && j.scid@ == scid && j.amount == SLING_AMOUNT
            && j.maxppm == PPM_MIN && j.direction == Direction::Pull && j.candidates@ == push_out
            && j.target_tenths == 3,
        Rebalance::PushOut => job matches Some(j) && j.scid@ == scid && j.amount == SLING_AMOUNT
            && j.maxppm == PPM_MIN && j.direction == Direction::Push && j.candidates@ == pull_in
            && j.target_tenths == 7,
    }
}

/// The rebalancing job that a channel asks for, if any, given the
/// channels that ask to pull in and those that ask to push out.
pub fn calc_slingjobs(
    scid: &str,
    channel: &ChannelMeta,
    pull_in: &Vec<String>,
    push_out: &Vec<String>,
) -> (r: Option<SlingJob>)
    ensures
        job_for(scid@, channel.rebalance, pull_in@, push_out@, r),
{
    match channel.rebalance {
        Rebalance::Nothing => None,
        Rebalance::PullIn => Some(
            SlingJob {
                scid: owned(scid),
                amount: SLING_AMOUNT,
                maxppm: PPM_MIN,
                direction: Direction::Pull,
                candidates: copy_strings(push_out),
                target_tenths: 3,
            },
        ),
        Rebalance::PushOut => Some(
            SlingJob {
                scid: owned(scid),
                amount: SLING_AMOUNT,
                maxppm: PPM_MIN,
                direction: Direction::Push,
                candidates: copy_strings(pull_in),
                target_tenths: 7,
            },
        ),
    }
}

/// A list of channels as a JSON array of strings; the ids are written
/// between quotes as they are.
pub open spec fn json_list(items: Seq<Seq<char>>) -> Seq<char> {
    "["@ + joined(quoted_all(items), ","@) + "]"@
}

/// Each text between double quotes.
pub open spec fn quoted_all(items: Seq<Seq<char>>) -> Seq<Seq<char>> {
    Seq::new(items.len(), |i: int| "\""@ + items[i] + "\""@)
}

/// Formats candidates as a JSON array string.
pub fn candidates_to_json(candidates: &Vec<String>) -> (r: String)
    ensures
        r@ == json_list(views(candidates@)),
{
    let mut quoted: Vec<String> = Vec::new();
    let mut i: usize = 0;
    while i < candidates.len()
        invariant
            i <= candidates.len(),
            views(quoted@) == quoted_all(views(candidates@)).take(i as int),
        decreases candidates.len() - i,
    {
        let mut q = String::from_str("\"");
        q.append(candidates[i].as_str());
        q.append("\"");
        let ghost before = views(quoted@);
        quoted.push(q);
        proof {
            assert(views(quoted@) =~= before.push(q@));
            assert(views(quoted@) =~= quoted_all(views(candidates@)).take(i + 1));
        }
        i += 1;
    }
    proof {
        assert(views(quoted@) =~= quoted_all(views(candidates@)));
    }
    let inner = join(&quoted, ",");
    let mut out = String::from_str("[");
    out.append(inner.as_str());
    out.append("]");
    out
}

impl SlingJob {
    /// The name of the direction on the command line.
    pub open spec fn direction_name(&self) -> Seq<char> {
        match self.direction {
            Direction::Pull => "pull"@,
            Direction::Push => "push"@,
        }
    }

    /// The arguments of the command.
    pub open spec fn arguments(&self) -> Seq<Seq<char>> {
        seq![
            "sling-job"@,
            "-k"@,
            "scid="@ + self.scid@,
            "amount="@ + decimal(self.amount as nat),
            "maxppm="@ + decimal(self.maxppm as nat),
            "direction="@ + self.direction_name(),
            "candidates="@ + json_list(views(self.candidates@)),
            "target=0."@ + decimal(self.target_tenths as nat),
        ]
    }

    /// The arguments of the command, to hand to the node's command
    /// line one by one.
    pub fn args(&self) -> (r: Vec<String>)
        ensures
            views(r@) == self.arguments(),
    {
        let dir = match self.direction {
            Direction::Pull => "pull",
            Direction::Push => "push",
        };
        let mut out: Vec<String> = Vec::new();
        out.push(String::from_str("sling-job"));
        out.push(String::from_str("-k"));
        out.push(concat("scid=", self.scid.as_str()));
        out.push(concat("amount=", decimal_u64(self.amount).as_str()));
        out.push(concat("maxppm=", decimal_u64(self.maxppm).as_str()));
        out.push(concat("direction=", dir));
        out.push(concat("candidates=", candidates_to_json(&self.candidates).as_str()));
        out.push(concat("target=0.", decimal_u64(self.target_tenths).as_str()));
        proof {
            assert(views(out@) =~= self.arguments());
        }
        out
    }
}

/// A number of days as the dashboard shows it in three characters:
/// `99+` from 100 days on, else the number, a single digit after a
/// space, and `d`.
pub open spec fn cut_days_text(d: i64) -> Seq<char> {
    if d > 99 {
        "99+"@
    } else if decimal_signed(d as int).len() < 2 {
        " "@ + decimal_signed(d as int) + "d"@
    } else {
        decimal_signed(d as int) + "d"@
    }
}

/// A number of days as the dashboard shows it in three characters.
pub fn cut_days(d: i64) -> (r: String)
    ensures
        r@ == cut_days_text(d),
{
    if d > 99 {
        String::from_str("99+")
    } else {
        let digits = decimal_i64(d);
        let mut out = if digits.as_str().unicode_len() < 2 {
            concat(" ", digits.as_str())
        } else {
            digits
        };
        out.append("d");
        out
    }
}

/// The length of a time span in words: its two or three largest units
/// from days down to seconds.
pub open spec fn duration_text(total_seconds: i64) -> Seq<char> {
    let t: nat = if total_seconds < 0 {
        (-(total_seconds as int)) as nat
    } else {
        total_seconds as nat
    };
    let days = t / 86400;
    let hours = (t % 86400) / 3600;
    let minutes = (t % 3600) / 60;
    let seconds = t % 60;
    if days > 0 {
        decimal(days) + "d "@ + decimal(hours) + "h "@ + decimal(minutes) + "m"@
    } else if hours > 0 {
        decimal(hours) + "h "@ + decimal(minutes) + "m "@ + decimal(seconds) + "s"@
    } else if minutes > 0 {
        decimal(minutes) + "m "@ + decimal(seconds) + "s"@
    } else {
        decimal(seconds) + "s"@
    }
}

/// Format a duration, given in seconds, in a human-readable way.
pub fn format_duration(total_seconds: i64) -> (r: String)
    ensures
        r@ == duration_text(total_seconds),
{
    let t: u64 = magnitude(total_seconds);
    let days = t / 86400;
    let hours = (t % 86400) / 3600;
    let minutes = (t % 3600) / 60;
    let seconds = t % 60;
    let mut out = String::new();
    if days > 0 {
        out.append(decimal_u64(days).as_str());
        out.append("d ");
        out.append(decimal_u64(hours).as_str());
        out.append("h ");
        out.append(decimal_u64(minutes).as_str());
        out.append("m");
    } else if hours > 0 {
        out.append(decimal_u64(hours).as_str());
        out.append("h ");
        out.append(decimal_u64(minutes).as_str());
        out.append("m ");
        out.append(decimal_u64(seconds).as_str());
        out.append("s");
    } else if minutes > 0 {
        out.append(decimal_u64(minutes).as_str());
        out.append("m ");
        out.append(decimal_u64(seconds).as_str());
        out.append("s");
    } else {
        out.append(decimal_u64(seconds).as_str());
        out.append("s");
    }
    proof {
        assert(out@ =~= duration_text(total_seconds));
    }
    out
}

} // verus!
