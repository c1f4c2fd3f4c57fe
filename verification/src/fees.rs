//! Fee controller: the control law that maps a channel's balance and its
//! recent forwards to a new fee rate and new HTLC bounds.

use crate::cmd::{lemma_product_fits, Channel, Forward, ForwardStatus, Fund, Side};
use crate::seqs::{picked, positions_picked, Pick};
use crate::store::{
    forwards_count, forwards_selected, forwards_within, ForwardScope, ForwardSelection, Store,
};
use crate::text::{decimal, decimal_u64, owned, views};
use crate::time::Window;
use vstd::arithmetic::power2::{
    lemma2_to64, lemma_pow2_pos, lemma_pow2_strictly_increases, lemma_pow2_unfold, pow2,
};
use vstd::bits::{lemma_u64_shl_is_mul, lemma_u64_shr_is_div};
use vstd::prelude::*;
use vstd::string::*;
use vstd::std_specs::bits::axiom_u64_leading_zeros;

verus! {

/// Lowest fee rate that the controller sets, in ppm.
pub const PPM_MIN: u64 = 10;

/// Highest fee rate that the controller sets, in ppm.
pub const PPM_MAX: u64 = 5000;

/// Amount used for rebalancing, in sat.
pub const SLING_AMOUNT: u64 = 50000;

/// Smallest HTLC that a channel takes, in msat, unless its largest is
/// smaller still.
pub const MIN_HTLC: u64 = 100_000_000;

/// Relative change of the fee rate in one step, in hundredths of a
/// percent: upward where the channel forwarded in the last 24 hours,
/// downward, scaled by the balance, where it did not.
pub const STEP_PERC: u64 = 1000;

/// Base fee that the controller sets, in msat.
pub const FEE_BASE: u64 = 1000;

/// From how many failed forwards on, without a settled one, the fee
/// rate goes up rather than down.
pub const FK_TOLERANCE: usize = 10;

/// The constants of the control law.
#[derive(Debug, Clone, Copy, PartialEq, Eq, Structural)]
pub struct FeePolicy {
    pub ppm_min: u64,
    pub ppm_max: u64,
    /// Relative change per step, in hundredths of a percent.
    pub step: u64,
    pub fee_base_msat: u64,
    pub min_htlc_msat: u64,
    pub failure_tolerance: usize,
}

impl FeePolicy {
    /// A policy that the controller accepts: the fee range is not
    /// empty and fits 32 bits, and a step changes the rate by at most
    /// half.
    pub open spec fn wf(&self) -> bool {
        self.ppm_min <= self.ppm_max <= u32::MAX && self.step <= 5000
    }

    /// The policy of the named constants.
    pub fn standard() -> (r: FeePolicy)
        ensures
            r.wf(),
            r == (FeePolicy {
                ppm_min: PPM_MIN,
                ppm_max: PPM_MAX,
                step: STEP_PERC,
                fee_base_msat: FEE_BASE,
                min_htlc_msat: MIN_HTLC,
                failure_tolerance: FK_TOLERANCE,
            }),
    {
        FeePolicy {
            ppm_min: PPM_MIN,
            ppm_max: PPM_MAX,
            step: STEP_PERC,
            fee_base_msat: FEE_BASE,
            min_htlc_msat: MIN_HTLC,
            failure_tolerance: FK_TOLERANCE,
        }
    }

    /// Whether the controller accepts the policy.
    pub fn is_valid(&self) -> (r: bool)
        ensures
            r == self.wf(),
    {
        self.ppm_min <= self.ppm_max && self.ppm_max <= 0xffff_ffff && self.step <= 5000
    }
}

/// Which way the fee rate of a channel goes.
#[derive(Debug, Clone, Copy, PartialEq, Eq, Structural)]
pub enum Trend {
    /// The new rate is higher.
    Inc,
    /// The new rate is lower.
    Dec,
    /// The rate stays.
    Equ,
}

/// A `setchannel` command for one channel.
#[derive(Debug, Clone)]
pub struct SetChannel {
    pub short_channel_id: String,
    pub base_fee_msat: u64,
    pub ppm: u64,
    pub min_htlc_msat: u64,
    pub max_htlc_msat: u64,
}

/// What the controller decided for one channel.
#[derive(Debug, Clone)]
pub struct FeeDecision {
    /// The channel that the decision is about.
    pub short_channel_id: String,
    pub trend: Trend,
    /// Settled forwards that went out on the channel.
    pub forwards_ok: usize,
    /// Other forwards that went out on the channel.
    pub forwards_ko: usize,
    pub new_ppm: u64,
    pub new_min_htlc_msat: u64,
    pub new_max_htlc_msat: u64,
    /// The command to run, where something changes.
    pub action: Option<SetChannel>,
}

/// `n / d` rounded to the nearest whole number, halves upward.
pub open spec fn round_div(n: nat, d: nat) -> nat
    recommends
        d > 0,
{
    (2 * n + d) / (2 * d)
}

/// `x` held between `lo` and `hi`.
pub open spec fn clamp(x: nat, lo: nat, hi: nat) -> nat
    recommends
        lo <= hi,
{
    if x < lo {
        lo
    } else if x > hi {
        hi
    } else {
        x
    }
}

/// Whether the fee goes down: the channel forwarded nothing, or
/// nothing successfully and failed fewer times than the policy
/// tolerates.
pub open spec fn reduces(policy: FeePolicy, ok: nat, ko: nat) -> bool {
    ok + ko == 0 || (ok == 0 && ko < policy.failure_tolerance)
}

/// The fee rate after one step, before it is held to the policy's
/// range. A reduction is the step scaled by the balance ratio, and
/// none at all where that is under one percent; an increase is the
/// full step. The result is rounded to the nearest ppm.
pub open spec fn stepped_ppm(policy: FeePolicy, current: u64, fund: Fund, reduce: bool) -> nat {
    if reduce {
        let num = policy.step * fund.balance_num();
        let den = 10000 * fund.balance_den();
        if num * 100 < den {
            current as nat
        } else {
            round_div((current * (den - num)) as nat, den)
        }
    } else {
        round_div((current * (10000 + policy.step)) as nat, 10000)
    }
}

/// The fee rate that the control law sets.
pub open spec fn next_ppm(policy: FeePolicy, current: u64, fund: Fund, reduce: bool) -> nat {
    clamp(stepped_ppm(policy, current, fund, reduce), policy.ppm_min as nat, policy.ppm_max as nat)
}

/// The largest HTLC that the control law sets: the largest power of two
/// within our funds.
pub open spec fn next_max_htlc(fund: Fund) -> nat {
    pow2_floor(fund.our_amount_msat as nat)
}

/// The smallest HTLC that the control law sets: the policy's, unless
/// the largest is smaller.
pub open spec fn next_min_htlc(policy: FeePolicy, fund: Fund) -> nat {
    if policy.min_htlc_msat <= next_max_htlc(fund) {
        policy.min_htlc_msat as nat
    } else {
        next_max_htlc(fund)
    }
}

/// `n / d` rounded to the nearest whole number, halves upward.
fn rounded_quotient(n: u128, d: u128) -> (r: u128)
    requires
        d > 0,
        2 * n + d <= u128::MAX,
        2 * d <= u128::MAX,
    ensures
        r == round_div(n as nat, d as nat),
{
    (2 * n + d) / (2 * d)
}

/// Rounding `n / d` gives at least `k` where `n >= k * d`.
proof fn lemma_round_div_lower(n: nat, d: nat, k: nat)
    by (nonlinear_arith)
    requires
        d > 0,
        n >= k * d,
    ensures
        round_div(n, d) >= k,
{
    assert(2 * n + d >= k * (2 * d));
    assert((k * (2 * d)) / (2 * d) == k);
    assert((2 * n + d) / (2 * d) >= (k * (2 * d)) / (2 * d));
}

/// The fee rate that the control law sets.
pub fn compute_ppm(policy: &FeePolicy, current: u64, fund: &Fund, reduce: bool) -> (r: u64)
    requires
        policy.wf(),
    ensures
        r == next_ppm(*policy, current, *fund, reduce),
        policy.ppm_min <= r <= policy.ppm_max,
{
    let b = fund.balance_ratio();
    let ghost bn = b.num as nat;
    let ghost bd = b.den as nat;
    proof {
        lemma_product_fits(policy.step as u128, b.num);
        lemma_product_fits(10000, b.den);
    }
    let num: u128 = policy.step as u128 * b.num;
    let den: u128 = 10000 * b.den;
    assert(num * 2 <= den) by (nonlinear_arith)
        requires
            num == policy.step * b.num,
            den == 10000 * b.den,
            policy.step <= 5000,
            b.num <= b.den,
    ;
    assert(den <= 10000 * 0xffff_ffff_ffff_ffff);
    let unchanged: bool = reduce && num * 100 < den;
    if unchanged {
        return hold(current, policy.ppm_min, policy.ppm_max);
    }
    let factor: u128 = if reduce {
        den - num
    } else {
        10000 + policy.step as u128
    };
    let base: u128 = if reduce {
        den
    } else {
        10000
    };
    assert(2 * factor >= base && factor <= 2 * base && base > 0);
    if current as u128 >= 2 * (policy.ppm_max as u128) {
        proof {
            let c = current as nat;
            let f = factor as nat;
            let d = base as nat;
            let m = policy.ppm_max as nat;
            assert(c * f >= m * d) by (nonlinear_arith)
                requires
                    c >= 2 * m,
                    2 * f >= d,
                    d > 0,
            ;
            lemma_round_div_lower(c * f, d, m);
        }
        return policy.ppm_max;
    }
    assert(current as u128 * factor <= 0x2_0000_0000 * (20000 * 0xffff_ffff_ffff_ffff))
        by (nonlinear_arith)
        requires
            current < 0x2_0000_0000,
            factor <= 20000 * 0xffff_ffff_ffff_ffff,
    ;
    let scaled: u128 = rounded_quotient(current as u128 * factor, base);
    if scaled < policy.ppm_min as u128 {
        policy.ppm_min
    } else if scaled > policy.ppm_max as u128 {
        policy.ppm_max
    } else {
        scaled as u64
    }
}

/// `x` held between `lo` and `hi`.
pub fn hold(x: u64, lo: u64, hi: u64) -> (r: u64)
    requires
        lo <= hi,
    ensures
        r == clamp(x as nat, lo as nat, hi as nat),
        lo <= r <= hi,
{
    if x < lo {
        lo
    } else if x > hi {
        hi
    } else {
        x
    }
}

/// What the control law decides for a channel with the given own
/// funds and current settings, of which `ok` forwards settled and
/// `ko` did not: the new fee rate and HTLC bounds, and the command
/// that sets them where one of them differs from the current one.
pub open spec fn decided(
    policy: FeePolicy,
    scid: Seq<char>,
    fund: Fund,
    our: Channel,
    ok: nat,
    ko: nat,
    d: FeeDecision,
) -> bool {
    let reduce = reduces(policy, ok, ko);
    let ppm = next_ppm(policy, our.fee_per_millionth, fund, reduce);
    let max_htlc = next_max_htlc(fund);
    let min_htlc = next_min_htlc(policy, fund);
    let changes = our.fee_per_millionth != ppm || our.htlc_maximum_msat != max_htlc
        || our.htlc_minimum_msat != min_htlc;
    &&& d.short_channel_id@ == scid
    &&& d.forwards_ok == ok
    &&& d.forwards_ko == ko
    &&& d.new_ppm == ppm
    &&& d.new_max_htlc_msat == max_htlc
    &&& d.new_min_htlc_msat == min_htlc
    &&& d.trend == (if ppm == our.fee_per_millionth {
        Trend::Equ
    } else if ppm > our.fee_per_millionth {
        Trend::Inc
    } else {
        Trend::Dec
    })
    &&& d.action is Some <==> changes
    &&& d.action matches Some(a) ==> {
        &&& a.short_channel_id@ == scid
        &&& a.base_fee_msat == policy.fee_base_msat
        &&& a.ppm == ppm
        &&& a.min_htlc_msat == min_htlc
        &&& a.max_htlc_msat == max_htlc
    }
}

/// The control law for one channel, given how many forwards went out
/// on it in the last 24 hours and settled (`ok`) or did not (`ko`).
pub fn decide(
    policy: &FeePolicy,
    short_channel_id: &str,
    fund: &Fund,
    our: &Channel,
    ok: usize,
    ko: usize,
) -> (d: FeeDecision)
    requires
        policy.wf(),
    ensures
        decided(*policy, short_channel_id@, *fund, *our, ok as nat, ko as nat, d),
        policy.ppm_min <= d.new_ppm <= policy.ppm_max,
        d.new_min_htlc_msat <= d.new_max_htlc_msat,
        d.new_max_htlc_msat == pow2_floor(fund.our_amount_msat as nat),
{
    let reduce = (ok == 0 && ko == 0) || (ok == 0 && ko < policy.failure_tolerance);
    let current_ppm = our.fee_per_millionth;
    let new_ppm = compute_ppm(policy, current_ppm, fund, reduce);
    let new_max_htlc_msat = largest_power_of_two_leq(fund.our_amount_msat);
    let new_min_htlc_msat = if policy.min_htlc_msat <= new_max_htlc_msat {
        policy.min_htlc_msat
    } else {
        new_max_htlc_msat
    };
    let changes = current_ppm != new_ppm || our.htlc_maximum_msat != new_max_htlc_msat
        || our.htlc_minimum_msat != new_min_htlc_msat;
    let trend = if new_ppm == current_ppm {
        Trend::Equ
    } else if new_ppm > current_ppm {
        Trend::Inc
    } else {
        Trend::Dec
    };
    let action = if changes {
        Some(
            SetChannel {
                short_channel_id: owned(short_channel_id),
                base_fee_msat: policy.fee_base_msat,
                ppm: new_ppm,
                min_htlc_msat: new_min_htlc_msat,
                max_htlc_msat: new_max_htlc_msat,
            },
        )
    } else {
        None
    };
    FeeDecision {
        short_channel_id: owned(short_channel_id),
        trend,
        forwards_ok: ok,
        forwards_ko: ko,
        new_ppm,
        new_min_htlc_msat,
        new_max_htlc_msat,
        action,
    }
}

/// The forwards that went out on `scid`.
pub open spec fn went_out_on(forwards: Seq<Forward>, scid: Seq<char>) -> Seq<Forward> {
    forwards_within(forwards, ForwardScope::outgoing(0, scid))
}

/// The forwards that went out on `scid` and settled.
pub open spec fn settled_out_on(forwards: Seq<Forward>, scid: Seq<char>) -> Seq<Forward> {
    forwards_within(forwards, ForwardScope::outgoing_ended(0, scid, ForwardStatus::Settled))
}

/// The forwards among `forwards` that went out on `short_channel_id`.
pub fn did_forward(short_channel_id: &str, forwards: &Vec<Forward>) -> (r: Vec<Forward>)
    ensures
        r@ == went_out_on(forwards@, short_channel_id@),
{
    let sel = ForwardSelection::new(0, Some(short_channel_id), Side::Outgoing, Window::Ever, None);
    forwards_selected(forwards, &sel)
}

/// Decides the fee rate and the HTLC bounds of one own channel from
/// its balance, its current settings `our` and the forwards of the
/// last 24 hours.
pub fn calc_setchannel(
    policy: &FeePolicy,
    short_channel_id: &str,
    fund: &Fund,
    our: &Channel,
    forwards_24h: &Vec<Forward>,
) -> (d: FeeDecision)
    requires
        policy.wf(),
    ensures
        decided(
            *policy,
            short_channel_id@,
            *fund,
            *our,
            settled_out_on(forwards_24h@, short_channel_id@).len(),
            (went_out_on(forwards_24h@, short_channel_id@).len() - settled_out_on(
                forwards_24h@,
                short_channel_id@,
            ).len()) as nat,
            d,
        ),
        policy.ppm_min <= d.new_ppm <= policy.ppm_max,
        d.new_min_htlc_msat <= d.new_max_htlc_msat,
        d.new_max_htlc_msat == pow2_floor(fund.our_amount_msat as nat),
{
    let all_sel = ForwardSelection::new(
        0,
        Some(short_channel_id),
        Side::Outgoing,
        Window::Ever,
        None,
    );
    let ok_sel = ForwardSelection::new(
        0,
        Some(short_channel_id),
        Side::Outgoing,
        Window::Ever,
        Some(ForwardStatus::Settled),
    );
    let forwards_all = forwards_count(forwards_24h, &all_sel);
    let forwards_ok = forwards_count(forwards_24h, &ok_sel);
    proof {
        lemma_settled_among(forwards_24h@, short_channel_id@);
    }
    let forwards_ko = forwards_all - forwards_ok;
    decide(policy, short_channel_id, fund, our, forwards_ok, forwards_ko)
}

/// Selects the own channels that have an edge from the local node in
/// the gossip graph.
pub struct WithOurEdge<'a> {
    pub store: &'a Store,
}

impl<'a> Pick<Fund> for WithOurEdge<'a> {
    open spec fn picks(&self, item: &Fund) -> bool {
        self.store.edge(item.scid(), self.store.info.id@) is Some
    }

    fn accepts(&self, item: &Fund) -> (r: bool) {
        let scid = item.short_channel_id();
        self.store.get_channel(scid.as_str(), self.store.info.id.as_str()).is_some()
    }
}

/// The own usable channels that the fee controller decides on: those
/// with an edge from the local node in the gossip graph.
pub open spec fn fee_targets(store: &Store) -> Seq<Fund> {
    picked(store.normal(), WithOurEdge { store })
}

/// The forwards that the fee controller looks at: those received in
/// the last 24 hours.
pub open spec fn last_day(store: &Store) -> Seq<Forward> {
    store.history_within(ForwardScope::during(store.now, Window::Hours(24)))
}

/// Whether `d` is what the control law decides for the channel `fund`
/// of the store.
pub open spec fn decided_for(policy: FeePolicy, store: &Store, fund: Fund, d: FeeDecision) -> bool {
    store.edge(fund.scid(), store.info.id@) matches Some(our) && decided(
        policy,
        fund.scid(),
        fund,
        our,
        settled_out_on(last_day(store), fund.scid()).len(),
        (went_out_on(last_day(store), fund.scid()).len() - settled_out_on(
            last_day(store),
            fund.scid(),
        ).len()) as nat,
        d,
    )
}

/// Runs the fee controller over the own usable channels: one decision
/// for each channel that has an edge from the local node, in the order
/// of the funds document.
pub fn run_fees(store: &Store, policy: &FeePolicy) -> (r: Vec<FeeDecision>)
    requires
        policy.wf(),
    ensures
        r@.len() == fee_targets(store).len(),
        forall|k: int|
            0 <= k < r@.len() ==> decided_for(*policy, store, fee_targets(store)[k], #[trigger] r@[k]),
        forall|k: int|
            0 <= k < r@.len() ==> policy.ppm_min <= (#[trigger] r@[k]).new_ppm <= policy.ppm_max
                && r@[k].new_min_htlc_msat <= r@[k].new_max_htlc_msat && r@[k].new_max_htlc_msat
                == pow2_floor(fee_targets(store)[k].our_amount_msat as nat),
{
    let normal_channels = store.normal_channels();
    let forwards_24h = store.filter_forwards_by_hours(24);
    let sel = WithOurEdge { store };
    let positions = positions_picked(&normal_channels, &sel);
    let mut out: Vec<FeeDecision> = Vec::new();
    let mut k: usize = 0;
    while k < positions.len()
        invariant
            k <= positions.len(),
            policy.wf(),
            normal_channels@ == store.normal(),
            forwards_24h@ == last_day(store),
            sel.store == store,
            positions@.len() == fee_targets(store).len(),
            forall|j: int|
                0 <= j < positions@.len() ==> #[trigger] positions@[j] < normal_channels@.len(),
            forall|j: int|
                0 <= j < positions@.len() ==> normal_channels@[#[trigger] positions@[j] as int]
                    == fee_targets(store)[j],
            forall|j: int| 0 <= j < positions@.len() ==> sel.picks(&#[trigger] fee_targets(store)[j]),
            out@.len() == k,
            forall|j: int|
                0 <= j < k ==> decided_for(*policy, store, fee_targets(store)[j], #[trigger] out@[j]),
            forall|j: int|
                0 <= j < k ==> policy.ppm_min <= (#[trigger] out@[j]).new_ppm <= policy.ppm_max
                    && out@[j].new_min_htlc_msat <= out@[j].new_max_htlc_msat
                    && out@[j].new_max_htlc_msat == pow2_floor(
                    fee_targets(store)[j].our_amount_msat as nat,
                ),
        decreases positions.len() - k,
    {
        let fund = &normal_channels[positions[k]];
        let short_channel_id = fund.short_channel_id();
        proof {
            assert(sel.picks(&fee_targets(store)[k as int]));
        }
        match store.get_channel(short_channel_id.as_str(), store.info.id.as_str()) {
            Some(our) => {
                let d = calc_setchannel(policy, short_channel_id.as_str(), fund, our, &forwards_24h);
                out.push(d);
            },
            None => {
                proof {
                    assert(false);
                }
            },
        }
        k += 1;
    }
    out
}

/// No more forwards settled on a channel than went out on it.
pub proof fn lemma_settled_among(forwards: Seq<Forward>, scid: Seq<char>)
    ensures
        settled_out_on(forwards, scid).len() <= went_out_on(forwards, scid).len(),
    decreases forwards.len(),
{
    reveal(Seq::filter);
    if forwards.len() > 0 {
        lemma_settled_among(forwards.drop_last(), scid);
    }
}

impl SetChannel {
    /// The arguments of the command: `setchannel`, the channel, the
    /// base fee, the fee rate, and the smallest and largest HTLC.
    pub open spec fn arguments(&self) -> Seq<Seq<char>> {
        seq![
            "setchannel"@,
            self.short_channel_id@,
            decimal(self.base_fee_msat as nat),
            decimal(self.ppm as nat),
            decimal(self.min_htlc_msat as nat),
            decimal(self.max_htlc_msat as nat),
        ]
    }

    /// The arguments of the command, to hand to the node's command
    /// line one by one.
    pub fn args(&self) -> (r: Vec<String>)
        ensures
            views(r@) == self.arguments(),
    {
        let mut out: Vec<String> = Vec::new();
        out.push(String::from_str("setchannel"));
        out.push(self.short_channel_id.clone());
        out.push(decimal_u64(self.base_fee_msat));
        out.push(decimal_u64(self.ppm));
        out.push(decimal_u64(self.min_htlc_msat));
        out.push(decimal_u64(self.max_htlc_msat));
        proof {
            assert(views(out@) =~= self.arguments());
        }
        out
    }
}

/// The largest power of two that does not exceed `n`, and 0 for `n == 0`.
pub open spec fn pow2_floor(n: nat) -> nat
    decreases n,
{
    if n == 0 {
        0
    } else if n == 1 {
        1
    } else {
        2 * pow2_floor(n / 2)
    }
}

/// For `n` in `[2^k, 2^(k+1))`, `pow2_floor(n)` is `2^k`.
pub proof fn lemma_pow2_floor_between(n: nat, k: nat)
    requires
        pow2(k) <= n < pow2(k + 1),
    ensures
        pow2_floor(n) == pow2(k),
    decreases k,
{
    lemma2_to64();
    if k == 0 {
        assert(n == 1);
    } else {
        lemma_pow2_unfold(k);
        lemma_pow2_unfold(k + 1);
        assert(n >= 2);
        lemma_pow2_floor_between(n / 2, (k - 1) as nat);
    }
}

/// `pow2_floor(n)` is a power of two, at most `n`, and more than half of `n`.
pub proof fn lemma_pow2_floor_bounds(n: nat)
    requires
        n > 0,
    ensures
        exists|k: nat| pow2_floor(n) == #[trigger] pow2(k),
        pow2_floor(n) <= n < 2 * pow2_floor(n),
    decreases n,
{
    lemma2_to64();
    if n == 1 {
        assert(pow2_floor(n) == pow2(0));
    } else {
        lemma_pow2_floor_bounds(n / 2);
        let k = choose|k: nat| pow2_floor(n / 2) == #[trigger] pow2(k);
        lemma_pow2_unfold(k + 1);
        assert(pow2_floor(n) == pow2(k + 1));
    }
}

/// Returns the largest power of 2 that is less than or equal to `n`.
/// For `n == 0`, returns 0.
pub fn largest_power_of_two_leq(n: u64) -> (r: u64)
    ensures
        r == pow2_floor(n as nat),
        r <= n,
        n > 0 ==> n - r < r,
{
    if n == 0 {
        0
    } else {
        let lz: u32 = n.leading_zeros();
        proof {
            axiom_u64_leading_zeros(n);
        }
        let k: u64 = (63 - lz) as u64;
        let r: u64 = 1u64 << k;
        proof {
            lemma_top_bit_bounds(n, k);
            lemma_pow2_floor_between(n as nat, k as nat);
            lemma_u64_shl_is_mul(1u64, k);
            lemma_pow2_unfold((k + 1) as nat);
        }
        r
    }
}

/// If bit `k` of `n` is set and no higher bit is, `n` lies in `[2^k, 2^(k+1))`.
proof fn lemma_top_bit_bounds(n: u64, k: u64)
    requires
        k < 64,
        (n >> k) & 1u64 != 0u64,
        k < 63 ==> n >> ((k + 1) as u64) == 0,
    ensures
        pow2(k as nat) <= n < pow2((k + 1) as nat),
        pow2(k as nat) <= u64::MAX,
{
    lemma2_to64();
    lemma_pow2_pos(k as nat);
    lemma_pow2_strictly_increases(k as nat, 64);
    lemma_pow2_unfold((k + 1) as nat);
    lemma_u64_shr_is_div(n, k);
    let q = n >> k;
    assert(q & 1u64 != 0u64 ==> q >= 1u64) by (bit_vector);
    let d = pow2(k as nat) as int;
    assert(d <= n) by (nonlinear_arith)
        requires
            (n as int) / d >= 1,
            d > 0,
    ;
    if k < 63 {
        let k1: u64 = (k + 1) as u64;
        lemma_u64_shr_is_div(n, k1);
        lemma_pow2_pos(k1 as nat);
        let d1 = pow2(k1 as nat) as int;
        assert(n < d1) by (nonlinear_arith)
            requires
                (n as int) / d1 == 0,
                d1 > 0,
                n >= 0,
        ;
    }
}

} // verus!
