//! What the pages of the dashboard show: the lists of channels and
//! nodes in the order of the pages, and the figures of their charts.

use crate::cmd::{copy_text, Channel, ClosedChannel, Forward, ForwardStatus, Fund, Node, Side};
use crate::graph::{edges_at, lemma_edge_selection, EdgeSelection, End};
use crate::order::{
    arranged, lemma_sort_order, ranks_under, sort_order, sorted_by, sorted_copy, Rank, Ranked,
    SortKey,
};
use crate::routes::{lemma_same, times, Same};
use crate::ratio::Ratio;
use crate::seqs::{
    capped, count_picked, distinct, picked, project_all, projected, select, total, total_picked,
    Duplicate, Measure, Pick, Project,
};
use crate::store::{
    fee_sum, forwards_count, forwards_within, lemma_everything, Everything, ForwardScope,
    ForwardSelection, OurSat, Scope, Selection, Store,
};
use crate::text::{chars_of, decimal, decimal_u64, distinct_strings, str_eq, views};
use vstd::string::*;
use crate::time::Window;
use vstd::prelude::*;

verus! {

// ---------------------------------------------------------------------
// The peer behind a channel
// ---------------------------------------------------------------------

/// How the far end of a channel is shown.
#[derive(Debug, Clone)]
pub struct ChannelPeer {
    /// The name of the peer, or the channel's id where the peer is
    /// not known.
    pub shown: String,
    /// The id of the peer, where it is known.
    pub node_id: Option<String>,
}

impl Store {
    /// How the far end of a channel is shown: where the graph holds
    /// our edge of the channel, by the name and the id of the node
    /// that the edge leads to; else by the channel's id.
    pub fn channel_peer(&self, short_channel_id: &str) -> (r: ChannelPeer)
        ensures
            match self.edge(short_channel_id@, self.info.id@) {
                Some(c) => r.shown@ == self.display_name(c.destination@) && (r.node_id matches Some(
                    id,
                ) && id@ == c.destination@),
                None => r.shown@ == short_channel_id@ && r.node_id is None,
            },
    {
        match self.get_channel(short_channel_id, self.info.id.as_str()) {
            Some(c) => ChannelPeer {
                shown: self.get_node_alias(c.destination.as_str()),
                node_id: Some(c.destination.clone()),
            },
            None => ChannelPeer { shown: crate::text::owned(short_channel_id), node_id: None },
        }
    }
}

// ---------------------------------------------------------------------
// Liquidity
// ---------------------------------------------------------------------

/// The funds of the peer in an own channel, in whole sat.
pub struct TheirSat;

impl Measure<Fund> for TheirSat {
    open spec fn amount(&self, item: &Fund) -> nat {
        if item.amount_msat >= item.our_amount_msat {
            ((item.amount_msat - item.our_amount_msat) / 1000) as nat
        } else {
            0
        }
    }

    fn read(&self, item: &Fund) -> (r: u64) {
        if item.amount_msat >= item.our_amount_msat {
            (item.amount_msat - item.our_amount_msat) / 1000
        } else {
            0
        }
    }
}

/// The funds in a list of channels, in sat.
#[derive(Debug, Clone, Copy, PartialEq, Eq, Structural)]
pub struct Liquidity {
    /// The funds on our side.
    pub ours: u64,
    /// The funds on the side of the peers.
    pub theirs: u64,
}

impl Liquidity {
    /// Our share of the funds; 0 where there are none.
    pub fn our_share(&self) -> (r: Ratio)
        ensures
            r.is_fraction(),
            self.ours + self.theirs == 0 ==> r.num == 0,
            self.ours + self.theirs > 0 ==> r.num == self.ours && r.den == self.ours + self.theirs,
    {
        if self.ours == 0 && self.theirs == 0 {
            Ratio { num: 0, den: 1 }
        } else {
            Ratio { num: self.ours as u128, den: self.ours as u128 + self.theirs as u128 }
        }
    }
}

/// The funds in the channels, on our side and on the side of the
/// peers, each held to what 64 bits can hold.
pub fn liquidity(channels: &Vec<Fund>) -> (r: Liquidity)
    ensures
        r.ours == capped(total(channels@, OurSat)),
        r.theirs == capped(total(channels@, TheirSat)),
{
    proof {
        lemma_everything(channels@);
    }
    Liquidity {
        ours: total_picked(channels, &Everything, &OurSat),
        theirs: total_picked(channels, &Everything, &TheirSat),
    }
}

// ---------------------------------------------------------------------
// The lists of channels
// ---------------------------------------------------------------------

/// The unit in which shares and rates are ranked: 2^-60.
pub const RANK_UNIT: u128 = 0x1000_0000_0000_0000;

/// Ranks own channels by how full of our funds they are, emptiest
/// first, in units of 2^-60 of their capacity.
pub struct ByBalance;

impl Ranked<Fund> for ByBalance {
    open spec fn rank_of(&self, item: &Fund) -> Rank {
        Rank {
            number: (item.balance_num() * RANK_UNIT) as int / item.balance_den() as int,
            text: Seq::empty(),
        }
    }

    fn key(&self, item: &Fund) -> (r: SortKey) {
        let b = item.balance_ratio();
        assert(b.num * RANK_UNIT <= 0xffff_ffff_ffff_ffff * 0x1000_0000_0000_0000)
            by (nonlinear_arith)
            requires
                b.num <= 0xffff_ffff_ffff_ffff,
        ;
        let scaled: u128 = (b.num * RANK_UNIT) / b.den;
        SortKey::of_number(scaled as i128)
    }
}

/// The channels in the order of their balance, emptiest first;
/// channels of the same balance keep their order.
pub fn channels_by_balance(channels: &Vec<Fund>) -> (r: Vec<Fund>)
    ensures
        r@ == sorted_by(channels@, ByBalance),
{
    sorted_copy(channels, &ByBalance)
}

/// From how many days of age on a channel counts as mature.
pub const MATURE_DAYS: i64 = 365;

/// How many days without a forward make a channel inactive.
pub const QUIET_DAYS: i64 = 60;

impl Store {
    /// Whether an own channel is mature and inactive: its peer has no
    /// note, it is at least `MATURE_DAYS` days old, and no forward on
    /// it settled within the last `QUIET_DAYS` days.
    pub open spec fn is_mature_inactive(&self, f: Fund) -> bool {
        &&& self.note_on(f.peer_id@) is None
        &&& f.short_channel_id matches Some(s) && (self.channel_age(s@) matches Some(age) && age
            >= MATURE_DAYS) && self.settled_within(
            Scope::on(self.now, s@, Side::Either, Window::Days(QUIET_DAYS)),
        ).len() == 0
    }

    /// What an own channel earned per day of its age, in units of
    /// 2^-60 sat: its fees over its age in days, 0 for a channel
    /// without an age or younger than a day.
    pub open spec fn earned_per_day(&self, f: Fund) -> int {
        match f.short_channel_id {
            Some(s) => match self.channel_age(s@) {
                Some(age) => if age > 0 {
                    (capped(
                        fee_sum(
                            self.settled_within(
                                Scope::on(self.now, s@, Side::Outgoing, Window::Ever),
                            ),
                        ),
                    ) * RANK_UNIT) / age
                } else {
                    0
                },
                None => 0,
            },
            None => 0,
        }
    }
}

/// Selects the own channels that are mature and inactive.
pub struct MatureInactive<'a> {
    pub store: &'a Store,
}

impl<'a> Pick<Fund> for MatureInactive<'a> {
    open spec fn picks(&self, item: &Fund) -> bool {
        self.store.is_mature_inactive(*item)
    }

    fn accepts(&self, item: &Fund) -> (r: bool) {
        if self.store.get_peer_note(item.peer_id.as_str()).is_some() {
            return false;
        }
        match &item.short_channel_id {
            Some(scid) => {
                let old_enough = match self.store.get_channel_age_days(scid.as_str()) {
                    Some(age) => age >= MATURE_DAYS,
                    None => false,
                };
                if !old_enough {
                    return false;
                }
                let recent = self.store.settled_count(
                    &Selection::on(
                        self.store.now,
                        scid.as_str(),
                        Side::Either,
                        Window::Days(QUIET_DAYS),
                    ),
                );
                recent == 0
            },
            None => false,
        }
    }
}

/// Ranks own channels by what they earned per day, most first.
pub struct ByEarnings<'a> {
    pub store: &'a Store,
}

impl<'a> Ranked<Fund> for ByEarnings<'a> {
    open spec fn rank_of(&self, item: &Fund) -> Rank {
        Rank { number: -self.store.earned_per_day(*item), text: Seq::empty() }
    }

    fn key(&self, item: &Fund) -> (r: SortKey) {
        let earned: u128 = match &item.short_channel_id {
            Some(scid) => match self.store.get_channel_sats_per_day(scid.as_str()) {
                Some(q) => {
                    assert(q.num * RANK_UNIT <= 0xffff_ffff_ffff_ffff * 0x1000_0000_0000_0000)
                        by (nonlinear_arith)
                        requires
                            q.num <= 0xffff_ffff_ffff_ffff,
                    ;
                    (q.num * RANK_UNIT) / q.den
                },
                None => 0,
            },
            None => 0,
        };
        SortKey::of_number(-(earned as i128))
    }
}

impl Store {
    /// Those of the channels that are mature and inactive, the one
    /// that earned most per day first.
    pub fn mature_inactive_channels(&self, channels: &Vec<Fund>) -> (r: Vec<Fund>)
        ensures
            r@ == sorted_by(
                picked(channels@, MatureInactive { store: self }),
                ByEarnings { store: self },
            ),
    {
        let chosen = select(channels, &MatureInactive { store: self });
        sorted_copy(&chosen, &ByEarnings { store: self })
    }
}

// ---------------------------------------------------------------------
// The lists of nodes
// ---------------------------------------------------------------------

/// Selects the nodes with at least so many edges at them.
pub struct WellConnected<'a> {
    pub store: &'a Store,
    pub min_channels: usize,
}

impl<'a> Pick<Node> for WellConnected<'a> {
    open spec fn picks(&self, item: &Node) -> bool {
        edges_at(self.store.edges(), item.nodeid@, End::Either, None).len() >= self.min_channels
    }

    fn accepts(&self, item: &Node) -> (r: bool) {
        self.store.node_total_channels(item.nodeid.as_str()) >= self.min_channels
    }
}

/// Ranks nodes by the name under which they are shown.
pub struct ByDisplayName<'a> {
    pub store: &'a Store,
}

impl<'a> Ranked<Node> for ByDisplayName<'a> {
    open spec fn rank_of(&self, item: &Node) -> Rank {
        Rank { number: 0, text: self.store.display_name(item.nodeid@) }
    }

    fn key(&self, item: &Node) -> (r: SortKey) {
        let name = self.store.get_node_alias(item.nodeid.as_str());
        SortKey::of_text(chars_of(name.as_str()))
    }
}

/// Ranks edges by their fee rate, cheapest first.
pub struct ByFeeRate;

impl Ranked<Channel> for ByFeeRate {
    open spec fn rank_of(&self, item: &Channel) -> Rank {
        Rank { number: item.fee_per_millionth as int, text: Seq::empty() }
    }

    fn key(&self, item: &Channel) -> (r: SortKey) {
        SortKey::of_number(item.fee_per_millionth as i128)
    }
}

impl Store {
    /// The nodes with at least `min_channels` edges at them, in the
    /// order of the names under which they are shown; nodes of the
    /// same name keep the order of the nodes document.
    pub fn listed_nodes(&self, min_channels: usize) -> (r: Vec<Node>)
        ensures
            r@ == sorted_by(
                picked(self.nodes.nodes@, WellConnected { store: self, min_channels }),
                ByDisplayName { store: self },
            ),
    {
        let chosen = select(&self.nodes.nodes, &WellConnected { store: self, min_channels });
        sorted_copy(&chosen, &ByDisplayName { store: self })
    }

    /// The edges that start at a node, cheapest first; edges of the
    /// same fee rate keep the order of the graph.
    pub fn node_channels(&self, nodeid: &str) -> (r: Vec<Channel>)
        ensures
            r@ == sorted_by(edges_at(self.edges(), nodeid@, End::Source, None), ByFeeRate),
    {
        let sel = EdgeSelection::at(nodeid, End::Source);
        proof {
            lemma_edge_selection(self.edges(), sel);
        }
        let out = select(&self.channels.channels, &sel);
        sorted_copy(&out, &ByFeeRate)
    }

    /// Whether a node is one of our peers.
    pub fn is_peer(&self, nodeid: &str) -> (r: bool)
        ensures
            r == exists|i: int|
                0 <= i < self.peers.peers@.len() && (#[trigger] self.peers.peers@[i]).id@
                    == nodeid@,
    {
        let mut i: usize = 0;
        while i < self.peers.peers.len()
            invariant
                i <= self.peers.peers.len(),
                forall|k: int| 0 <= k < i ==> (#[trigger] self.peers.peers@[k]).id@ != nodeid@,
            decreases self.peers.peers.len() - i,
        {
            if str_eq(self.peers.peers[i].id.as_str(), nodeid) {
                return true;
            }
            i += 1;
        }
        false
    }
}

// ---------------------------------------------------------------------
// The figures of the bar charts
// ---------------------------------------------------------------------

/// The height of the bars of a fee chart, in pixels.
pub const BAR_HEIGHT: u64 = 120;

/// Whether `m` is the largest of the amounts: one of them, and none is
/// larger.
pub open spec fn is_largest(amounts: Seq<u64>, m: u64) -> bool {
    amounts.contains(m) && forall|i: int| 0 <= i < amounts.len() ==> amounts[i] <= m
}

/// The largest of the amounts of two lists; 1 where both are empty.
pub fn largest_amount(first: &Vec<u64>, second: &Vec<u64>) -> (r: u64)
    ensures
        first@.len() + second@.len() == 0 ==> r == 1,
        first@.len() + second@.len() > 0 ==> is_largest(first@ + second@, r),
{
    let mut best: Option<u64> = None;
    let mut i: usize = 0;
    while i < first.len()
        invariant
            i <= first.len(),
            best is None <==> i == 0,
            best matches Some(m) ==> is_largest(first@.take(i as int), m),
        decreases first.len() - i,
    {
        let v = first[i];
        let ghost before = first@.take(i as int);
        let ghost now = first@.take(i + 1);
        proof {
            assert(now =~= before.push(v));
        }
        best = match best {
            None => Some(v),
            Some(m) => if m >= v {
                Some(m)
            } else {
                Some(v)
            },
        };
        proof {
            let m = best->0;
            if m == v {
                assert(now[i as int] == m);
            } else {
                let k = choose|k: int| 0 <= k < before.len() && before[k] == m;
                assert(now[k] == m);
            }
            assert forall|j: int| 0 <= j < now.len() implies now[j] <= m by {
                if j < i {
                    assert(before[j] == now[j]);
                }
            }
        }
        i += 1;
    }
    proof {
        assert(first@.take(i as int) =~= first@);
        assert(first@ + second@.take(0) =~= first@);
    }
    let mut j: usize = 0;
    while j < second.len()
        invariant
            j <= second.len(),
            best is None <==> first@.len() + j == 0,
            best matches Some(m) ==> is_largest(first@ + second@.take(j as int), m),
        decreases second.len() - j,
    {
        let v = second[j];
        let ghost before = first@ + second@.take(j as int);
        let ghost now = first@ + second@.take(j + 1);
        proof {
            assert(now =~= before.push(v));
        }
        best = match best {
            None => Some(v),
            Some(m) => if m >= v {
                Some(m)
            } else {
                Some(v)
            },
        };
        proof {
            let m = best->0;
            if m == v {
                assert(now[now.len() - 1] == m);
            } else {
                let k = choose|k: int| 0 <= k < before.len() && before[k] == m;
                assert(now[k] == m);
            }
            assert forall|k: int| 0 <= k < now.len() implies now[k] <= m by {
                if k < before.len() {
                    assert(before[k] == now[k]);
                }
            }
        }
        j += 1;
    }
    proof {
        assert(second@.take(j as int) =~= second@);
    }
    match best {
        Some(m) => m,
        None => 1,
    }
}

/// The height of the bar of `amount` in a chart whose tallest bar
/// stands for `top`, in pixels: the share of `amount` in `top` of
/// `BAR_HEIGHT`, rounded down; 0 in a chart without a top.
pub open spec fn bar_of(amount: u64, top: u64) -> nat {
    if top == 0 {
        0
    } else {
        ((amount * BAR_HEIGHT) / top as int) as nat
    }
}

/// The height of the bar of `amount` in a chart whose tallest bar
/// stands for `top`, in pixels.
pub fn bar_height(amount: u64, top: u64) -> (r: u64)
    requires
        amount <= top,
    ensures
        r == bar_of(amount, top),
        r <= BAR_HEIGHT,
{
    if top == 0 {
        0
    } else {
        let a: u128 = amount as u128;
        assert(a * 120 <= 0xffff_ffff_ffff_ffff * 120) by (nonlinear_arith)
            requires
                a <= 0xffff_ffff_ffff_ffff,
        ;
        let scaled: u128 = (a * 120) / (top as u128);
        assert((amount * 120) / top as int <= 120) by (nonlinear_arith)
            requires
                0 <= amount <= top,
                top > 0,
        ;
        scaled as u64
    }
}

/// The value at the mark `step` of the four marks of a chart's axis
/// that ends at `top`: that many quarters of `top`, rounded down.
pub fn axis_mark(top: u64, step: u8) -> (r: u64)
    requires
        step <= 4,
    ensures
        r == (top * step) / 4,
{
    let t: u128 = top as u128;
    let k: u128 = step as u128;
    assert(t * k <= t * 4 && t * k >= 0) by (nonlinear_arith)
        requires
            0 <= k <= 4,
            t >= 0,
    ;
    ((t * k) / 4) as u64
}

/// An amount as an axis names it: in whole millions with an `M` from
/// a million on, in whole thousands with a `K` from a thousand on,
/// else as it is.
pub open spec fn amount_label_text(value: u64) -> Seq<char> {
    if value >= 1_000_000 {
        decimal((value / 1_000_000) as nat) + "M"@
    } else if value >= 1_000 {
        decimal((value / 1_000) as nat) + "K"@
    } else {
        decimal(value as nat)
    }
}

/// An amount as an axis names it.
pub fn amount_label(value: u64) -> (r: String)
    ensures
        r@ == amount_label_text(value),
{
    if value >= 1_000_000 {
        let mut out = decimal_u64(value / 1_000_000);
        out.append("M");
        out
    } else if value >= 1_000 {
        let mut out = decimal_u64(value / 1_000);
        out.append("K");
        out
    } else {
        decimal_u64(value)
    }
}

/// The largest of the counts; 0 where there are none.
pub fn largest_count(counts: &Vec<usize>) -> (r: usize)
    ensures
        forall|i: int| 0 <= i < counts@.len() ==> counts@[i] <= r,
        counts@.len() > 0 ==> counts@.contains(r),
        counts@.len() == 0 ==> r == 0,
{
    let mut best: usize = 0;
    let mut i: usize = 0;
    while i < counts.len()
        invariant
            i <= counts.len(),
            forall|k: int| 0 <= k < i ==> counts@[k] <= best,
            i > 0 ==> exists|k: int| 0 <= k < i && counts@[k] == best,
            i == 0 ==> best == 0,
        decreases counts.len() - i,
    {
        if i == 0 || counts[i] > best {
            best = counts[i];
        } else {
            proof {
                let k = choose|k: int| 0 <= k < i && counts@[k] == best;
                assert(counts@[k] == best);
            }
        }
        i += 1;
    }
    best
}

/// The share of a count in the largest count, as the width of its
/// bar; 0 where the largest is 0.
pub fn bar_share(count: usize, largest: usize) -> (r: Ratio)
    requires
        count <= largest,
    ensures
        r.is_fraction(),
        largest == 0 ==> r.num == 0,
        largest > 0 ==> r.num == count && r.den == largest,
{
    if largest == 0 {
        Ratio { num: 0, den: 1 }
    } else {
        Ratio { num: count as u128, den: largest as u128 }
    }
}

// ---------------------------------------------------------------------
// Why channels were closed
// ---------------------------------------------------------------------

/// A cause of closing with the number of channels closed for it.
#[derive(Debug, Clone)]
pub struct CauseCount {
    pub cause: String,
    pub count: usize,
}

impl Duplicate for CauseCount {
    fn duplicate(&self) -> (r: CauseCount) {
        CauseCount { cause: self.cause.clone(), count: self.count }
    }
}

/// What a cause count says.
pub struct Cause {
    pub cause: Seq<char>,
    pub count: nat,
}

impl CauseCount {
    /// What the count says.
    pub open spec fn say(&self) -> Cause {
        Cause { cause: self.cause@, count: self.count as nat }
    }
}

/// What each of the counts says.
pub open spec fn said(counts: Seq<CauseCount>) -> Seq<Cause> {
    Seq::new(counts.len(), |i: int| counts[i].say())
}

/// The cause of each closing.
pub struct CloseCause;

impl Project<ClosedChannel, String> for CloseCause {
    open spec fn image(&self, item: &ClosedChannel) -> Option<String> {
        Some(item.close_cause)
    }

    fn apply(&self, item: &ClosedChannel) -> (r: Option<String>) {
        Some(item.close_cause.clone())
    }
}

/// The causes of the closings, each once in the order of its first
/// occurrence, with the number of channels closed for it.
pub open spec fn cause_tally(closed: Seq<ClosedChannel>) -> Seq<Cause> {
    let all = views(projected(closed, CloseCause));
    Seq::new(
        distinct(all).len(),
        |i: int| Cause { cause: distinct(all)[i], count: times(all, distinct(all)[i]) },
    )
}

/// The ranks of causes by their counts, most first.
pub open spec fn cause_ranks(causes: Seq<Cause>) -> Seq<Rank> {
    Seq::new(causes.len(), |i: int| Rank { number: -(causes[i].count as int), text: Seq::empty() })
}

/// Ranks cause counts by their counts, most first.
pub struct ByCount;

impl Ranked<CauseCount> for ByCount {
    open spec fn rank_of(&self, item: &CauseCount) -> Rank {
        Rank { number: -(item.count as int), text: Seq::empty() }
    }

    fn key(&self, item: &CauseCount) -> (r: SortKey) {
        SortKey::of_number(-(item.count as i128))
    }
}

/// How many channels were closed for each cause, the most frequent
/// cause first; causes of the same count in the order of their first
/// occurrence.
pub fn close_causes(closed: &Vec<ClosedChannel>) -> (r: Vec<CauseCount>)
    ensures
        said(r@) == arranged(cause_tally(closed@), sort_order(cause_ranks(cause_tally(closed@)))),
{
    let all = project_all(closed, &CloseCause);
    let causes = distinct_strings(&all);
    let mut counts: Vec<CauseCount> = Vec::new();
    let mut i: usize = 0;
    while i < causes.len()
        invariant
            i <= causes.len(),
            all@ == projected(closed@, CloseCause),
            views(causes@) == distinct(views(all@)),
            counts@.len() == i,
            forall|k: int|
                0 <= k < i ==> (#[trigger] counts@[k]).say() == cause_tally(closed@)[k],
        decreases causes.len() - i,
    {
        let sel = Same { text: causes[i].clone() };
        proof {
            lemma_same(all@, sel);
            assert(views(causes@)[i as int] == causes@[i as int]@);
        }
        let count = count_picked(&all, &sel);
        counts.push(CauseCount { cause: causes[i].clone(), count });
        i += 1;
    }
    let sorted = sorted_copy(&counts, &ByCount);
    proof {
        assert(said(counts@) =~= cause_tally(closed@));
        assert(ranks_under(counts@, ByCount) =~= cause_ranks(said(counts@)));
        lemma_sort_order(ranks_under(counts@, ByCount));
        assert(said(sorted@) =~= arranged(
            said(counts@),
            sort_order(cause_ranks(said(counts@))),
        ));
    }
    sorted
}

// ---------------------------------------------------------------------
// Where forwards failed
// ---------------------------------------------------------------------

/// The reason with which a forward fails for want of liquidity.
pub open spec fn temporary_failure() -> Seq<char> {
    "WIRE_TEMPORARY_CHANNEL_FAILURE"@
}

/// Selects the forwards that failed with a temporary channel failure.
pub struct TemporaryFailure;

impl Pick<Forward> for TemporaryFailure {
    open spec fn picks(&self, item: &Forward) -> bool {
        item.failreason matches Some(reason) && reason@ == temporary_failure()
    }

    fn accepts(&self, item: &Forward) -> (r: bool) {
        match &item.failreason {
            Some(reason) => str_eq(reason.as_str(), "WIRE_TEMPORARY_CHANNEL_FAILURE"),
            None => false,
        }
    }
}

/// How many forwards failed on a channel in the last day, week and
/// month.
#[derive(Debug, Clone, Copy, PartialEq, Eq, Structural)]
pub struct FailureCounts {
    pub day: usize,
    pub week: usize,
    pub month: usize,
}

/// A channel with the forwards that failed on their way out on it.
#[derive(Debug, Clone)]
pub struct ChannelFailures {
    pub channel_id: String,
    pub counts: FailureCounts,
}

/// The channels on which forwards received within the last 30 days
/// went out and ended in a given way.
pub struct FailedOut {
    pub now: i64,
    pub kind: ForwardStatus,
}

impl Project<Forward, String> for FailedOut {
    open spec fn image(&self, item: &Forward) -> Option<String> {
        if item.kind() == self.kind && Window::Days(30).admits(self.now, item.received_time) {
            item.out_channel
        } else {
            None
        }
    }

    fn apply(&self, item: &Forward) -> (r: Option<String>) {
        if item.status_kind() == self.kind && Window::Days(30).holds(self.now, item.received_time) {
            copy_text(&item.out_channel)
        } else {
            None
        }
    }
}

/// How many of the forwards that went out on the channel `scid` and
/// ended as `kind` were received within `window`.
pub open spec fn failed_within(
    forwards: Seq<Forward>,
    now: i64,
    scid: Seq<char>,
    kind: ForwardStatus,
    window: Window,
) -> nat {
    forwards_within(
        forwards,
        ForwardScope { now, channel: Some(scid), side: Side::Outgoing, window, kind: Some(kind) },
    ).len()
}

/// The counts of the channel `scid` for the last 24 hours, 7 days and
/// 30 days.
pub open spec fn failure_counts(
    forwards: Seq<Forward>,
    now: i64,
    scid: Seq<char>,
    kind: ForwardStatus,
) -> FailureCounts {
    FailureCounts {
        day: failed_within(forwards, now, scid, kind, Window::Hours(24)) as usize,
        week: failed_within(forwards, now, scid, kind, Window::Days(7)) as usize,
        month: failed_within(forwards, now, scid, kind, Window::Days(30)) as usize,
    }
}

/// How many of the forwards that ended as `kind` went out on `scid`
/// in `window`.
fn count_failed(
    forwards: &Vec<Forward>,
    now: i64,
    scid: &str,
    kind: ForwardStatus,
    window: Window,
) -> (r: usize)
    ensures
        r == failed_within(forwards@, now, scid@, kind, window),
{
    forwards_count(
        forwards,
        &ForwardSelection::new(now, Some(scid), Side::Outgoing, window, Some(kind)),
    )
}

/// For each channel on which a forward of the last 30 days went out
/// and ended as `kind`, how many did so in the last day, week and
/// month; the channels in the order in which they first occur.
pub fn failures_by_out_channel(forwards: &Vec<Forward>, now: i64, kind: ForwardStatus) -> (r: Vec<
    ChannelFailures,
>)
    ensures
        r@.len() == distinct(views(projected(forwards@, FailedOut { now, kind }))).len(),
        forall|k: int|
            0 <= k < r@.len() ==> (#[trigger] r@[k]).channel_id@ == distinct(
                views(projected(forwards@, FailedOut { now, kind })),
            )[k] && r@[k].counts == failure_counts(forwards@, now, r@[k].channel_id@, kind),
{
    let all = project_all(forwards, &FailedOut { now, kind });
    let ids = distinct_strings(&all);
    let mut out: Vec<ChannelFailures> = Vec::new();
    let mut i: usize = 0;
    while i < ids.len()
        invariant
            i <= ids.len(),
            views(ids@) == distinct(views(projected(forwards@, FailedOut { now, kind }))),
            out@.len() == i,
            forall|k: int|
                0 <= k < i ==> (#[trigger] out@[k]).channel_id@ == views(ids@)[k] && out@[k].counts
                    == failure_counts(forwards@, now, out@[k].channel_id@, kind),
        decreases ids.len() - i,
    {
        let scid = ids[i].as_str();
        let counts = FailureCounts {
            day: count_failed(forwards, now, scid, kind, Window::Hours(24)),
            week: count_failed(forwards, now, scid, kind, Window::Days(7)),
            month: count_failed(forwards, now, scid, kind, Window::Days(30)),
        };
        out.push(ChannelFailures { channel_id: ids[i].clone(), counts });
        i += 1;
    }
    out
}

impl Store {
    /// The channels on which forwards failed further along the route,
    /// with their counts.
    pub fn failed_forwards_by_out_channel(&self) -> (r: Vec<ChannelFailures>)
        ensures
            r@.len() == distinct(
                views(
                    projected(
                        self.forwards.forwards@,
                        FailedOut { now: self.now, kind: ForwardStatus::Failed },
                    ),
                ),
            ).len(),
            forall|k: int|
                0 <= k < r@.len() ==> (#[trigger] r@[k]).channel_id@ == distinct(
                    views(
                        projected(
                            self.forwards.forwards@,
                            FailedOut { now: self.now, kind: ForwardStatus::Failed },
                        ),
                    ),
                )[k] && r@[k].counts == failure_counts(
                    self.forwards.forwards@,
                    self.now,
                    r@[k].channel_id@,
                    ForwardStatus::Failed,
                ),
    {
        failures_by_out_channel(&self.forwards.forwards, self.now, ForwardStatus::Failed)
    }

    /// The forwards that failed with a temporary channel failure.
    pub open spec fn temporary_failures(&self) -> Seq<Forward> {
        picked(self.forwards.forwards@, TemporaryFailure)
    }

    /// The channels on which forwards failed at the local node with a
    /// temporary channel failure, with their counts.
    pub fn local_failed_temp_channel_failure_by_out_channel(&self) -> (r: Vec<ChannelFailures>)
        ensures
            r@.len() == distinct(
                views(
                    projected(
                        self.temporary_failures(),
                        FailedOut { now: self.now, kind: ForwardStatus::LocalFailed },
                    ),
                ),
            ).len(),
            forall|k: int|
                0 <= k < r@.len() ==> (#[trigger] r@[k]).channel_id@ == distinct(
                    views(
                        projected(
                            self.temporary_failures(),
                            FailedOut { now: self.now, kind: ForwardStatus::LocalFailed },
                        ),
                    ),
                )[k] && r@[k].counts == failure_counts(
                    self.temporary_failures(),
                    self.now,
                    r@[k].channel_id@,
                    ForwardStatus::LocalFailed,
                ),
    {
        let temporary = select(&self.forwards.forwards, &TemporaryFailure);
        failures_by_out_channel(&temporary, self.now, ForwardStatus::LocalFailed)
    }
}

} // verus!
