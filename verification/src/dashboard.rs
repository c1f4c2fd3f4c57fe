//! The overview of the node: what flowed through each own channel,
//! which way each channel leans, what rebalancing it asks for, and the
//! figures of the front page.

use crate::cmd::{scid_block, Fund, Node, SettledForward, Side};
use crate::common::{
    calc_slingjobs, classified, classify, cut_days, cut_days_text, is_sink, job_for, sink_ratio,
    ChannelMeta, Rebalance, SlingJob,
};
use crate::order::{ranks, sort_order, sort_order_of, Rank, SortKey};
use crate::ratio::Ratio;
use crate::seqs::{
    capped, count_picked, first_position, lemma_filter_same, lemma_picked_step, picked, picker,
    Duplicate, Pick,
};
use crate::store::{fee_sum, lemma_selection_scope, within, FeeSat, Scope, Selection, Store};
use crate::text::{owned, str_eq, views};
use crate::time::{days_since, elapsed_days_since, Window};
use vstd::prelude::*;

verus! {

/// The length of the month that the per-channel counters look back on,
/// in seconds: 30 days.
pub const LAST_MONTH_SECONDS: i64 = 2_592_000;

/// The window of the per-channel counters of the last month.
pub open spec fn last_month() -> Window {
    Window::Seconds(LAST_MONTH_SECONDS)
}

// ---------------------------------------------------------------------
// The latest resolution
// ---------------------------------------------------------------------

/// The latest time at which one of the forwards resolved, if there is
/// any forward.
pub open spec fn latest(s: Seq<SettledForward>) -> Option<i64>
    decreases s.len(),
{
    if s.len() == 0 {
        None
    } else {
        match latest(s.drop_last()) {
            None => Some(s.last().resolved_time),
            Some(t) => if t >= s.last().resolved_time {
                Some(t)
            } else {
                Some(s.last().resolved_time)
            },
        }
    }
}

/// The latest resolution is the time of one of the forwards, and none
/// resolved later; there is none exactly when there is no forward.
pub proof fn lemma_latest(s: Seq<SettledForward>)
    ensures
        latest(s) is None <==> s.len() == 0,
        latest(s) matches Some(t) ==> (exists|i: int|
            0 <= i < s.len() && (#[trigger] s[i]).resolved_time == t) && (forall|j: int|
            0 <= j < s.len() ==> (#[trigger] s[j]).resolved_time <= t),
    decreases s.len(),
{
    if s.len() > 0 {
        let rest = s.drop_last();
        lemma_latest(rest);
        let t = latest(s)->0;
        if t == s.last().resolved_time {
            assert(s[s.len() - 1].resolved_time == t);
        } else {
            let i = choose|i: int| 0 <= i < rest.len() && (#[trigger] rest[i]).resolved_time == t;
            assert(s[i].resolved_time == t);
        }
        assert forall|j: int| 0 <= j < s.len() implies (#[trigger] s[j]).resolved_time <= t by {
            if j < s.len() - 1 {
                assert(rest[j].resolved_time <= t);
            }
        }
    }
}

/// The latest time at which one of the forwards that `sel` selects
/// resolved.
pub fn latest_selected(settled: &Vec<SettledForward>, sel: &Selection) -> (r: Option<i64>)
    ensures
        r == latest(within(settled@, sel.scope())),
{
    let mut best: Option<i64> = None;
    let mut i: usize = 0;
    proof {
        reveal(Seq::filter);
        assert(settled@.take(0) =~= Seq::<SettledForward>::empty());
    }
    while i < settled.len()
        invariant
            i <= settled.len(),
            best == latest(picked(settled@.take(i as int), *sel)),
        decreases settled.len() - i,
    {
        proof {
            lemma_picked_step(settled@, *sel, i as int);
            let before = picked(settled@.take(i as int), *sel);
            assert(before.push(settled@[i as int]).drop_last() =~= before);
        }
        if sel.accepts(&settled[i]) {
            let t = settled[i].resolved_time;
            best = match best {
                None => Some(t),
                Some(b) => if b >= t {
                    Some(b)
                } else {
                    Some(t)
                },
            };
        }
        i += 1;
    }
    proof {
        assert(settled@.take(i as int) =~= settled@);
        lemma_selection_scope(settled@, *sel);
    }
    best
}

// ---------------------------------------------------------------------
// What flowed through a channel
// ---------------------------------------------------------------------

/// What the settled forwards say about one channel.
#[derive(Debug, Clone, Copy, PartialEq, Eq, Structural)]
pub struct ChannelFlow {
    /// How many forwards came in on the channel.
    pub forwards_in: usize,
    /// How many forwards went out on the channel.
    pub forwards_out: usize,
    /// How many came in during the last month.
    pub forwards_in_last_month: usize,
    /// How many went out during the last month.
    pub forwards_out_last_month: usize,
    /// The fees of the forwards that went out on the channel, in sat.
    pub fee_sat_out: u64,
    /// The fees of the forwards that came in on the channel, in sat.
    /// They were earned on the channels those forwards left by, and
    /// count against this one.
    pub fee_sat_in: u64,
    /// When a forward that came in on the channel last resolved.
    pub last_resolved_in: Option<i64>,
    /// When a forward that went out on the channel last resolved.
    pub last_resolved_out: Option<i64>,
}

/// What the settled forwards `s` say about the channel `scid`, seen
/// from `now`. Sums are held to what 64 bits can hold.
pub open spec fn flow_of(s: Seq<SettledForward>, now: i64, scid: Seq<char>) -> ChannelFlow {
    let came = within(s, Scope::on(now, scid, Side::Incoming, Window::Ever));
    let went = within(s, Scope::on(now, scid, Side::Outgoing, Window::Ever));
    ChannelFlow {
        forwards_in: came.len() as usize,
        forwards_out: went.len() as usize,
        forwards_in_last_month: within(
            s,
            Scope::on(now, scid, Side::Incoming, last_month()),
        ).len() as usize,
        forwards_out_last_month: within(
            s,
            Scope::on(now, scid, Side::Outgoing, last_month()),
        ).len() as usize,
        fee_sat_out: capped(fee_sum(went)),
        fee_sat_in: capped(fee_sum(came)),
        last_resolved_in: latest(came),
        last_resolved_out: latest(went),
    }
}

/// How many of the forwards `sel` selects.
fn count_selected(settled: &Vec<SettledForward>, sel: &Selection) -> (r: usize)
    ensures
        r == within(settled@, sel.scope()).len(),
{
    proof {
        lemma_selection_scope(settled@, *sel);
    }
    count_picked(settled, sel)
}

/// The fees of the forwards that `sel` selects, in sat.
fn fees_selected(settled: &Vec<SettledForward>, sel: &Selection) -> (r: u64)
    ensures
        r == capped(fee_sum(within(settled@, sel.scope()))),
{
    proof {
        lemma_selection_scope(settled@, *sel);
    }
    crate::seqs::total_picked(settled, sel, &FeeSat)
}

/// What the settled forwards say about the channel `scid`, seen from
/// `now`.
pub fn channel_flow(settled: &Vec<SettledForward>, now: i64, scid: &str) -> (r: ChannelFlow)
    ensures
        r == flow_of(settled@, now, scid@),
{
    let came = Selection::on(now, scid, Side::Incoming, Window::Ever);
    let went = Selection::on(now, scid, Side::Outgoing, Window::Ever);
    let came_lately = Selection::on(now, scid, Side::Incoming, Window::Seconds(LAST_MONTH_SECONDS));
    let went_lately = Selection::on(now, scid, Side::Outgoing, Window::Seconds(LAST_MONTH_SECONDS));
    ChannelFlow {
        forwards_in: count_selected(settled, &came),
        forwards_out: count_selected(settled, &went),
        forwards_in_last_month: count_selected(settled, &came_lately),
        forwards_out_last_month: count_selected(settled, &went_lately),
        fee_sat_out: fees_selected(settled, &went),
        fee_sat_in: fees_selected(settled, &came),
        last_resolved_in: latest_selected(settled, &came),
        last_resolved_out: latest_selected(settled, &went),
    }
}

/// The blocks that a channel born in block `born` has lived at block
/// `current`: at least one.
pub open spec fn blocks_alive(current: u64, born: u64) -> int {
    if current > born {
        current - born
    } else {
        1
    }
}

/// What a channel gained per block of its life, in msat: the fees of
/// the forwards that went out on it and of those that came in on it,
/// over the blocks that it has lived.
pub open spec fn gain_of(flow: ChannelFlow, current: u64, born: u64) -> nat {
    (((flow.fee_sat_out + flow.fee_sat_in) * 1000) / blocks_alive(current, born)) as nat
}

impl ChannelFlow {
    /// The share of outgoing forwards among the forwards of the
    /// channel.
    pub fn is_sink(&self) -> (r: Ratio)
        ensures
            r == sink_ratio(self.forwards_in as nat, self.forwards_out as nat),
            r.is_fraction(),
    {
        is_sink(self.forwards_in, self.forwards_out)
    }

    /// The share of outgoing forwards among the forwards of the last
    /// month.
    pub fn is_sink_last_month(&self) -> (r: Ratio)
        ensures
            r == sink_ratio(
                self.forwards_in_last_month as nat,
                self.forwards_out_last_month as nat,
            ),
            r.is_fraction(),
    {
        is_sink(self.forwards_in_last_month, self.forwards_out_last_month)
    }

    /// What the channel gained per block of its life, in msat, held to
    /// what 64 bits can hold.
    pub fn gain_per_block(&self, current_block: u64, block_born: u64) -> (r: u64)
        ensures
            r == capped(gain_of(*self, current_block, block_born)),
    {
        let blocks: u64 = if current_block > block_born {
            current_block - block_born
        } else {
            1
        };
        let fees: u128 = (self.fee_sat_out as u128 + self.fee_sat_in as u128) * 1000;
        let gain: u128 = fees / (blocks as u128);
        if gain > u64::MAX as u128 {
            u64::MAX
        } else {
            gain as u64
        }
    }
}

// ---------------------------------------------------------------------
// Channels and what they ask for
// ---------------------------------------------------------------------

/// The block in which an own channel was funded; 0 where its short
/// channel id names none.
pub open spec fn born_block(fund: Fund) -> u64 {
    match fund.short_channel_id {
        Some(s) => match scid_block(s@) {
            Some(b) => b,
            None => 0,
        },
        None => 0,
    }
}

/// Whether the node has the id `id`.
pub open spec fn is_node(n: &Node, id: Seq<char>) -> bool {
    n.nodeid@ == id
}

/// Picks the nodes with a given id.
pub struct NodeWithId {
    pub id: String,
}

impl Pick<Node> for NodeWithId {
    open spec fn picks(&self, item: &Node) -> bool {
        is_node(item, self.id@)
    }

    fn accepts(&self, item: &Node) -> (r: bool) {
        str_eq(item.nodeid.as_str(), self.id.as_str())
    }
}

/// The short channel ids of the channels that ask for `what`, in the
/// order of the channels.
pub open spec fn asking(metas: Seq<ChannelMeta>, what: Rebalance) -> Seq<Seq<char>> {
    metas.filter(|m: ChannelMeta| m.rebalance == what).map_values(|m: ChannelMeta| m.fund.scid())
}

/// The short channel ids of the channels that ask for `what`.
pub fn scids_asking(metas: &Vec<ChannelMeta>, what: Rebalance) -> (r: Vec<String>)
    ensures
        views(r@) == asking(metas@, what),
{
    let mut out: Vec<String> = Vec::new();
    let mut i: usize = 0;
    proof {
        reveal(Seq::filter);
        assert(metas@.take(0) =~= Seq::<ChannelMeta>::empty());
        assert(views(out@) =~= asking(metas@.take(0), what));
    }
    while i < metas.len()
        invariant
            i <= metas.len(),
            views(out@) == asking(metas@.take(i as int), what),
        decreases metas.len() - i,
    {
        let ghost before = out@;
        let same = match (metas[i].rebalance, what) {
            (Rebalance::PullIn, Rebalance::PullIn) => true,
            (Rebalance::PushOut, Rebalance::PushOut) => true,
            (Rebalance::Nothing, Rebalance::Nothing) => true,
            _ => false,
        };
        if same {
            out.push(metas[i].fund.short_channel_id());
        }
        proof {
            reveal(Seq::filter);
            let s = metas@.take(i + 1);
            assert(s.drop_last() =~= metas@.take(i as int));
            assert(s.last() == metas@[i as int]);
            let chosen = |m: ChannelMeta| m.rebalance == what;
            let named = |m: ChannelMeta| m.fund.scid();
            let kept = metas@.take(i as int).filter(chosen);
            if same {
                assert(s.filter(chosen) == kept.push(s.last()));
                assert(kept.push(s.last()).map_values(named) =~= kept.map_values(named).push(
                    s.last().fund.scid(),
                ));
                assert(views(out@) =~= views(before).push(s.last().fund.scid()));
            } else {
                assert(s.filter(chosen) == kept);
            }
            assert(views(out@) =~= asking(s, what));
        }
        i += 1;
    }
    proof {
        assert(metas@.take(i as int) =~= metas@);
    }
    out
}

/// One line of the overview of the own channels.
#[derive(Debug, Clone)]
pub struct ChannelRow {
    pub scid: String,
    /// How full of our funds the channel is, in whole percent.
    pub perc: u64,
    pub flow: ChannelFlow,
    /// What the channel gained per block of its life, in msat.
    pub gain: u64,
    /// The days since the peer last announced itself, as shown.
    pub peer_seen: String,
    /// The days since the peer last updated its side of the channel,
    /// as shown.
    pub edge_updated: String,
    /// The rebalancing job that the channel asks for, if any.
    pub job: Option<SlingJob>,
}

/// The ranks of the lines by how full the channels are.
pub open spec fn fill_ranks(rows: Seq<ChannelRow>) -> Seq<Rank> {
    Seq::new(rows.len(), |i: int| Rank { number: rows[i].perc as int, text: Seq::empty() })
}

/// The figures of the overview.
#[derive(Debug, Clone)]
pub struct DashboardReport {
    /// The usable own channels, in the order of the funds document.
    pub channels: Vec<ChannelMeta>,
    /// The channels that ask to pull liquidity in.
    pub pull_in: Vec<String>,
    /// The channels that ask to push liquidity out.
    pub push_out: Vec<String>,
    /// One line per channel, in the order of `channels`.
    pub rows: Vec<ChannelRow>,
    /// The order in which the lines are shown: emptiest channel first.
    pub order: Vec<usize>,
    /// How many forwards the history holds.
    pub forwards: usize,
    /// How many of them settled.
    pub settled: usize,
    /// How many settled less than 365 days ago.
    pub settled_last_year: usize,
    /// How many settled less than 30 days ago.
    pub settled_last_month: usize,
    /// How many settled less than 7 days ago.
    pub settled_last_week: usize,
    /// Whether every usable own channel has an edge of ours without a
    /// base fee.
    pub zero_base_fees: bool,
}

impl Store {
    /// What the settled forwards say about the channel `scid`.
    pub open spec fn flow(&self, scid: Seq<char>) -> ChannelFlow {
        flow_of(self.settled(), self.now, scid)
    }

    /// Whether `m` is what the store derives for the own channel
    /// `fund`.
    pub open spec fn meta_describes(&self, fund: Fund, m: ChannelMeta) -> bool {
        let flow = self.flow(fund.scid());
        &&& m.fund == fund
        &&& m.is_sink == sink_ratio(flow.forwards_in as nat, flow.forwards_out as nat)
        &&& m.is_sink_last_month == sink_ratio(
            flow.forwards_in_last_month as nat,
            flow.forwards_out_last_month as nat,
        )
        &&& m.rebalance == classified(fund, m.is_sink_last_month)
        &&& m.alias_or_id@ == self.display_name(fund.peer_id@)
        &&& m.block_born == born_block(fund)
    }

    /// When the node `peer` last announced itself: the time of the
    /// first entry of the nodes document with its id, 0 where there is
    /// none or it holds no time.
    pub open spec fn seen_at(&self, peer: Seq<char>) -> u64 {
        let found = self.nodes.nodes@.filter(|n: Node| is_node(&n, peer));
        if found.len() == 0 {
            0
        } else {
            match found.first().last_timestamp {
                Some(t) => t,
                None => 0,
            }
        }
    }

    /// When the edge of the channel `scid` that starts at `peer` was
    /// last updated; 0 where the graph holds no such edge.
    pub open spec fn updated_at(&self, scid: Seq<char>, peer: Seq<char>) -> u64 {
        match self.edge(scid, peer) {
            Some(c) => c.last_update,
            None => 0,
        }
    }

    /// Whether `row` is the line of the channel `m`, given the channels
    /// that ask to pull in and those that ask to push out.
    pub open spec fn row_describes(
        &self,
        m: ChannelMeta,
        pull_in: Seq<String>,
        push_out: Seq<String>,
        row: ChannelRow,
    ) -> bool {
        let scid = m.fund.scid();
        let peer = m.fund.peer_id@;
        &&& row.scid@ == scid
        &&& row.perc == (m.fund.balance_num() * 100) / m.fund.balance_den()
        &&& row.flow == self.flow(scid)
        &&& row.gain == capped(gain_of(self.flow(scid), self.info.blockheight, m.block_born))
        &&& row.peer_seen@ == cut_days_text(
            elapsed_days_since(self.now, self.seen_at(peer)) as i64,
        )
        &&& row.edge_updated@ == cut_days_text(
            elapsed_days_since(self.now, self.updated_at(scid, peer)) as i64,
        )
        &&& job_for(scid, m.rebalance, pull_in, push_out, row.job)
    }

    /// Whether the own channel has an edge of ours without a base fee.
    pub open spec fn has_zero_base_fee(&self, fund: Fund) -> bool {
        self.edge(fund.scid(), self.info.id@) matches Some(c) && c.base_fee_millisatoshi == 0
    }

    /// Whether every usable own channel has an edge of ours without a
    /// base fee.
    pub open spec fn zero_base_fees(&self) -> bool {
        forall|i: int|
            0 <= i < self.normal().len() ==> self.has_zero_base_fee(#[trigger] self.normal()[i])
    }

    /// What the settled forwards say about a channel.
    pub fn channel_flow(&self, short_channel_id: &str) -> (r: ChannelFlow)
        ensures
            r == self.flow(short_channel_id@),
    {
        let settled = self.settled_forwards();
        channel_flow(&settled, self.now, short_channel_id)
    }

    /// What the store derives for the own channel `fund`, given the
    /// settled forwards.
    fn meta_from(&self, settled: &Vec<SettledForward>, fund: &Fund) -> (r: ChannelMeta)
        requires
            settled@ == self.settled(),
        ensures
            self.meta_describes(*fund, r),
            r.wf(),
    {
        let scid = fund.short_channel_id();
        let flow = channel_flow(settled, self.now, scid.as_str());
        let sink = flow.is_sink();
        let sink_last_month = flow.is_sink_last_month();
        let rebalance = classify(fund, &sink_last_month);
        let block_born = match fund.block_born() {
            Some(b) => b,
            None => 0,
        };
        ChannelMeta {
            fund: fund.duplicate(),
            is_sink: sink,
            is_sink_last_month: sink_last_month,
            rebalance,
            alias_or_id: self.get_node_alias(fund.peer_id.as_str()),
            block_born,
        }
    }

    /// What the store derives for the own channel `fund`: which way it
    /// leans, what rebalancing it asks for, and how its peer is shown.
    pub fn channel_meta(&self, fund: &Fund) -> (r: ChannelMeta)
        ensures
            self.meta_describes(*fund, r),
            r.wf(),
    {
        let settled = self.settled_forwards();
        self.meta_from(&settled, fund)
    }

    /// When the node `peer` last announced itself.
    pub fn peer_seen_at(&self, peer: &str) -> (r: u64)
        ensures
            r == self.seen_at(peer@),
    {
        let sel = NodeWithId { id: owned(peer) };
        proof {
            let id = sel.id@;
            lemma_filter_same(self.nodes.nodes@, picker(sel), |n: Node| is_node(&n, id));
        }
        match first_position(&self.nodes.nodes, &sel) {
            Some(i) => match self.nodes.nodes[i].last_timestamp {
                Some(t) => t,
                None => 0,
            },
            None => 0,
        }
    }

    /// When the edge of a channel that starts at `peer` was last
    /// updated.
    pub fn edge_updated_at(&self, short_channel_id: &str, peer: &str) -> (r: u64)
        ensures
            r == self.updated_at(short_channel_id@, peer@),
    {
        match self.get_channel(short_channel_id, peer) {
            Some(c) => c.last_update,
            None => 0,
        }
    }

    /// The line of the channel `m`, given the settled forwards and the
    /// channels that ask to pull in and to push out.
    fn row_from(
        &self,
        settled: &Vec<SettledForward>,
        m: &ChannelMeta,
        pull_in: &Vec<String>,
        push_out: &Vec<String>,
    ) -> (r: ChannelRow)
        requires
            settled@ == self.settled(),
        ensures
            self.row_describes(*m, pull_in@, push_out@, r),
    {
        let scid = m.fund.short_channel_id();
        let flow = channel_flow(settled, self.now, scid.as_str());
        let gain = flow.gain_per_block(self.info.blockheight, m.block_born);
        let seen = self.peer_seen_at(m.fund.peer_id.as_str());
        let updated = self.edge_updated_at(scid.as_str(), m.fund.peer_id.as_str());
        let job = calc_slingjobs(scid.as_str(), m, pull_in, push_out);
        ChannelRow {
            perc: m.fund.perc(),
            flow,
            gain,
            peer_seen: cut_days(days_since(self.now, seen)),
            edge_updated: cut_days(days_since(self.now, updated)),
            job,
            scid,
        }
    }

    /// Whether every usable own channel has an edge of ours without a
    /// base fee.
    pub fn all_zero_base_fees(&self) -> (r: bool)
        ensures
            r == self.zero_base_fees(),
    {
        let normal = self.normal_channels();
        let mut i: usize = 0;
        while i < normal.len()
            invariant
                i <= normal.len(),
                normal@ == self.normal(),
                forall|k: int| 0 <= k < i ==> self.has_zero_base_fee(#[trigger] normal@[k]),
            decreases normal.len() - i,
        {
            let scid = normal[i].short_channel_id();
            let zero = match self.get_channel(scid.as_str(), self.info.id.as_str()) {
                Some(c) => c.base_fee_millisatoshi == 0,
                None => false,
            };
            if !zero {
                proof {
                    assert(!self.has_zero_base_fee(self.normal()[i as int]));
                }
                return false;
            }
            i += 1;
        }
        true
    }
}

/// The overview of the node: for each usable own channel what the
/// store derives for it and its line, the channels that ask for
/// rebalancing, the order of the lines, and the counts of the front
/// page.
pub fn run_dashboard(store: &Store) -> (r: DashboardReport)
    ensures
        r.channels@.len() == store.normal().len(),
        forall|i: int|
            0 <= i < r.channels@.len() ==> store.meta_describes(
                store.normal()[i],
                #[trigger] r.channels@[i],
            ),
        views(r.pull_in@) == asking(r.channels@, Rebalance::PullIn),
        views(r.push_out@) == asking(r.channels@, Rebalance::PushOut),
        r.rows@.len() == r.channels@.len(),
        forall|i: int|
            0 <= i < r.rows@.len() ==> store.row_describes(
                r.channels@[i],
                r.pull_in@,
                r.push_out@,
                #[trigger] r.rows@[i],
            ),
        r.order@ == sort_order(fill_ranks(r.rows@)),
        r.forwards == store.forwards.forwards@.len(),
        r.settled == store.settled().len(),
        r.settled_last_year == store.settled_within(
            Scope::during(store.now, Window::Days(364)),
        ).len(),
        r.settled_last_month == store.settled_within(
            Scope::during(store.now, Window::Days(29)),
        ).len(),
        r.settled_last_week == store.settled_within(
            Scope::during(store.now, Window::Days(6)),
        ).len(),
        r.zero_base_fees == store.zero_base_fees(),
{
    let normal = store.normal_channels();
    let settled = store.settled_forwards();
    let mut channels: Vec<ChannelMeta> = Vec::new();
    let mut i: usize = 0;
    while i < normal.len()
        invariant
            i <= normal.len(),
            normal@ == store.normal(),
            settled@ == store.settled(),
            channels@.len() == i,
            forall|k: int|
                0 <= k < i ==> store.meta_describes(normal@[k], #[trigger] channels@[k]),
        decreases normal.len() - i,
    {
        let meta = store.meta_from(&settled, &normal[i]);
        channels.push(meta);
        i += 1;
    }
    let pull_in = scids_asking(&channels, Rebalance::PullIn);
    let push_out = scids_asking(&channels, Rebalance::PushOut);
    let mut rows: Vec<ChannelRow> = Vec::new();
    let mut keys: Vec<SortKey> = Vec::new();
    let mut n: usize = 0;
    while n < channels.len()
        invariant
            n <= channels.len(),
            settled@ == store.settled(),
            rows@.len() == n,
            keys@.len() == n,
            forall|k: int|
                0 <= k < n ==> store.row_describes(
                    channels@[k],
                    pull_in@,
                    push_out@,
                    #[trigger] rows@[k],
                ),
            forall|k: int|
                0 <= k < n ==> (#[trigger] keys@[k]).rank() == (Rank {
                    number: rows@[k].perc as int,
                    text: Seq::empty(),
                }),
        decreases channels.len() - n,
    {
        let row = store.row_from(&settled, &channels[n], &pull_in, &push_out);
        keys.push(SortKey::of_number(row.perc as i128));
        rows.push(row);
        n += 1;
    }
    proof {
        assert(ranks(keys@) =~= fill_ranks(rows@));
    }
    let order = sort_order_of(&keys);
    DashboardReport {
        forwards: store.forwards_len(),
        settled: settled.len(),
        settled_last_year: count_selected(&settled, &Selection::during(store.now, Window::Days(364))),
        settled_last_month: count_selected(&settled, &Selection::during(store.now, Window::Days(29))),
        settled_last_week: count_selected(&settled, &Selection::during(store.now, Window::Days(6))),
        zero_base_fees: store.all_zero_base_fees(),
        channels,
        pull_in,
        push_out,
        rows,
        order,
    }
}

} // verus!
