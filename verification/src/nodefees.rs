//! Fee aggregates over the gossip graph: per node, the number of its
//! outgoing edges with the sum and the variety of their fee rates; per
//! peer, the capacity of its edges by fee band.

use crate::cmd::Channel;
use crate::common::ChannelFee;
use crate::graph::{edge_matches, edges_at, lemma_edge_selection, End, EdgeSelection};
use crate::metrics::FeePpm;
use crate::seqs::{
    capped, count_picked, distinct, lemma_filter_same, picked, picker, positions_picked,
    project_all, projected, total, total_picked, Measure, Pick, Project,
};
use crate::store::Store;
use crate::text::{decimal, decimal_u64, distinct_strings, owned, str_eq, views};
use vstd::prelude::*;
use vstd::string::*;

verus! {

/// The fee aggregate of a node.
#[derive(Debug, Clone)]
pub struct NodeFee {
    pub node: String,
    pub fee: ChannelFee,
}

/// The fee rates of the edges, in ppm.
pub open spec fn edge_rates(edges: Seq<Channel>) -> Seq<u64> {
    Seq::new(edges.len(), |i: int| edges[i].fee_per_millionth)
}

/// Whether `fee` is the fee aggregate of the edges `out`: their
/// number, the sum of their rates, and each of their rates once. The
/// number and the sum are held to what 64 bits can hold.
pub open spec fn aggregates(fee: ChannelFee, out: Seq<Channel>) -> bool {
    &&& fee.count == capped(out.len())
    &&& fee.fee_sum == capped(total(out, FeePpm))
    &&& fee.fee_rates@ == distinct(edge_rates(out))
}

/// Whether one of `items` is `x`.
pub fn holds_rate(items: &Vec<u64>, x: u64) -> (r: bool)
    ensures
        r == items@.contains(x),
{
    let mut i: usize = 0;
    while i < items.len()
        invariant
            i <= items.len(),
            forall|j: int| 0 <= j < i ==> items@[j] != x,
        decreases items.len() - i,
    {
        if items[i] == x {
            return true;
        }
        i += 1;
    }
    false
}

/// The source of every edge.
pub struct Sources;

impl Project<Channel, String> for Sources {
    open spec fn image(&self, item: &Channel) -> Option<String> {
        Some(item.source)
    }

    fn apply(&self, item: &Channel) -> (r: Option<String>) {
        Some(item.source.clone())
    }
}

/// The fee aggregate of the edges that `sel` selects.
pub fn aggregate(edges: &Vec<Channel>, sel: &EdgeSelection) -> (r: ChannelFee)
    ensures
        aggregates(r, edges_at(edges@, sel.node@, sel.end, sel.scid())),
{
    proof {
        lemma_edge_selection(edges@, *sel);
    }
    let ghost out = edges_at(edges@, sel.node@, sel.end, sel.scid());
    let count = count_picked(edges, sel);
    let fee_sum = total_picked(edges, sel, &FeePpm);
    let positions = positions_picked(edges, sel);
    let mut fee_rates: Vec<u64> = Vec::new();
    let mut i: usize = 0;
    proof {
        assert(edge_rates(out).take(0) =~= Seq::<u64>::empty());
    }
    while i < positions.len()
        invariant
            i <= positions.len(),
            positions@.len() == out.len(),
            forall|k: int| 0 <= k < positions@.len() ==> #[trigger] positions@[k] < edges@.len(),
            forall|k: int|
                0 <= k < positions@.len() ==> edges@[#[trigger] positions@[k] as int] == out[k],
            fee_rates@ == distinct(edge_rates(out).take(i as int)),
        decreases positions.len() - i,
    {
        let rate = edges[positions[i]].fee_per_millionth;
        proof {
            let next = edge_rates(out).take(i + 1);
            assert(next.drop_last() =~= edge_rates(out).take(i as int));
            assert(next.last() == rate);
        }
        if !holds_rate(&fee_rates, rate) {
            fee_rates.push(rate);
        }
        i += 1;
    }
    proof {
        assert(edge_rates(out).take(i as int) =~= edge_rates(out));
    }
    ChannelFee { count: count as u64, fee_sum, fee_rates }
}

// ---------------------------------------------------------------------
// Fee bands
// ---------------------------------------------------------------------

/// The fee bands of the distribution, in ppm, both ends included.
pub open spec fn ppm_ranges() -> Seq<(u64, u64)> {
    seq![
        (0u64, 1u64),
        (2u64, 3u64),
        (4u64, 5u64),
        (6u64, 7u64),
        (8u64, 10u64),
        (11u64, 30u64),
        (31u64, 50u64),
        (51u64, 70u64),
        (71u64, 100u64),
        (101u64, 300u64),
        (301u64, 500u64),
        (501u64, 700u64),
        (701u64, 1000u64),
        (1001u64, 3000u64),
        (3001u64, 5000u64),
    ]
}

/// The label of a fee band.
pub open spec fn range_label(min: u64, max: u64) -> Seq<char> {
    decimal(min as nat) + "-"@ + decimal(max as nat) + " ppm"@
}

/// A fee band with its label.
#[derive(Debug, Clone)]
pub struct PpmRange {
    pub min: u64,
    pub max: u64,
    pub label: String,
}

/// The fee band from `min` to `max`.
pub fn ppm_range(min: u64, max: u64) -> (r: PpmRange)
    ensures
        r.min == min,
        r.max == max,
        r.label@ == range_label(min, max),
{
    let mut label = decimal_u64(min);
    label.append("-");
    label.append(decimal_u64(max).as_str());
    label.append(" ppm");
    PpmRange { min, max, label }
}

/// The fee bands of the distribution.
pub fn generate_ppm_ranges() -> (r: Vec<PpmRange>)
    ensures
        r@.len() == 15,
        forall|i: int|
            0 <= i < 15 ==> (#[trigger] r@[i]).min == ppm_ranges()[i].0 && r@[i].max
                == ppm_ranges()[i].1 && r@[i].label@ == range_label(r@[i].min, r@[i].max),
{
    let mut out: Vec<PpmRange> = Vec::new();
    out.push(ppm_range(0, 1));
    out.push(ppm_range(2, 3));
    out.push(ppm_range(4, 5));
    out.push(ppm_range(6, 7));
    out.push(ppm_range(8, 10));
    out.push(ppm_range(11, 30));
    out.push(ppm_range(31, 50));
    out.push(ppm_range(51, 70));
    out.push(ppm_range(71, 100));
    out.push(ppm_range(101, 300));
    out.push(ppm_range(301, 500));
    out.push(ppm_range(501, 700));
    out.push(ppm_range(701, 1000));
    out.push(ppm_range(1001, 3000));
    out.push(ppm_range(3001, 5000));
    out
}

/// Selects the edges with a node at an end whose fee rate lies in a
/// band.
pub struct Band {
    pub node: String,
    pub end: End,
    pub min: u64,
    pub max: u64,
}

/// Whether the edge has `node` at `end` and a fee rate from `min` to
/// `max`.
pub open spec fn in_band(c: &Channel, node: Seq<char>, end: End, min: u64, max: u64) -> bool {
    edge_matches(c, node, end, None) && min <= c.fee_per_millionth <= max
}

impl Pick<Channel> for Band {
    open spec fn picks(&self, item: &Channel) -> bool {
        in_band(item, self.node@, self.end, self.min, self.max)
    }

    fn accepts(&self, item: &Channel) -> (r: bool) {
        if item.fee_per_millionth < self.min || item.fee_per_millionth > self.max {
            return false;
        }
        match self.end {
            End::Source => str_eq(item.source.as_str(), self.node.as_str()),
            End::Destination => str_eq(item.destination.as_str(), self.node.as_str()),
            End::Either => str_eq(item.source.as_str(), self.node.as_str()) || str_eq(
                item.destination.as_str(),
                self.node.as_str(),
            ),
        }
    }
}

/// The capacity of an edge, in whole sat.
pub struct CapacitySat;

impl Measure<Channel> for CapacitySat {
    open spec fn amount(&self, item: &Channel) -> nat {
        (item.amount_msat / 1000) as nat
    }

    fn read(&self, item: &Channel) -> (r: u64) {
        item.amount_msat / 1000
    }
}

/// The capacity, in sat, of the edges with `node` at `end` whose fee
/// rate lies in a band.
pub open spec fn band_capacity(edges: Seq<Channel>, node: Seq<char>, end: End, min: u64, max: u64) -> nat {
    total(edges.filter(|c: Channel| in_band(&c, node, end, min, max)), CapacitySat)
}

/// What a band picks is the edges in the band.
pub proof fn lemma_band(edges: Seq<Channel>, sel: Band)
    ensures
        total(picked(edges, sel), CapacitySat) == band_capacity(
            edges,
            sel.node@,
            sel.end,
            sel.min,
            sel.max,
        ),
{
    let node = sel.node@;
    let end = sel.end;
    let min = sel.min;
    let max = sel.max;
    lemma_filter_same(edges, picker(sel), |c: Channel| in_band(&c, node, end, min, max));
}

/// Fee distribution data structure for histogram visualization.
#[derive(Debug, Clone)]
pub struct FeeDistribution {
    pub labels: Vec<String>,
    /// Capacity, in sat, of the edges that end at the peer, by band.
    pub outgoing_amounts: Vec<u64>,
    /// Capacity, in sat, of the edges that start at the peer, by band.
    pub incoming_amounts: Vec<u64>,
}

impl Store {
    /// The fee aggregate of the edges that start at a node.
    pub fn node_fee(&self, node: &str) -> (r: ChannelFee)
        ensures
            aggregates(r, edges_at(self.channels.channels@, node@, End::Source, None)),
    {
        aggregate(&self.channels.channels, &EdgeSelection::at(node, End::Source))
    }

    /// Get channel metadata per node (fee info aggregated by source
    /// node): one entry for each node that an edge starts at, in the
    /// order in which the nodes first occur as a source.
    pub fn chan_meta_per_node(&self) -> (r: Vec<NodeFee>)
        ensures
            r@.len() == distinct(views(projected(self.channels.channels@, Sources))).len(),
            forall|k: int|
                0 <= k < r@.len() ==> (#[trigger] r@[k]).node@ == distinct(
                    views(projected(self.channels.channels@, Sources)),
                )[k] && aggregates(
                    r@[k].fee,
                    edges_at(self.channels.channels@, r@[k].node@, End::Source, None),
                ),
    {
        let all = project_all(&self.channels.channels, &Sources);
        let sources = distinct_strings(&all);
        let mut out: Vec<NodeFee> = Vec::new();
        let mut i: usize = 0;
        while i < sources.len()
            invariant
                i <= sources.len(),
                out@.len() == i,
                views(sources@) == distinct(views(projected(self.channels.channels@, Sources))),
                forall|k: int|
                    0 <= k < i ==> (#[trigger] out@[k]).node@ == views(sources@)[k] && aggregates(
                        out@[k].fee,
                        edges_at(self.channels.channels@, out@[k].node@, End::Source, None),
                    ),
            decreases sources.len() - i,
        {
            let fee = self.node_fee(sources[i].as_str());
            out.push(NodeFee { node: sources[i].clone(), fee });
            i += 1;
        }
        out
    }

    /// Get fee distribution data for a specific peer based on its
    /// channels: for each fee band, the capacity of the edges that end
    /// at the peer and of those that start at it.
    pub fn get_peer_fee_distribution(&self, peer_id: &str) -> (r: FeeDistribution)
        ensures
            r.labels@.len() == 15,
            r.outgoing_amounts@.len() == 15,
            r.incoming_amounts@.len() == 15,
            forall|i: int|
                0 <= i < 15 ==> (#[trigger] r.labels@[i])@ == range_label(
                    ppm_ranges()[i].0,
                    ppm_ranges()[i].1,
                ),
            forall|i: int|
                0 <= i < 15 ==> #[trigger] r.outgoing_amounts@[i] == capped(
                    band_capacity(
                        self.channels.channels@,
                        peer_id@,
                        End::Destination,
                        ppm_ranges()[i].0,
                        ppm_ranges()[i].1,
                    ),
                ),
            forall|i: int|
                0 <= i < 15 ==> #[trigger] r.incoming_amounts@[i] == capped(
                    band_capacity(
                        self.channels.channels@,
                        peer_id@,
                        End::Source,
                        ppm_ranges()[i].0,
                        ppm_ranges()[i].1,
                    ),
                ),
    {
        let ranges = generate_ppm_ranges();
        let mut labels: Vec<String> = Vec::new();
        let mut outgoing_amounts: Vec<u64> = Vec::new();
        let mut incoming_amounts: Vec<u64> = Vec::new();
        let mut i: usize = 0;
        while i < 15
            invariant
                i <= 15,
                ranges@.len() == 15,
                forall|k: int|
                    0 <= k < 15 ==> (#[trigger] ranges@[k]).min == ppm_ranges()[k].0
                        && ranges@[k].max == ppm_ranges()[k].1 && ranges@[k].label@ == range_label(
                        ranges@[k].min,
                        ranges@[k].max,
                    ),
                labels@.len() == i,
                outgoing_amounts@.len() == i,
                incoming_amounts@.len() == i,
                forall|k: int|
                    0 <= k < i ==> (#[trigger] labels@[k])@ == range_label(
                        ppm_ranges()[k].0,
                        ppm_ranges()[k].1,
                    ),
                forall|k: int|
                    0 <= k < i ==> #[trigger] outgoing_amounts@[k] == capped(
                        band_capacity(
                            self.channels.channels@,
                            peer_id@,
                            End::Destination,
                            ppm_ranges()[k].0,
                            ppm_ranges()[k].1,
                        ),
                    ),
                forall|k: int|
                    0 <= k < i ==> #[trigger] incoming_amounts@[k] == capped(
                        band_capacity(
                            self.channels.channels@,
                            peer_id@,
                            End::Source,
                            ppm_ranges()[k].0,
                            ppm_ranges()[k].1,
                        ),
                    ),
            decreases 15 - i,
        {
            let range = &ranges[i];
            let to_peer = Band {
                node: owned(peer_id),
                end: End::Destination,
                min: range.min,
                max: range.max,
            };
            let from_peer = Band {
                node: owned(peer_id),
                end: End::Source,
                min: range.min,
                max: range.max,
            };
            proof {
                lemma_band(self.channels.channels@, to_peer);
                lemma_band(self.channels.channels@, from_peer);
            }
            labels.push(range.label.clone());
            outgoing_amounts.push(total_picked(&self.channels.channels, &to_peer, &CapacitySat));
            incoming_amounts.push(total_picked(&self.channels.channels, &from_peer, &CapacitySat));
            i += 1;
        }
        FeeDistribution { labels, outgoing_amounts, incoming_amounts }
    }
}

} // verus!
